use nursearch::units::try_convert;

fn cv(s: &str) -> Option<String> {
    try_convert(s)
}

#[test]
fn length_km_to_mi() {
    assert_eq!(cv("10 km in mi"), Some("6.213712 mi".into()));
}

#[test]
fn length_ft_to_cm() {
    let r = cv("5 ft to cm").unwrap();
    assert!(r.starts_with("152.4 cm"), "got: {r}");
}

#[test]
fn mass_kg_to_lb() {
    let r = cv("1,5 kg in lb").unwrap();
    assert!(r.contains(','), "should use comma: {r}");
    assert!(r.starts_with("3,306"), "got: {r}");
}

#[test]
fn temperature_celsius_to_fahrenheit() {
    assert_eq!(cv("20 °C in F"), Some("68 °F".into()));
    assert_eq!(cv("0 c to f"), Some("32 °F".into()));
    assert_eq!(cv("20c to f"), Some("68 °F".into()));
}

#[test]
fn temperature_fahrenheit_to_celsius() {
    let r = cv("98.6 f in c").unwrap();
    assert!(r.starts_with("37 "), "got: {r}");
}

#[test]
fn time_hours_to_minutes() {
    assert_eq!(cv("3 h in min"), Some("180 min".into()));
}

#[test]
fn data_gb_to_mb() {
    assert_eq!(cv("1 GB in MB"), Some("1000 MB".into()));
}

#[test]
fn data_gib_to_mb() {
    let r = cv("1 GiB in MB").unwrap();
    assert!(r.starts_with("1073.741824 MB"), "got: {r}");
}

#[test]
fn speed_kmh_to_mph() {
    let r = cv("100 km/h in mph").unwrap();
    assert!(r.starts_with("62.13711"), "got: {r}");
}

#[test]
fn volume_l_to_ml() {
    assert_eq!(cv("1 l in ml"), Some("1000 ml".into()));
}

#[test]
fn german_connectors() {
    assert_eq!(cv("10 km nach mi"), Some("6.213712 mi".into()));
    assert_eq!(cv("10 km zu mi"), Some("6.213712 mi".into()));
}

#[test]
fn no_space_between_number_and_unit() {
    let r = cv("20c to f").unwrap();
    assert!(r.starts_with("68 °F"), "got: {r}");
}

#[test]
fn rejects_app_search_queries() {
    assert_eq!(cv("7zip"), None);
    assert_eq!(cv("vlc"), None);
    assert_eq!(cv("2048"), None);
    assert_eq!(cv("h2o"), None);
    assert_eq!(cv("mp3 player"), None);
    assert_eq!(cv("in"), None);
    assert_eq!(cv("k3b"), None);
}

#[test]
fn rejects_incompatible_categories() {
    assert_eq!(cv("10 km in kg"), None);
    assert_eq!(cv("100 MB in km"), None);
}

#[test]
fn rejects_unknown_units() {
    assert_eq!(cv("10 xyz in km"), None);
    assert_eq!(cv("10 km in xyz"), None);
}

#[test]
fn kelvin_and_minutes_inside_words() {
    assert_eq!(cv("0 c in k"), Some("273.15 K".into()));
    assert_eq!(cv("2 min in s"), Some("120 s".into()));
    assert_eq!(cv("1 fl oz in ml ="), Some("29.57353 ml".into()));
}

#[test]
fn conversion_ignores_ascii_case() {
    assert_eq!(try_convert("10 KM TO MI"), try_convert("10 km to mi"));
    assert_eq!(try_convert("10 Km In Mi"), Some("6.213712 mi".to_string()));
    assert_eq!(try_convert("5 KG NACH LB"), try_convert("5 kg nach lb"));
}
