use ciborium::Value;
use nursearch::kcm::{embedded_metadata, page_from_metadata, Meta};

const QT_NOTE_NAME: &[u8] = b"qt-project!\0";

fn metadata(entries: Vec<(&str, Value)>) -> Value {
    Value::Map(entries.into_iter().map(|(k, v)| (Value::Text(k.into()), v)).collect())
}

fn sample() -> Value {
    metadata(vec![
        (
            "KPlugin",
            metadata(vec![
                ("Name", Value::Text("Display Configuration".into())),
                ("Name[de]", Value::Text("Anzeige-Einrichtung".into())),
                ("Description", Value::Text("Manage and configure monitors".into())),
                ("Icon", Value::Text("preferences-desktop-display-randr".into())),
            ]),
        ),
        ("X-KDE-Keywords", Value::Text("display,Monitor, resolution".into())),
        ("X-KDE-Keywords[de]", Value::Text("Bildschirm,Auflösung,monitor".into())),
    ])
}

fn text(s: &str) -> Meta {
    Meta::Text(s.to_string())
}

fn entries(list: Vec<(&str, Meta)>) -> Meta {
    Meta::Entries(list.into_iter().map(|(k, v)| (text(k), v)).collect())
}

fn sample_meta() -> Meta {
    entries(vec![
        (
            "KPlugin",
            entries(vec![
                ("Name", text("Display Configuration")),
                ("Name[de]", text("Anzeige-Einrichtung")),
                ("Description", text("Manage and configure monitors")),
                ("Icon", text("preferences-desktop-display-randr")),
            ]),
        ),
        ("X-KDE-Keywords", text("display,Monitor, resolution")),
        ("X-KDE-Keywords[de]", text("Bildschirm,Auflösung,monitor")),
    ])
}

#[test]
fn reads_metadata_from_a_qt_plugin_note() {
    let mut binary = b"\x7fELF garbage".to_vec();
    binary.extend_from_slice(QT_NOTE_NAME);
    binary.extend_from_slice(&[0, 6, 11, 4]);
    let root = Value::Map(vec![
        (Value::Integer(2.into()), Value::Text("org.kde.KPluginFactory".into())),
        (Value::Integer(4.into()), sample()),
    ]);
    ciborium::into_writer(&root, &mut binary).unwrap();

    let page = page_from_metadata(
        "kcm_kscreen".into(),
        &embedded_metadata(&binary).unwrap(),
        "en",
        true,
    )
    .unwrap();

    assert_eq!(page.name, "Display Configuration");
    assert_eq!(page.icon.as_deref(), Some("preferences-desktop-display-randr"));
    assert_eq!(page.keywords, vec!["display", "monitor", "resolution"]);
}

#[test]
fn session_language_adds_translated_name_and_keywords() {
    let page = page_from_metadata("kcm_kscreen".into(), &sample_meta(), "de", true).unwrap();
    assert_eq!(page.name, "Anzeige-Einrichtung");
    assert_eq!(
        page.keywords,
        vec!["auflösung", "bildschirm", "display", "monitor", "resolution"]
    );
}

#[test]
fn plugin_without_metadata_note_is_skipped() {
    assert!(embedded_metadata(b"\x7fELF no qt metadata here").is_none());
}

#[test]
fn platform_restricted_pages_are_hidden_elsewhere() {
    let meta = entries(vec![
        ("KPlugin", entries(vec![("Name", text("Touchpad"))])),
        ("X-KDE-OnlyShowOnQtPlatforms", text("xcb")),
    ]);
    assert!(page_from_metadata("kcm_touchpad".into(), &meta, "en", true).is_none());
    let page = page_from_metadata("kcm_touchpad".into(), &meta, "en", false).unwrap();
    assert_eq!(page.description, None);
    assert!(page.keywords.is_empty());
}
