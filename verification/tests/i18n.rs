use nursearch::i18n::{error_capability, error_run, lang, system_title, Lang};

#[test]
fn locale_selects_language() {
    assert_eq!(lang("de_DE.UTF-8"), Lang::De);
    assert_eq!(lang("DE"), Lang::De);
    assert_eq!(lang("en_US.UTF-8"), Lang::En);
    assert_eq!(lang(""), Lang::En);
}

#[test]
fn messages_are_localized() {
    assert_eq!(error_run("Firefox", "boom", Lang::En), "Could not run Firefox: boom");
    assert_eq!(error_run("Firefox", "boom", Lang::De), "Firefox konnte nicht ausgeführt werden: boom");
    assert_eq!(system_title("system:lock", Lang::De), "Bildschirm sperren");
    assert_eq!(system_title("system:nope", Lang::En), "");
    assert!(error_capability("clipboard", Lang::En).contains("clipboard"));
}
