use nursearch::config::Quicklink;
use nursearch::direct::{classify, percent_encode, resolve, Resolution, Target};

fn links() -> Vec<Quicklink> {
    vec![
        Quicklink {
            keyword: "aw".into(),
            name: "Arch Wiki".into(),
            url: "https://wiki.archlinux.org/index.php?search={query}".into(),
            icon: None,
        },
        Quicklink {
            keyword: "mail".into(),
            name: "Mail".into(),
            url: "https://mail.example.org".into(),
            icon: None,
        },
    ]
}

#[test]
fn quicklink_fills_in_the_encoded_term() {
    let Some(Target::Quicklink { url, term, .. }) = resolve("aw Wayland & KDE", &links(), None)
    else {
        panic!("expected a quicklink");
    };
    assert_eq!(url, "https://wiki.archlinux.org/index.php?search=Wayland%20%26%20KDE");
    assert_eq!(term.as_deref(), Some("Wayland & KDE"));
}

#[test]
fn quicklink_without_term_opens_the_site_and_bookmarks_match_bare_keyword() {
    assert!(matches!(
        resolve("AW", &links(), None),
        Some(Target::Quicklink { url, term: None, .. }) if url == "https://wiki.archlinux.org/"
    ));
    assert!(matches!(
        resolve("mail", &links(), None),
        Some(Target::Quicklink { url, .. }) if url == "https://mail.example.org"
    ));
    assert_eq!(resolve("mail something", &links(), None), None);
    assert_eq!(resolve("awesome", &links(), None), None);
}

#[test]
fn recognizes_urls_but_not_app_names() {
    assert_eq!(
        resolve("https://Example.com/A", &[], None),
        Some(Target::Url("https://Example.com/A".into()))
    );
    assert_eq!(
        resolve("github.com/NurRobin", &[], None),
        Some(Target::Url("https://github.com/NurRobin".into()))
    );
    for query in ["firefox.desktop", "v1.2", "3.5", "node.js", "https://", "foo bar.com"] {
        assert_eq!(resolve(query, &[], None), None, "{query}");
    }
}

#[test]
fn opens_existing_paths_only() {
    let home = "/tmp";
    assert_eq!(resolve("~", &[], Some(home)), Some(Target::Path(home.to_string())));
    assert_eq!(resolve("/", &[], None), Some(Target::Path("/".to_string())));
    assert_eq!(resolve("/definitely/not/here", &[], None), None);
}

#[test]
fn shell_command_needs_text_after_the_prompt() {
    assert_eq!(
        resolve("> code ~/Projects", &[], None),
        Some(Target::Command("code ~/Projects".into()))
    );
    assert_eq!(resolve(">", &[], None), None);
}

#[test]
fn path_candidates_join_home() {
    assert!(matches!(
        classify("~/Documents", &[], Some("/home/ann")),
        Resolution::Candidate(p) if p == "/home/ann/Documents"
    ));
    assert!(matches!(
        classify("~/x", &[], Some("/home/ann/")),
        Resolution::Candidate(p) if p == "/home/ann/x"
    ));
    assert!(matches!(classify("~/x", &[], None), Resolution::Nothing));
    assert!(matches!(classify("relative/path", &[], None), Resolution::Nothing));
    assert!(matches!(classify("   ", &[], None), Resolution::Nothing));
}

#[test]
fn hosts_need_a_known_domain_and_clean_labels() {
    assert!(matches!(classify("example.org:8080/x", &[], None), Resolution::Found(Target::Url(u)) if u == "https://example.org:8080/x"));
    assert!(matches!(classify("a..com", &[], None), Resolution::Nothing));
    assert!(matches!(classify(".com", &[], None), Resolution::Nothing));
    assert!(matches!(classify("example.zz", &[], None), Resolution::Nothing));
}

#[test]
fn percent_encoding_of_unicode_and_reserved_bytes() {
    assert_eq!(percent_encode("a b&c"), "a%20b%26c");
    assert_eq!(percent_encode("-_.~Az9"), "-_.~Az9");
    assert_eq!(percent_encode("ü"), "%C3%BC");
    assert_eq!(percent_encode("€"), "%E2%82%AC");
    assert_eq!(percent_encode("😀"), "%F0%9F%98%80");
}
