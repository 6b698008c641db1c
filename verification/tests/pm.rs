use nursearch::pm::{is_git_url, is_valid_id, safe_dest};

#[test]
fn accepts_reverse_dns_ids() {
    assert!(is_valid_id("dev.nursearch.demo"));
    assert!(is_valid_id("com.example.my-plugin_2"));
}

#[test]
fn rejects_traversal_and_unsafe_ids() {
    for bad in ["", ".", "..", "../evil", "a/b", "/abs", ".hidden", "a\\b", "a\0b", "x/../y"] {
        assert!(!is_valid_id(bad), "should reject {bad:?}");
    }
}

#[test]
fn git_sources() {
    assert!(is_git_url("https://github.com/x/y"));
    assert!(is_git_url("git@github.com:x/y"));
    assert!(is_git_url("/tmp/repo.git"));
    assert!(!is_git_url("/tmp/plugin"));
}

#[test]
fn destinations_stay_in_the_plugin_directory() {
    assert_eq!(
        safe_dest("/home/a/.local/share/nursearch/plugins", "dev.demo"),
        Ok("/home/a/.local/share/nursearch/plugins/dev.demo".to_string())
    );
    assert_eq!(safe_dest("/p", "../x"), Err("refusing unsafe plugin id '../x'".to_string()));
}
