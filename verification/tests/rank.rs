use nursearch::db::UsageStats;
use nursearch::rank::{match_score, recency_bonus_at, usage_score_at};

#[test]
fn exact_match_scores_highest() {
    assert!(match_score("Firefox", "firefox").unwrap() > match_score("Firefox", "fire").unwrap());
}

#[test]
fn substring_beats_sparse_fuzzy_match() {
    assert!(
        match_score("Web Browser", "browser").unwrap() > match_score("Word Builder", "wb").unwrap()
    );
}

#[test]
fn returns_none_when_query_characters_are_missing() {
    assert_eq!(match_score("Terminal", "xyz"), None);
}

#[test]
fn match_score_values() {
    assert_eq!(match_score("anything", ""), Some(1000));
    assert_eq!(match_score("Firefox", "firefox"), Some(10000));
    assert_eq!(match_score("Firefox", "fire"), Some(8000 - 7));
    assert_eq!(match_score("Web Browser", "browser"), Some(6000 - 4 - 11));
    // Inside a word a query only matches fuzzily: t at 8, then e and r adjacent.
    assert_eq!(match_score("Info Center", "ter"), Some(3000 + (80 - 8) + 120 + 120 - 11));
    // "wb" in "word builder": w at 0 (80 - 0), b at 5 (80 - 5), minus length 12.
    assert_eq!(match_score("Word Builder", "wb"), Some(3000 + 80 + 80 - 5 - 12));
}

#[test]
fn recency_bands() {
    let now = 1_000_000_000;
    assert_eq!(recency_bonus_at(0, now), 0);
    assert_eq!(recency_bonus_at(now - 3600, now), 120);
    assert_eq!(recency_bonus_at(now - 100 * 3600, now), 60);
    assert_eq!(recency_bonus_at(now - 500 * 3600, now), 25);
    assert_eq!(recency_bonus_at(now - 1000 * 3600, now), 5);
}

#[test]
fn usage_weights_query_launches_over_global_ones() {
    let now = 1_000_000_000;
    let stats = UsageStats {
        global_count: 100,
        global_last_used: now,
        query_count: 2,
        query_last_used: now,
    };
    assert_eq!(usage_score_at(&stats, now), 2 * 220 + 120 + 50 * 45 + 120 / 4);
}

#[test]
fn the_lowercased_text_itself_scores_highest() {
    assert_eq!(match_score("Firefox", "firefox"), Some(10000));
    assert_eq!(match_score("Firefox", ""), Some(1000));
    for q in ["fire", "fox", "frfx", "irefox", "firefo"] {
        assert!(match_score("Firefox", q).map_or(true, |s| s < 10000), "{q}");
    }
}

#[test]
fn usage_bonus_is_bounded_and_caps_counts() {
    let zero = UsageStats { global_count: 0, global_last_used: 0, query_count: 0, query_last_used: 0 };
    assert_eq!(usage_score_at(&zero, 1_000_000), 0);
    let full = UsageStats { global_count: 80, global_last_used: 999_000, query_count: 90, query_last_used: 999_000 };
    assert_eq!(usage_score_at(&full, 1_000_000), 13_400);
    let capped = UsageStats { global_count: 50, global_last_used: 999_000, query_count: 50, query_last_used: 999_000 };
    assert_eq!(usage_score_at(&capped, 1_000_000), usage_score_at(&full, 1_000_000));
    let counts_only = UsageStats { global_count: 3, global_last_used: 0, query_count: 2, query_last_used: 0 };
    assert_eq!(usage_score_at(&counts_only, 1_000_000), 220 * 2 + 45 * 3);
}
