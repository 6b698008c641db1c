use nursearch::shortcut::{keeps_existing, meta_binding, without_meta, KEY_META};

#[test]
fn removes_only_a_lone_meta_binding() {
    let alt_f1 = vec![0x0900_0030, 0, 0, 0];
    let meta_b = vec![KEY_META + 0x42, 0, 0, 0];
    let keys = vec![vec![KEY_META, 0, 0, 0], alt_f1.clone(), meta_b.clone()];

    assert_eq!(without_meta(&keys), (vec![alt_f1.clone(), meta_b], true));
    assert_eq!(without_meta(&vec![alt_f1.clone()]), (vec![alt_f1], false));
}

#[test]
fn meta_followed_by_another_key_is_kept() {
    let meta_then_a = vec![KEY_META, 0x41, 0, 0];
    let keys = vec![meta_then_a.clone(), vec![]];
    assert_eq!(without_meta(&keys), (vec![meta_then_a, vec![]], false));
}

#[test]
fn an_existing_binding_is_kept_unless_forced() {
    let ctrl_alt_n = vec![0x0C00_004E, 0, 0, 0];
    assert!(keeps_existing(&vec![ctrl_alt_n.clone()], false));
    assert!(!keeps_existing(&vec![ctrl_alt_n], true));
    assert!(!keeps_existing(&vec![vec![0, 0, 0, 0]], false));
    assert!(!keeps_existing(&vec![], false));
}

#[test]
fn meta_is_taken_from_kickoff_and_put_first() {
    let alt_f1 = vec![0x0900_0030, 0, 0, 0];
    let ctrl_alt_n = vec![0x0C00_004E, 0, 0, 0];
    let kickoff = vec![vec![KEY_META, 0, 0, 0], alt_f1.clone()];
    let current = vec![vec![0, 0, 0, 0], ctrl_alt_n.clone(), vec![KEY_META, 0, 0, 0]];
    let binding = meta_binding(&current, &kickoff);
    assert_eq!(binding.kickoff, Some(vec![alt_f1.clone()]));
    assert_eq!(binding.keys, vec![vec![KEY_META, 0, 0, 0], ctrl_alt_n]);
    assert_eq!(binding.message, "Meta now opens NurSearch (removed from the Kickoff launcher)");

    let untouched = meta_binding(&vec![], &vec![alt_f1]);
    assert_eq!(untouched.kickoff, None);
    assert_eq!(untouched.keys, vec![vec![KEY_META, 0, 0, 0]]);
    assert_eq!(untouched.message, "Meta now opens NurSearch");
}
