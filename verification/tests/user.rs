use bitsrun::user::{BitUser, BitUserPartial};

#[test]
fn new_keeps_both_halves() {
    let partial = BitUserPartial::new(Some("u1".to_string()), None);
    assert_eq!(partial.username.as_deref(), Some("u1"));
    assert_eq!(partial.password, None);
}

#[test]
fn defaults_are_empty() {
    let partial = BitUserPartial::default();
    assert!(partial.username.is_none() && partial.password.is_none());
    let user = BitUser::default();
    assert_eq!(user.username, "");
    assert_eq!(user.password, "");
}

#[test]
fn complete_needs_both_halves() {
    assert!(BitUserPartial::new(Some("u".into()), Some("p".into())).is_complete());
    assert!(!BitUserPartial::new(Some("u".into()), None).is_complete());
    assert!(!BitUserPartial::new(None, Some("p".into())).is_complete());
    assert!(!BitUserPartial::new(None, None).is_complete());
}

#[test]
fn merge_prefers_the_receiver() {
    let command_line = BitUserPartial::new(Some("cli".into()), None);
    let file = BitUserPartial::new(Some("file".into()), Some("secret".into()));
    let merged = command_line.merged_with(file);
    assert_eq!(merged.username.as_deref(), Some("cli"));
    assert_eq!(merged.password.as_deref(), Some("secret"));
    let merged = BitUserPartial::new(None, None).merged_with(BitUserPartial::new(None, None));
    assert!(merged.username.is_none() && merged.password.is_none());
}

#[test]
fn into_user_fills_unknown_halves_with_empty_text() {
    let user = BitUserPartial::new(Some("u1".into()), None).into_user();
    assert_eq!(user.username, "u1");
    assert_eq!(user.password, "");
    let user = BitUserPartial::new(None, Some("p1".into())).into_user();
    assert_eq!(user.username, "");
    assert_eq!(user.password, "p1");
}
