use multiglass::identity::{
    ambient_slug, attach_slug, iterm_slug, random_slug, resolve_slug, slug_from_bytes, IdentityError,
    SLUG_ENV,
};

#[test]
fn iterm_session_id_keeps_the_guid() {
    assert_eq!(iterm_slug("w0t1p0:3F2A-11"), "3F2A-11");
    assert_eq!(iterm_slug("a:b:c"), "c");
    assert_eq!(iterm_slug("plain"), "plain");
    assert_eq!(iterm_slug("trailing:"), "");
}

#[test]
fn ambient_prefers_the_exported_slug() {
    assert_eq!(ambient_slug(Some("mine".into()), Some("w0:guid".into())).as_deref(), Some("mine"));
    assert_eq!(ambient_slug(None, Some("w0:guid".into())).as_deref(), Some("guid"));
    assert_eq!(ambient_slug(None, None), None);
    assert_eq!(SLUG_ENV, "MULTIGLASS_SLUG");
}

#[test]
fn explicit_slug_always_wins() {
    assert_eq!(attach_slug(Some("x".into()), Some("y".into())).as_deref(), Some("x"));
    assert_eq!(attach_slug(None, Some("y".into())).as_deref(), Some("y"));
    assert_eq!(attach_slug(None, None), None);
    assert_eq!(resolve_slug(Some("x".into()), Some("y".into())).ok().as_deref(), Some("x"));
    assert_eq!(resolve_slug(None, Some("y".into())).ok().as_deref(), Some("y"));
}

#[test]
fn resolve_without_any_identity_fails() {
    let err = resolve_slug(None, None).unwrap_err();
    assert!(matches!(err, IdentityError::Unknown));
    assert_eq!(
        err.message(),
        "can't tell which session this is — pass a slug explicitly, or run this from inside `multiglass stream`"
    );
}

#[test]
fn minted_slug_is_sixteen_hex_digits() {
    assert_eq!(slug_from_bytes(&[1, 2, 3, 4, 0xde, 0xad, 0xbe, 0xef]), "01020304deadbeef");
    let a = random_slug().unwrap();
    assert_eq!(a.len(), 16);
    assert!(a.chars().all(|c| c.is_ascii_hexdigit() && !c.is_ascii_uppercase()));
    assert_ne!(a, random_slug().unwrap());
}
