use lancea::registry::CommandRegistry;

#[test]
fn test_emoji_aliases() {
    let registry = CommandRegistry::new();
    let resolved = registry.resolve("/emoji laugh");

    assert!(resolved.matched);
    assert_eq!(resolved.provider_id, Some("emoji".to_string()));
    assert_eq!(resolved.command_id, Some("emoji".to_string()));
    assert_eq!(resolved.reason, Some("slash-command".into()));

    let resolved = registry.resolve("just some text");
    assert!(!resolved.matched);
    assert!(resolved.provider_id.is_none());
    assert!(resolved.command_id.is_none());
}

#[test]
fn test_apps_aliases() {
    let registry = CommandRegistry::new();
    let resolved = registry.resolve("/apps spotify");

    assert!(resolved.matched);
    assert_eq!(resolved.provider_id, Some("apps".to_string()));
    assert_eq!(resolved.command_id, Some("apps".to_string()));
    assert_eq!(resolved.reason, Some("slash-command".into()));

    let resolved = registry.resolve("just some text");
    assert!(!resolved.matched);
    assert!(resolved.provider_id.is_none());
    assert!(resolved.command_id.is_none());
}

#[test]
fn resolve_short_aliases_and_trimming() {
    let registry = CommandRegistry::new();
    let r = registry.resolve("   /em smile  ");
    assert!(r.matched);
    assert_eq!(r.provider_id.as_deref(), Some("emoji"));
    let r = registry.resolve("/ap");
    assert!(r.matched);
    assert_eq!(r.provider_id.as_deref(), Some("apps"));
    assert!(r.intent.is_none());
}

#[test]
fn resolve_unmatched_has_no_optional_fields() {
    let registry = CommandRegistry::new();
    for t in ["", "   ", "emoji", "x /emoji", "/e", "/a"] {
        let r = registry.resolve(t);
        assert!(!r.matched);
        assert!(r.provider_id.is_none());
        assert!(r.command_id.is_none());
        assert!(r.intent.is_none());
        assert!(r.reason.is_none());
    }
}
