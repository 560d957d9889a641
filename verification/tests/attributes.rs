use struct_component::attributes::Attributes;

fn entry(k: &str, v: Option<&str>) -> (String, Option<String>) {
    (k.to_string(), v.map(|value| value.to_string()))
}

fn attrs(entries: &[(&str, Option<&str>)]) -> Attributes {
    Attributes::from_entries(entries.iter().map(|(k, v)| entry(k, *v)).collect())
}

/// Overlaying onto defaults: the attribute map's own value wins on a
/// conflicting key, defaults show through elsewhere, and order is
/// defaults first, own keys after.
#[test]
fn test_attributes_with_defaults() {
    let merged = attrs(&[("id", Some("x")), ("role", Some("button"))])
        .with_defaults(attrs(&[("id", Some("fallback")), ("tabindex", Some("0"))]));
    assert_eq!(merged.get("id"), Some(Some("x".to_string())));
    assert_eq!(merged.get("tabindex"), Some(Some("0".to_string())));
    assert_eq!(merged.get("role"), Some(Some("button".to_string())));
    let pairs = merged.to_custom_attributes();
    assert_eq!(
        pairs,
        vec![
            entry("id", Some("x")),
            entry("tabindex", Some("0")),
            entry("role", Some("button")),
        ]
    );
}

/// An absent side yields to the present one; two absent sides stay
/// absent.
#[test]
fn test_attributes_absent_sides() {
    let merged = Attributes::default().with_defaults(attrs(&[("id", Some("x"))]));
    assert_eq!(merged.get("id"), Some(Some("x".to_string())));

    let merged = attrs(&[("id", Some("x"))]).with_defaults(Attributes::default());
    assert_eq!(merged.get("id"), Some(Some("x".to_string())));

    let merged = Attributes::default().with_defaults(Attributes::default());
    assert_eq!(merged.get("id"), None);
    assert_eq!(merged.to_custom_attributes(), vec![]);
}

/// An explicit no-value entry overrides a default at the same key.
#[test]
fn test_attributes_explicit_none_overrides() {
    let merged = attrs(&[("hidden", None)]).with_defaults(attrs(&[("hidden", Some("true"))]));
    assert_eq!(merged.get("hidden"), Some(None));
}

/// The default attribute map is absent.
#[test]
fn test_attributes_default_is_absent() {
    let attributes: Attributes = Default::default();
    assert_eq!(attributes.get("id"), None);
}
