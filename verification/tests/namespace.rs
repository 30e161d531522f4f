use type_metadata::utils::is_rust_identifier;
use type_metadata::{MetaType, Namespace, NamespaceError, TypePath};

#[test]
fn identifiers_accepted() {
    assert!(is_rust_identifier("foo"));
    assert!(is_rust_identifier("_x1"));
    assert!(is_rust_identifier("_"));
    assert!(is_rust_identifier("Camel_Case9"));
}

#[test]
fn identifiers_rejected() {
    assert!(!is_rust_identifier(""));
    assert!(!is_rust_identifier("1a"));
    assert!(!is_rust_identifier("a-b"));
    assert!(!is_rust_identifier("a b"));
    assert!(!is_rust_identifier("caf\u{e9}"));
    assert!(!is_rust_identifier("\u{e9}t\u{e9}"));
}

#[test]
fn namespace_from_segments() {
    let ns = Namespace::new(vec!["my_crate", "module"]).unwrap();
    assert_eq!(ns.segments(), &vec!["my_crate", "module"]);
}

#[test]
fn namespace_missing_segments() {
    assert_eq!(Namespace::new(vec![]), Err(NamespaceError::MissingSegments));
}

#[test]
fn namespace_invalid_segment_is_the_first_one() {
    assert_eq!(
        Namespace::new(vec!["foo", "1x", "bar-"]),
        Err(NamespaceError::InvalidIdentifier { segment: 1 })
    );
    assert_eq!(
        Namespace::new(vec!["", "ok"]),
        Err(NamespaceError::InvalidIdentifier { segment: 0 })
    );
}

#[test]
fn namespace_from_module_path_splits_at_separators() {
    let ns = Namespace::from_module_path("my_crate::sub::leaf").unwrap();
    assert_eq!(ns.segments(), &vec!["my_crate", "sub", "leaf"]);
    let single = Namespace::from_module_path("my_crate").unwrap();
    assert_eq!(single.segments(), &vec!["my_crate"]);
}

#[test]
fn namespace_from_module_path_rejoins() {
    let path = "a_b::c1::_d";
    let ns = Namespace::from_module_path(path).unwrap();
    assert_eq!(ns.segments().join("::"), path);
}

#[test]
fn namespace_from_module_path_errors() {
    // An empty path is one empty segment.
    assert_eq!(
        Namespace::from_module_path(""),
        Err(NamespaceError::InvalidIdentifier { segment: 0 })
    );
    // A trailing separator leaves an empty last segment.
    assert_eq!(
        Namespace::from_module_path("a::"),
        Err(NamespaceError::InvalidIdentifier { segment: 1 })
    );
    // Separators are matched from the left: "a:::b" is "a" and ":b".
    assert_eq!(
        Namespace::from_module_path("a:::b"),
        Err(NamespaceError::InvalidIdentifier { segment: 1 })
    );
    assert_eq!(
        Namespace::from_module_path("::a"),
        Err(NamespaceError::InvalidIdentifier { segment: 0 })
    );
    assert_eq!(
        Namespace::from_module_path("a::b::3"),
        Err(NamespaceError::InvalidIdentifier { segment: 2 })
    );
}

#[test]
fn namespace_from_module_path_agrees_with_str_split() {
    for path in ["x", "x::y", "x:y", "x::::y", "x:::y", "::", "", "ab::cd::ef"] {
        let pieces: Vec<&'static str> = path.split("::").collect();
        assert_eq!(Namespace::from_module_path(path), Namespace::new(pieces));
    }
}

#[test]
fn prelude_namespace_is_empty() {
    assert!(Namespace::prelude().segments().is_empty());
}

#[test]
fn type_path_keeps_its_parts() {
    let ns = Namespace::new(vec!["core", "option"]).unwrap();
    let path = TypePath::new("Option", ns.clone(), vec![MetaType::new::<u32>()]);
    assert_eq!(*path.name(), "Option");
    assert_eq!(path.namespace(), &ns);
    assert_eq!(path.type_params(), &vec![MetaType::new::<u32>()]);
}
