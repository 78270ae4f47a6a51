use sqlx_data_parser::alias::{AliasError, AliasManager, MethodAttribute};
use syn::parse::Parser;

#[test]
fn test_simple_alias_substitution() {
    let mut manager = AliasManager::new();
    manager.add_alias("all".to_string(), "id, name, email".to_string());

    let sql = "SELECT {{all}} FROM users";
    let result = manager.substitute_aliases(sql).unwrap();
    assert_eq!(result, "SELECT id, name, email FROM users");
}

#[test]
fn test_multiple_alias_substitution() {
    let mut manager = AliasManager::new();
    manager.add_alias("columns".to_string(), "id, name".to_string());
    manager.add_alias("table".to_string(), "users u".to_string());

    let sql = "SELECT {{columns}} FROM {{table}} WHERE u.active = 1";
    let result = manager.substitute_aliases(sql).unwrap();
    assert_eq!(result, "SELECT id, name FROM users u WHERE u.active = 1");
}

#[test]
fn test_nested_alias_substitution() {
    let mut manager = AliasManager::new();
    manager.add_alias("base_columns".to_string(), "id, name".to_string());
    manager.add_alias(
        "all_columns".to_string(),
        "{{base_columns}}, email, age".to_string(),
    );

    let sql = "SELECT {{all_columns}} FROM users";
    let result = manager.substitute_aliases(sql).unwrap();
    assert_eq!(result, "SELECT id, name, email, age FROM users");
}

#[test]
fn test_unresolved_alias_error() {
    let manager = AliasManager::new();
    let sql = "SELECT {{undefined}} FROM users";
    let result = manager.substitute_aliases(sql);
    assert!(result.is_err());
    assert!(result.unwrap_err().to_string().contains("Unresolved alias"));
}

#[test]
fn test_circular_reference_detection() {
    let mut manager = AliasManager::new();
    manager.add_alias("a".to_string(), "{{b}}".to_string());
    manager.add_alias("b".to_string(), "{{a}}".to_string());

    let sql = "SELECT {{a}} FROM users";
    let result = manager.substitute_aliases(sql);
    assert!(result.is_err());
    assert!(
        result
            .unwrap_err()
            .to_string()
            .contains("Circular alias reference")
    );
}

#[test]
fn alias_error_messages_exact() {
    assert_eq!(
        AliasError::CircularReference("a".to_string()).to_string(),
        "Circular alias reference detected: a"
    );
    assert_eq!(
        AliasError::UnresolvedAlias("x".to_string()).to_string(),
        "Unresolved alias: {{ x }}"
    );
    assert_eq!(
        AliasError::InvalidInjection("oops".to_string()).to_string(),
        "Invalid alias format in injection: 'oops'"
    );
}

#[test]
fn unresolved_reference_with_spaces_is_reported_by_name() {
    let mut manager = AliasManager::new();
    manager.add_alias("a".to_string(), "x".to_string());
    let result = manager.substitute_aliases("SELECT {{a}}, {{  missing_1 }} FROM t");
    assert_eq!(result, Err(AliasError::UnresolvedAlias("missing_1".to_string())));
}

#[test]
fn text_without_braces_is_unchanged() {
    let mut manager = AliasManager::new();
    manager.add_alias("a".to_string(), "b".to_string());
    let sql = "SELECT { a } FROM t WHERE x = '}}'";
    assert_eq!(manager.substitute_aliases(sql).unwrap(), sql);
}

#[test]
fn every_occurrence_is_replaced() {
    let mut manager = AliasManager::new();
    manager.add_alias("c".to_string(), "id".to_string());
    assert_eq!(
        manager.substitute_aliases("SELECT {{c}} FROM t ORDER BY {{c}}").unwrap(),
        "SELECT id FROM t ORDER BY id"
    );
}

#[test]
fn add_alias_replaces_existing_name() {
    let mut manager = AliasManager::new();
    assert!(!manager.has_aliases());
    manager.add_alias("a".to_string(), "1".to_string());
    manager.add_alias("b".to_string(), "2".to_string());
    manager.add_alias("a".to_string(), "3".to_string());
    assert!(manager.has_aliases());
    assert_eq!(manager.get_alias_names(), vec!["a".to_string(), "b".to_string()]);
    assert_eq!(manager.substitute_aliases("{{a}}{{b}}").unwrap(), "32");
}

#[test]
fn serialize_escapes_quotes_and_semicolons() {
    let mut manager = AliasManager::new();
    assert_eq!(manager.serialize_for_injection(), "");
    manager.add_alias("a".to_string(), "x = \"y\"".to_string());
    manager.add_alias("b".to_string(), "p;q".to_string());
    assert_eq!(manager.serialize_for_injection(), "a=x = \\\"y\\\";b=p\\;q");
}

#[test]
fn injection_roundtrip_on_concrete_aliases() {
    let mut manager = AliasManager::new();
    manager.add_alias("all".to_string(), "id, name, \"email\"".to_string());
    manager.add_alias("t".to_string(), "users u".to_string());
    manager.add_alias("empty".to_string(), "".to_string());
    let text = manager.serialize_for_injection();
    let back = AliasManager::deserialize_from_injection(&text).unwrap();
    assert_eq!(back.get_alias_names(), manager.get_alias_names());
    assert_eq!(back.serialize_for_injection(), text);
    assert_eq!(
        back.substitute_aliases("SELECT {{all}} FROM {{t}}{{empty}}").unwrap(),
        "SELECT id, name, \"email\" FROM users u"
    );
}

#[test]
fn deserialize_trims_and_skips_empty_pieces() {
    let m = AliasManager::deserialize_from_injection("  a = 1 ;; b=x\\\"y ;").unwrap();
    assert_eq!(m.get_alias_names(), vec!["a".to_string(), "b".to_string()]);
    assert_eq!(m.substitute_aliases("{{a}}|{{b}}").unwrap(), " 1|x\"y");
    assert!(!AliasManager::deserialize_from_injection("   ").unwrap().has_aliases());
}

#[test]
fn deserialize_rejects_piece_without_equals() {
    let r = AliasManager::deserialize_from_injection("a=1; broken ");
    assert_eq!(r.unwrap_err(), AliasError::InvalidInjection("broken".to_string()));
}

#[test]
fn semicolon_in_content_does_not_survive_injection() {
    let mut manager = AliasManager::new();
    manager.add_alias("a".to_string(), "x;y".to_string());
    let text = manager.serialize_for_injection();
    let back = AliasManager::deserialize_from_injection(&text);
    assert_eq!(back.unwrap_err(), AliasError::InvalidInjection("y".to_string()));
}

#[test]
fn clone_and_default_keep_aliases() {
    let mut manager = AliasManager::default();
    assert!(!manager.has_aliases());
    manager.add_alias("a".to_string(), "1".to_string());
    let copy = manager.clone();
    assert_eq!(copy.get_alias_names(), vec!["a".to_string()]);
}

fn attr(is_alias_list: bool, value: Option<&str>) -> MethodAttribute {
    MethodAttribute { is_alias_list, string_value: value.map(|v| v.to_string()) }
}

#[test]
fn method_attributes_without_alias_list_give_no_aliases() {
    let attrs = vec![attr(false, Some("a=1")), attr(true, None)];
    let m = AliasManager::from_method_attributes(&attrs).unwrap();
    assert!(!m.has_aliases());
    let m = AliasManager::from_method_attributes(&[]).unwrap();
    assert!(!m.has_aliases());
}

#[test]
fn first_alias_list_attribute_is_read() {
    let attrs = vec![
        attr(false, Some("x=9")),
        attr(true, None),
        attr(true, Some("cols=id, name;tbl=users")),
        attr(true, Some("other=1")),
    ];
    let m = AliasManager::from_method_attributes(&attrs).unwrap();
    assert_eq!(m.get_alias_names(), vec!["cols".to_string(), "tbl".to_string()]);
    assert_eq!(m.substitute_aliases("SELECT {{cols}} FROM {{tbl}}").unwrap(), "SELECT id, name FROM users");
}

#[test]
fn malformed_alias_list_attribute_is_an_error() {
    let attrs = vec![attr(true, Some("broken")), attr(true, Some("a=1"))];
    let err = AliasManager::from_method_attributes(&attrs).unwrap_err();
    assert_eq!(err.to_string(), "Invalid alias format in injection: 'broken'");
}

#[test]
fn method_receives_trait_aliases_through_injection() {
    let mut trait_aliases = AliasManager::new();
    trait_aliases.add_alias("cols".to_string(), "id, \"name\"".to_string());
    trait_aliases.add_alias("tbl".to_string(), "users".to_string());
    let injected = trait_aliases.serialize_for_injection();
    let attrs = vec![attr(false, None), attr(true, Some(&injected))];
    let m = AliasManager::from_method_attributes(&attrs).unwrap();
    assert_eq!(m.get_alias_names(), trait_aliases.get_alias_names());
    assert_eq!(m.substitute_aliases("{{cols}}|{{tbl}}").unwrap(), "id, \"name\"|users");
}

#[test]
fn self_referring_alias_is_circular() {
    let mut manager = AliasManager::new();
    manager.add_alias("b".to_string(), "y".to_string());
    manager.add_alias("a".to_string(), "x {{a}}".to_string());
    let err = manager.substitute_aliases("{{b}} {{a}}").unwrap_err();
    assert_eq!(err.to_string(), "Circular alias reference detected: a");
}

#[test]
fn shared_alias_is_substituted_whatever_the_order() {
    let mut first = AliasManager::new();
    first.add_alias("a".to_string(), "x".to_string());
    first.add_alias("b".to_string(), "{{a}}".to_string());
    assert_eq!(first.substitute_aliases("{{a}} {{b}}").unwrap(), "x x");
    let mut second = AliasManager::new();
    second.add_alias("b".to_string(), "{{a}}".to_string());
    second.add_alias("a".to_string(), "x".to_string());
    assert_eq!(second.substitute_aliases("{{a}} {{b}}").unwrap(), "x x");
}

#[test]
fn longest_acyclic_chain_is_expanded() {
    let mut m = AliasManager::new();
    m.add_alias("a".to_string(), "1".to_string());
    m.add_alias("b".to_string(), "{{a}}2".to_string());
    m.add_alias("c".to_string(), "{{b}}3".to_string());
    assert_eq!(m.substitute_aliases("{{c}}|{{b}}|{{a}}").unwrap(), "123|12|1");
    let mut r = AliasManager::new();
    r.add_alias("c".to_string(), "{{b}}3".to_string());
    r.add_alias("b".to_string(), "{{a}}2".to_string());
    r.add_alias("a".to_string(), "1".to_string());
    assert_eq!(r.substitute_aliases("{{c}}|{{b}}|{{a}}").unwrap(), "123|12|1");
}

#[test]
fn two_alias_cycle_is_circular() {
    let mut m = AliasManager::new();
    m.add_alias("a".to_string(), "{{b}}".to_string());
    m.add_alias("b".to_string(), "{{a}}".to_string());
    let err = m.substitute_aliases("SELECT {{b}}").unwrap_err();
    assert!(matches!(err, AliasError::CircularReference(_)));
}

fn outer_attributes(text: &str) -> Vec<syn::Attribute> {
    syn::Attribute::parse_outer.parse_str(text).unwrap()
}

#[test]
fn test_parse_alias_attributes() {
    let attrs = outer_attributes(
        "#[alias(all = \"id, name, email\")] #[alias(count = \"SELECT COUNT(*) FROM users\")]",
    );
    let manager = AliasManager::parse_from_attributes(&attrs).unwrap();
    assert!(manager.has_aliases());
    let names = manager.get_alias_names();
    assert!(names.contains(&"all".to_string()));
    assert!(names.contains(&"count".to_string()));
}

#[test]
fn alias_attributes_skip_others_and_later_declarations_win() {
    let attrs = outer_attributes(
        "#[doc = \"x\"] #[alias(a = \"1\", b = \"2\")] #[other(z)] #[alias(a = \"3\")]",
    );
    let m = AliasManager::parse_from_attributes(&attrs).unwrap();
    assert_eq!(m.get_alias_names(), vec!["a".to_string(), "b".to_string()]);
    assert_eq!(m.substitute_aliases("{{a}}{{b}}").unwrap(), "32");
}

#[test]
fn malformed_alias_attributes_are_errors() {
    let err = AliasManager::parse_from_attributes(&outer_attributes("#[alias(a::b = \"x\")]")).unwrap_err();
    assert_eq!(err.to_string(), "Expected alias name");
    let err = AliasManager::parse_from_attributes(&outer_attributes("#[alias(a(\"x\"))]")).unwrap_err();
    assert_eq!(err.to_string(), "Expected alias = \"content\" format");
    let err = AliasManager::parse_from_attributes(&outer_attributes("#[alias(a = 5)]")).unwrap_err();
    assert!(matches!(err, AliasError::InvalidAttribute(_)));
    let err = AliasManager::parse_from_attributes(&outer_attributes("#[alias]")).unwrap_err();
    assert!(matches!(err, AliasError::InvalidAttribute(_)));
}

#[test]
fn acyclic_aliases_expand_fully_in_any_order() {
    let defs = [("base", "id, name"), ("all", "{{base}}, email"), ("tbl", "users")];
    let sql = "SELECT {{all}}, {{base}} FROM {{tbl}}";
    let mut forward = AliasManager::new();
    for (n, c) in defs.iter() {
        forward.add_alias(n.to_string(), c.to_string());
    }
    let mut backward = AliasManager::new();
    for (n, c) in defs.iter().rev() {
        backward.add_alias(n.to_string(), c.to_string());
    }
    let expected = "SELECT id, name, email, id, name FROM users";
    assert_eq!(forward.substitute_aliases(sql).unwrap(), expected);
    assert_eq!(backward.substitute_aliases(sql).unwrap(), expected);
}

#[test]
fn injected_aliases_are_read_from_method_syntax() {
    let attrs = outer_attributes(
        "#[doc = \"x\"] #[sqlx_data_aliases(a)] #[sqlx_data_aliases = \"cols=id, name;tbl=users\"]",
    );
    let m = AliasManager::extract_from_method_attributes(&attrs).unwrap();
    assert_eq!(m.substitute_aliases("SELECT {{cols}} FROM {{tbl}}").unwrap(), "SELECT id, name FROM users");
    let none = AliasManager::extract_from_method_attributes(&outer_attributes("#[doc = \"x\"]")).unwrap();
    assert!(!none.has_aliases());
    let err = AliasManager::extract_from_method_attributes(&outer_attributes("#[sqlx_data_aliases = \"bad\"]"))
        .unwrap_err();
    assert_eq!(err.to_string(), "Invalid alias format in injection: 'bad'");
}
