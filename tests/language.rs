use tpvg::language::{Config, LanguagePack};

fn pack(text: &str) -> LanguagePack {
    let mut p = LanguagePack::new();
    assert!(p.load_language_pack(text));
    p
}

#[test]
fn pack_values_come_from_the_json_object() {
    let p = pack(r#"{"TITLE": "Conditions", "COUNT": 5, "FLAG": true}"#);
    assert_eq!(p.get_value("TITLE"), Some("Conditions".to_string()));
    assert_eq!(p.get_value("COUNT"), Some("5".to_string()));
    assert_eq!(p.get_value("FLAG"), Some("true".to_string()));
    assert_eq!(p.get_value("MISSING"), None);
    assert_eq!(p.entries.len(), 3);
}

#[test]
fn text_that_is_not_an_object_loads_nothing() {
    let mut p = pack(r#"{"A": "x"}"#);
    assert!(!p.load_language_pack("[1, 2]"));
    assert!(p.entries.is_empty());
    assert!(!p.load_language_pack("not json"));
    assert_eq!(p.get_value("A"), None);
}

#[test]
fn field_falls_back_to_the_default_pack() {
    let mut config = Config::new(pack(r#"{"A": "default a", "B": "default b"}"#));
    assert_eq!(config.get_field("A"), "default a");
    assert_eq!(config.get_field("Z"), "null");
    assert!(config.add_language_pack("DE".to_string(), pack(r#"{"A": "de a"}"#)));
    assert!(!config.add_language_pack("DE".to_string(), pack(r#"{"A": "other"}"#)));
    assert!(!config.add_language_pack("DEFAULT".to_string(), LanguagePack::new()));
    assert_eq!(config.languages_pack.len(), 2);
    config.active_language_pack = "DE".to_string();
    assert_eq!(config.get_field("A"), "de a");
    assert_eq!(config.get_field("B"), "default b");
    assert_eq!(config.get_field("Z"), "null");
}
