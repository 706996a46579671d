use text_adventure_game::config::section::{EntitySection, Record, UnverifiedRecord};
use text_adventure_game::error::Application;
use text_adventure_game::names::{Identifier, Title};

fn props(map: &[(&str, &str)]) -> Vec<(String, String)> {
    map.iter().map(|(k, v)| (k.to_string(), v.to_string())).collect()
}

fn make_record<'a>(name: &str, map: &[(&str, &str)], props: &'a Vec<(String, String)>) -> Record<'a> {
    let keys = map.iter().map(|(k, _)| *k).collect::<Vec<_>>();
    UnverifiedRecord::try_new(name, props).unwrap().into_record(keys.as_slice(), &[]).unwrap()
}

#[test]
fn require_success() {
    let map = [("description", "A golden ring.")];
    let p = props(&map);
    let record = make_record("Item:golden_ring", &map, &p);
    let result = record.require("description");
    assert_eq!(result.unwrap(), "A golden ring.");
}

#[test]
fn require_failure() {
    let p = props(&[]);
    let record = make_record("Item:ring", &[], &p);
    let err = record.require("description").unwrap_err();
    match err {
        Application::PropertyNotFound { property, id, etype: entity } => {
            assert_eq!(property, "description");
            assert_eq!(id, "ring");
            assert_eq!(entity, "Item");
        }
        _ => panic!("Expected PropertyNotFound"),
    }
}

#[test]
fn expect_keys_success_with_optional() {
    let p = props(&[("description", "A ring"), ("weight", "5")]);
    let record = UnverifiedRecord::try_new("Item:ring", &p).unwrap();
    let result = record.into_record(&["description"], &["weight"]);
    assert!(result.is_ok());
}

#[test]
fn expect_keys_success_required_only() {
    let p = props(&[("description", "A ring")]);
    let record = UnverifiedRecord::try_new("Item:ring", &p).unwrap();
    let result = record.into_record(&["description"], &["weight"]);
    assert!(result.is_ok());
}

#[test]
fn expect_keys_missing_required() {
    let p = props(&[("weight", "5")]);
    let record = UnverifiedRecord::try_new("Item:ring", &p).unwrap();
    let err = record.into_record(&["description"], &["weight"]).err().unwrap();
    match err {
        Application::MissingProperties { missing, etype: entity, id } => {
            assert_eq!(missing, vec!["description".to_string()]);
            assert_eq!(entity, "Item");
            assert_eq!(id, "ring");
        }
        _ => panic!("Expected PropertyNamesDontMatch"),
    }
}

#[test]
fn expect_keys_unexpected_extra_key() {
    let p = props(&[("description", "A ring"), ("weight", "5"), ("color", "red")]);
    let record = UnverifiedRecord::try_new("Item:ring", &p).unwrap();
    let err = record.into_record(&["description"], &["weight"]).err().unwrap();
    match err {
        Application::UnexpectedProperties { unexpected, etype: entity, id } => {
            assert_eq!(unexpected, vec!["color".to_string()]);
            assert_eq!(entity, "Item");
            assert_eq!(id, "ring");
        }
        _ => panic!("Expected PropertyNamesDontMatch"),
    }
}

#[test]
fn section_name_splits_into_kind_name_and_variant() {
    let p = props(&[]);
    let record = UnverifiedRecord::try_new(" Room : WoodShed | closed ", &p).unwrap();
    assert_eq!(record.section, EntitySection::Room);
    assert_eq!(record.name, "WoodShed");
    assert_eq!(record.qualified_name, "WoodShed | closed");
    assert_eq!(record.variant.as_ref().unwrap().as_str(), "closed");
    let record = record.into_record(&[], &[]).unwrap();
    let t: Title = record.parse_name().unwrap();
    assert_eq!(t.as_str(), "Wood Shed");
    assert_eq!(record.entity_type(), "Room");
}

#[test]
fn unknown_kind_and_bad_variant_are_refused() {
    let p = props(&[]);
    match UnverifiedRecord::try_new("Place:Home", &p) {
        Err(Application::InvalidPropertyValue { etype, value, field }) => {
            assert_eq!(etype, "Not Found");
            assert_eq!(value, "Place:Home");
            assert_eq!(field, "Section Name");
        }
        _ => panic!("expected an invalid section name"),
    }
    match UnverifiedRecord::try_new("Room:Home|Bad Variant", &p) {
        Err(Application::ConversionFailed { etype, property, source }) => {
            assert_eq!(etype, "Room");
            assert_eq!(property, "variant");
            assert_eq!(source.value, "Bad Variant");
        }
        _ => panic!("expected a bad variant"),
    }
}

#[test]
fn lists_are_trimmed_and_skip_empty_entries() {
    let map = [("items", " a , b,, c ,"), ("one", "x")];
    let p = props(&map);
    let record = make_record("Item:ring", &map, &p);
    assert_eq!(record.get_list("items"), vec!["a".to_string(), "b".to_string(), "c".to_string()]);
    assert!(record.get_list("missing").is_empty());
    let ids: Vec<Identifier> = record.get_list_parsed("items").unwrap();
    assert_eq!(ids.len(), 3);
    assert!(record.require_list("missing").is_err());
    let parsed: Option<Identifier> = record.get_parsed("one").unwrap();
    assert_eq!(parsed.unwrap().as_str(), "x");
    let bad = record.get_list_parsed::<Title>("items");
    match bad {
        Err(Application::ConversionFailed { property, source, .. }) => {
            assert_eq!(property, "name");
            assert_eq!(source.value, "a");
        }
        _ => panic!("expected a conversion error"),
    }
}

#[test]
fn root_record_checks_its_keys() {
    let p = props(&[("title", "T")]);
    let r = Record::from_root(&p, &["title", "greeting"], &[]);
    match r {
        Err(Application::MissingProperties { missing, etype, id }) => {
            assert_eq!(missing, vec!["greeting".to_string()]);
            assert_eq!(etype, "Root");
            assert_eq!(id, "Root");
        }
        _ => panic!("expected missing properties"),
    }
}

#[test]
fn section_kind_names_read_back() {
    for k in EntitySection::all() {
        assert_eq!(EntitySection::from_text(k.as_str()), Some(k));
    }
    assert_eq!(EntitySection::from_text("Rooms"), None);
    assert_eq!(EntitySection::from_text("room"), None);
}
