use text_adventure_game::names::{Identifier, ThemeColor, Title};

#[test]
fn invariant_valid_identifier() {
    let id: Identifier = "test_aid15-8".parse().unwrap();
    assert_eq!(id.to_string(), "test_aid_15_8".to_string());
    let id: Identifier = "t".parse().unwrap();
    assert_eq!(id.to_string(), "t".to_string());
}

#[test]
fn invariant_valid_title() {
    let title: Title = "ATitleThat_big".parse().unwrap();
    assert_eq!(title.to_string(), "A Title That Big".to_string());
    let title: Title = "Al".parse().unwrap();
    assert_eq!(title.to_string(), "Al".to_string());
}

#[test]
fn invariant_invalid_identifier() {
    let id = "test_aid15?".parse::<Identifier>();
    assert!(id.is_err(), "{:?}", id);
    let id = "Test_aid15".parse::<Identifier>();
    assert!(id.is_err(), "{:?}", id);
    let id = "T".parse::<Identifier>();
    assert!(id.is_err(), "{:?}", id);
}

#[test]
fn invariant_invalid_title() {
    let title = "aTitleThat_big".parse::<Title>();
    assert!(title.is_err(), "{:?}", title);
    let title = "a".parse::<Title>();
    assert!(title.is_err(), "{:?}", title);
    let title = "1aTitleThat_big".parse::<Title>();
    assert!(title.is_err(), "{:?}", title);
}

#[test]
fn entity_name_valid_identifier() {
    let list = ["test_aid15-8", "t"].map(|s| s.parse::<Identifier>());
    assert!(list.iter().all(|e| e.is_ok()));
    let names = list.map(|i| i.unwrap().to_string());
    assert_eq!(names, ["test_aid_15_8".to_string(), "t".to_string()]);
}

#[test]
fn entity_name_valid_title() {
    let list = ["ATitleThat_big", "Al"].map(|s| s.parse::<Title>());
    assert!(list.iter().all(|e| e.is_ok()));
    let names = list.map(|i| i.unwrap().to_string());
    assert_eq!(names, ["A Title That Big".to_string(), "Al".to_string()]);
}

#[test]
fn entity_name_invalid_identifier() {
    let list = ["test_aid15?", "Test_aid15", "T"].map(|s| s.parse::<Identifier>());
    assert!(list.iter().all(|e| e.is_err()));
}

#[test]
fn entity_name_invalid_title() {
    let list = ["aTitleThat_big", "a", "1aTitleThat_big"].map(|s| s.parse::<Title>());
    assert!(list.iter().all(|e| e.is_err()));
}

#[test]
fn valid_hex_color() {
    let c: ThemeColor = "#FFCC12".parse().unwrap();
    assert_eq!(c.r(), &255);
    assert_eq!(c.g(), &204);
    assert_eq!(c.b(), &18);
    assert_eq!(c.to_string(), "RGB(255, 204, 18)");
}

#[test]
fn valid_named_color() {
    let c: ThemeColor = "rebeccapurple".parse().unwrap();
    assert_eq!(c.r(), &102);
    assert_eq!(c.g(), &51);
    assert_eq!(c.b(), &153);
}

#[test]
fn valid_rgb_functional_color() {
    let c: ThemeColor = "rgb(10, 20, 30)".parse().unwrap();
    assert_eq!(c.r(), &10);
    assert_eq!(c.g(), &20);
    assert_eq!(c.b(), &30);
}

#[test]
fn invalid_color_format() {
    let c = "not-a-color".parse::<ThemeColor>();
    assert!(c.is_err());
}

#[test]
fn conversion_error_names_value_and_type() {
    let e = "Bad Name".parse::<Identifier>().unwrap_err();
    assert_eq!(e.value, "Bad Name");
    assert_eq!(e.dtype, "Identifier");
    assert_eq!(e.to_string(), "Cannot convert `Bad Name` to type Identifier");
    let e = "x".parse::<ThemeColor>().unwrap_err();
    assert_eq!(e.dtype, "ThemeColor");
}

#[test]
fn identifier_is_snake_case_of_its_text() {
    let id: Identifier = "gold-watch".parse().unwrap();
    assert_eq!(id.as_str(), "gold_watch");
    let other: Identifier = "gold_watch".parse().unwrap();
    assert!(id.eq_name(&other));
    assert!(id == other);
}

#[test]
fn color_text_lists_its_components() {
    let c = ThemeColor::new(1, 22, 133);
    assert_eq!(c.to_string(), "RGB(1, 22, 133)");
}
