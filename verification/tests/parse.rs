use indexmap::IndexMap;
use text_adventure_game::config::ids::map_ids;
use text_adventure_game::config::ini_doc::IniDoc;
use text_adventure_game::config::{parse, validate_section_types};
use text_adventure_game::entity::{ActionEntity, RoomRaw};
use text_adventure_game::error::Application;
use text_adventure_game::names::{Identifier, Title};

#[test]
fn validate_section_types_accepts_known_section_type() {
    let mut ini = IniDoc::new();
    ini.set_to(Some("Action:name"), "test".into(), "value".into());
    let r = validate_section_types(&ini);
    assert!(r.is_ok());
}

#[test]
fn validate_section_types_rejects_unknown_section_type() {
    let mut ini = IniDoc::new();
    ini.set_to(Some("BadSection:name"), "test".into(), "value".into());
    let r = validate_section_types(&ini);
    assert!(r.is_err());
    assert!(r.unwrap_err().to_string().contains("BadSection"));
}

#[test]
fn validate_section_types_behavior() {
    for (sections, expected_ok) in [
        (vec!["Action:name"], true),
        (vec!["BadSection:name"], false),
        (vec!["Action:test", "Item:test", "BadSection:test"], false),
    ] {
        let mut ini = IniDoc::new();
        for s in sections {
            ini.set_to(Some(s), "k".into(), "v".into());
        }
        assert_eq!(validate_section_types(&ini).is_ok(), expected_ok);
    }
}

fn raw(name: &str, variant: Option<&str>) -> RoomRaw {
    RoomRaw {
        name: name.parse().unwrap(),
        variant: variant.map(|v| v.parse().unwrap()),
        description: String::new(),
        characters: Vec::new(),
        exits: IndexMap::new(),
        actions: Vec::new(),
    }
}

#[test]
fn map_ids_assigns_ids_and_variants() {
    let raw_data = vec![
        raw("Room", None),
        raw("OtherRoom", Some("v1")),
        raw("Room", Some("v1")),
        raw("OtherRoom", None),
        raw("Room", Some("v2")),
    ];
    let map = map_ids(&raw_data);
    let expectations = vec![
        ("Room", 0usize, vec![0usize, 1, 2], vec![None, Some("v1"), Some("v2")]),
        ("OtherRoom", 1usize, vec![0usize, 1], vec![None, Some("v1")]),
    ];
    for (name, expected_id, expected_variant_ids, expected_variant_names) in expectations {
        let key: Title = name.parse().unwrap();
        assert_eq!(map.get_id("Room", "Room default", key.as_str()).unwrap(), expected_id);
        let entries = map.entries.iter().filter(|e| e.name == key.as_str()).collect::<Vec<_>>();
        assert!(
            entries.iter().any(|e| e.variant.is_none() && e.id == expected_id && e.variant_id == 0),
            "Default variant id should be zero"
        );
        assert_eq!(entries.len(), expected_variant_names.len(), "Number of variants");
        for k in expected_variant_names {
            let variant = k.map(|v| v.parse::<Identifier>().unwrap().to_string());
            assert!(entries.iter().any(|e| e.variant == variant), "variant names match");
        }
        let mut variant_ids = entries.iter().map(|e| e.variant_id).collect::<Vec<_>>();
        variant_ids.sort();
        assert_eq!(variant_ids, expected_variant_ids, "{name} variant ids");
    }
}

fn room_id_map() -> text_adventure_game::config::ids::IdMap {
    map_ids(&vec![raw("LivingRoom", None), raw("LivingRoom", Some("alt"))])
}

#[test]
fn get_variant_id_behavior() {
    let map = room_id_map();
    for (name, variant, is_ok) in [
        ("LivingRoom", Some("alt"), true),
        ("LivingRoom", Some("missing"), false),
        ("Kitchen", Some("alt"), false),
    ] {
        let title: Title = name.parse().unwrap();
        let result = map.get_variant_id("Room", title.as_str(), variant);
        assert_eq!(result.is_ok(), is_ok);
    }
    assert_eq!(map.get_variant_id("Room", "Living Room", Some("alt")).unwrap(), Some(1));
    assert_eq!(map.get_variant_id("Room", "Living Room", None).unwrap(), None);
}

#[test]
fn get_id_behavior() {
    let map = room_id_map();
    assert!(map.get_id("Room", "Room default", "Living Room").is_ok());
    assert!(map.get_id("Room", "Room default", "Kitchen").is_err());
    let only_variant = map_ids(&vec![raw("Attic", Some("dark"))]);
    match only_variant.get_id("Room", "Room default", "Attic") {
        Err(Application::DefaultEntityNotFound { etype, id }) => {
            assert_eq!(etype, "Room default");
            assert_eq!(id, "Attic");
        }
        _ => panic!("expected a missing default"),
    }
}

fn title_section() -> &'static str {
    r#"
title = Some Title
greeting = Some greeting
credits = Some credits
start_room = RoomA
"#
}

fn room_a() -> &'static str {
    r#"
[Room:RoomA]
description=Room A description
exits=east:RoomB
characters=CharacterA
"#
}

fn room_a_alt() -> &'static str {
    r#"
[Room:RoomA|alt]
description=Room A alt description
"#
}

fn room_b() -> &'static str {
    r#"
[Room:RoomB]
description=Room B description
exits=east:RoomA
"#
}

fn item_a() -> &'static str {
    r#"
[Item:item_a]
description=Item a
"#
}

fn item_b() -> &'static str {
    r#"
[Item:item_b]
description=Item b
"#
}

fn action_change_room() -> &'static str {
    r#"
[Action:change_room_action]
change_room=RoomA->alt
description=Change room a to alt.
"#
}

fn action_give_item() -> &'static str {
    r#"
[Action:give_item_action]
give_item=item_a
description=Give item a
"#
}

fn action_take_item() -> &'static str {
    r#"
[Action:take_item_action]
take_item=item_b
description=Take item b
"#
}

fn action_sequence() -> &'static str {
    r#"
[Action:action_seq]
sequence=change_room_action,give_item_action,take_item_action
description=Sequence action
"#
}

fn character_a() -> &'static str {
    r#"
[Character:CharacterA]
start_dialogue=dialogue_a
"#
}

fn dialogue_a() -> &'static str {
    r#"
[Dialogue:dialogue_a]
text=Dialogue a
response=response_a,response_b
"#
}

fn dialogue_a_alt() -> &'static str {
    r#"
[Dialogue:dialogue_a|alt]
text=Dialogue a alt
requires=has_item:item_a,room_variant:RoomA
"#
}

fn dialogue_b() -> &'static str {
    r#"
[Dialogue:dialogue_b]
text=Dialogue b
"#
}

fn response_a() -> &'static str {
    r#"
[Response:response_a]
text=Response A
requires=has_item:item_b,does_not_have:item_a,room_variant:RoomA|alt
triggers=give_item_action
leads_to=dialogue_b
"#
}

fn response_b() -> &'static str {
    r#"
[Response:response_b]
text=Response B
"#
}

fn make_ini(sections: &[&str]) -> IniDoc {
    IniDoc::load_from_str(&sections.join("\n")).unwrap()
}

#[test]
fn parse_minimal_valid_world() {
    let ini = make_ini(&[
        title_section(),
        room_a(),
        room_a_alt(),
        room_b(),
        item_a(),
        item_b(),
        action_give_item(),
        character_a(),
        dialogue_a(),
        dialogue_b(),
        response_a(),
        response_b(),
    ]);
    let world = parse(&ini);
    assert!(world.is_ok());
}

#[test]
fn parse_fails_with_missing_start_room() {
    let ini = make_ini(&[
        r#"
            title = Some Title
            greeting = Hello
            credits = Credits
            start_room = MissingRoom
            "#,
        room_a(),
    ]);
    match parse(&ini) {
        Err(Application::EntityNotFound { etype, id }) => {
            assert_eq!(etype, "Room");
            assert_eq!(id, "Missing Room");
        }
        _ => panic!("expected a missing room"),
    }
}

#[test]
fn parse_fails_with_unknown_section() {
    let ini = make_ini(&[title_section(), "[BadSection:foo]\nkey=value"]);
    match parse(&ini) {
        Err(Application::UnknownSectionFound(s)) => assert_eq!(s, "BadSection"),
        _ => panic!("expected an unknown section"),
    }
}

#[test]
fn parse_detects_circular_sequences() {
    let ini = make_ini(&[
        title_section(),
        character_a(),
        room_a(),
        room_a_alt(),
        room_b(),
        item_a(),
        item_b(),
        action_change_room(),
        action_give_item(),
        action_take_item(),
        action_sequence(),
        dialogue_a(),
        dialogue_b(),
        response_a(),
        response_b(),
        r#"
            [Action:loop_action]
            sequence=action_seq
            description=Loop action
            "#,
    ]);
    let result = parse(&ini);
    assert!(result.is_err());
    match result.err().unwrap() {
        Application::CircularReferenceFound { etype, parent_id, child_id } => {
            assert_eq!(etype, "ActionSequence");
            assert_eq!(parent_id, "loop_action");
            assert_eq!(child_id, "action_seq");
        }
        _ => panic!("expected a circular reference"),
    }
}

#[test]
fn parse_fails_on_invalid_requirement_item() {
    let ini = make_ini(&[
        title_section(),
        room_a(),
        room_a_alt(),
        room_b(),
        item_a(),
        item_b(),
        character_a(),
        action_give_item(),
        dialogue_a(),
        r#"
            [Dialogue:dialogue_a|alt]
            text=Dialogue a alt
            requires=has_item:missing_item
            "#,
        dialogue_b(),
        response_a(),
        response_b(),
    ]);
    let result = parse(&ini);
    assert!(result.is_err());
    match result.err().unwrap() {
        Application::EntityNotFound { etype, id } => {
            assert_eq!(etype, "Item");
            assert_eq!(id, "missing_item");
        }
        _ => panic!("expected a missing item"),
    }
}

#[test]
fn parse_fails_on_invalid_requirement_type() {
    let ini = make_ini(&[
        title_section(),
        room_a(),
        room_a_alt(),
        room_b(),
        item_a(),
        item_b(),
        character_a(),
        action_give_item(),
        dialogue_a(),
        r#"
            [Dialogue:dialogue_a|alt]
            text=Dialogue a alt
            requires=fake:item_a
            "#,
        dialogue_b(),
        response_a(),
        response_b(),
    ]);
    let result = parse(&ini);
    assert!(result.is_err());
    match result.err().unwrap() {
        Application::InvalidPropertyValue { etype, value, field } => {
            assert_eq!(etype, "Dialogue");
            assert_eq!(value, "fake:item_a");
            assert_eq!(field, "requirement");
        }
        _ => panic!("expected an invalid requirement"),
    }
}

#[test]
fn parse_valid_with_variants_and_sequence() {
    let ini = make_ini(&[
        title_section(),
        room_a(),
        room_a_alt(),
        room_b(),
        item_a(),
        item_b(),
        action_change_room(),
        action_give_item(),
        action_take_item(),
        action_sequence(),
        character_a(),
        dialogue_a(),
        dialogue_a_alt(),
        dialogue_b(),
        response_a(),
        response_b(),
    ]);
    let world = parse(&ini).unwrap();
    assert_eq!(world.rooms.len(), 2);
    assert_eq!(world.rooms[0].len(), 2);
    assert_eq!(world.dialogues[0].len(), 2);
    assert_eq!(world.title.start_room.0, 0);
    match &world.actions[0] {
        ActionEntity::ChangeRoom(c) => {
            assert_eq!(c.room.0, 0);
            assert_eq!(c.variant.unwrap().0, 1);
        }
        _ => panic!("expected change_room"),
    }
    match &world.actions[3] {
        ActionEntity::Sequence(s) => {
            assert_eq!(s.actions.iter().map(|a| a.0).collect::<Vec<_>>(), vec![0, 1, 2]);
        }
        _ => panic!("expected a sequence"),
    }
    assert!(world.is_well_formed());
}

#[test]
fn parse_fails_on_missing_default_dialogue() {
    let ini = make_ini(&[
        title_section(),
        room_a(),
        room_b(),
        item_a(),
        item_b(),
        action_give_item(),
        character_a(),
        r#"
        [Dialogue:dialogue_a|alt]
        text=Dialogue a alt
        "#,
        response_a(),
        response_b(),
    ]);
    match parse(&ini) {
        Err(Application::DefaultEntityNotFound { etype, id }) => {
            assert_eq!(etype, "Dialogue default");
            assert_eq!(id, "dialogue_a");
        }
        _ => panic!("expected a missing default dialogue"),
    }
}

#[test]
fn parse_fails_on_invalid_room_variant() {
    let ini = make_ini(&[
        title_section(),
        room_a(),
        room_b(),
        item_a(),
        item_b(),
        r#"
        [Action:invalid_variant_action]
        change_room=RoomA->nonexistent_variant
        description=Invalid variant change
        "#,
        character_a(),
        dialogue_a(),
        dialogue_b(),
        response_a(),
        response_b(),
    ]);
    match parse(&ini) {
        Err(Application::EntityVariantNotFound { etype, id, variant }) => {
            assert_eq!(etype, "Room");
            assert_eq!(id, "Room A");
            assert_eq!(variant, "nonexistent_variant");
        }
        _ => panic!("expected a missing room variant"),
    }
}

#[test]
fn parse_fails_on_missing_dialogue_referenced_by_response() {
    let ini = make_ini(&[
        title_section(),
        room_a(),
        room_b(),
        item_a(),
        item_b(),
        action_give_item(),
        character_a(),
        dialogue_a(),
        response_a(),
        response_b(),
    ]);
    match parse(&ini) {
        Err(Application::EntityNotFound { etype, id }) => {
            assert_eq!(etype, "Dialogue");
            assert_eq!(id, "dialogue_b");
        }
        _ => panic!("expected a missing dialogue"),
    }
}

#[test]
fn later_item_with_the_same_name_wins() {
    let ini = make_ini(&[
        title_section(),
        room_a(),
        room_a_alt(),
        room_b(),
        "[Item:coin]\ndescription=first",
        "[Item:coin]\ndescription=second",
        "[Action:get]\ngive_item=coin\ndescription=d",
        action_give_item(),
        character_a(),
        dialogue_a(),
        dialogue_b(),
        response_a(),
        response_b(),
        item_a(),
        item_b(),
    ]);
    let world = parse(&ini).unwrap();
    match &world.actions[0] {
        ActionEntity::GiveItem(g) => assert_eq!(g.items[0].0, 1),
        _ => panic!("expected give_item"),
    }
}
