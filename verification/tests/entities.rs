use text_adventure_game::config::action::parse_actions;
use text_adventure_game::config::character::parse_characters;
use text_adventure_game::config::dialogue::parse_dialogues;
use text_adventure_game::config::ini_doc::IniDoc;
use text_adventure_game::config::item::parse_items;
use text_adventure_game::config::response::parse_responses;
use text_adventure_game::config::room::parse_rooms;
use text_adventure_game::entity::{ActionRaw, Item, RequirementRaw};
use text_adventure_game::error::Application;
use text_adventure_game::names::Identifier;

fn i(s: &str) -> Identifier {
    s.parse().unwrap()
}

const GOOD_ITEMS: &str = r"
            [Item:gold_watch]
            description=Look how it dazzles in the light!

            [Item:royal_robe]
            description=Such vibrant hues of purple, red, and gold!

            [Item:rusty_knife]
            description=Dull and twisty, but quite useful.

            [Item:potato_sack]
            description=This will do...
        ";
const BAD_ITEMS: &str = r"
            [Item:gold_watch]

            [Item:royal_robe]
            description=Such vibrant hues of purple, red, and gold!

            [Item:rusty_knife]
            description=Dull and twisty, but quite useful.

            [Item:potato_sack]
            description=This will do...
        ";

fn same_item(a: &Item, b: &Item) -> bool {
    a.name == b.name && a.description == b.description
}

#[test]
fn parse_items_good_data() {
    let ini = IniDoc::load_from_str(GOOD_ITEMS).unwrap();
    let items = parse_items(&ini).unwrap();
    assert_eq!(items.len(), 4);
    let expected = [
        Item::new(i("gold_watch"), "Look how it dazzles in the light!".into()),
        Item::new(i("royal_robe"), "Such vibrant hues of purple, red, and gold!".into()),
        Item::new(i("rusty_knife"), "Dull and twisty, but quite useful.".into()),
        Item::new(i("potato_sack"), "This will do...".into()),
    ];
    for e in expected.iter() {
        assert!(items.iter().any(|x| same_item(x, e)));
    }
}

#[test]
fn parse_item_bad_data() {
    let ini = IniDoc::load_from_str(BAD_ITEMS).unwrap();
    let items = parse_items(&ini);
    assert!(items.is_err());
    let message = items.err().unwrap().to_string();
    assert!(message.contains("gold_watch"));
    assert!(message.contains("description"));
    assert!(message.contains("Item"));
}

const GOOD_DIALOGUES: &str = r"
    [Dialogue:farmer_greeting]
    text=Howdy there stranger!
    response=hello,goodbye
    requires=room_variant:WoodShed

    [Dialogue:farmer_greeting|scared]
    text=Hey, is somebody there?
    requires=room_variant:WoodShed|closed

    [Dialogue:cow_emote]
    text=Moo!

    [Dialogue:robery]
    text=Empty your pockets kid!
    requires=has_item:ring,has_item:key,room_variant:WoodShed|closed
";

const BAD_DATA_MISSING_TEXT: &str = r"
    [Dialogue:farmer_greeting]
    response=hello,goodbye
    requires=room_variant:WoodShed
";

const BAD_DATA_BAD_REQUIREMENT: &str = r"
    [Dialogue:farmer_greeting]
    text=Howdy there stranger!
    response=hello,goodbye
    requires=has_itemunobtainium_ore
";

#[test]
fn parse_dialogue_sucessfully() {
    let ini = IniDoc::load_from_str(GOOD_DIALOGUES).unwrap();
    let d = parse_dialogues(&ini).unwrap();
    assert_eq!(d.len(), 4);
    assert!(
        d.iter().any(|d| d.name == i("farmer_greeting"))
            && d.iter().any(|d| d.name == i("cow_emote"))
            && d.iter().any(|d| d.name == i("robery")),
        "has expected ids"
    );
    assert!(
        d.iter().any(|d| d.name == i("farmer_greeting") && d.variant.is_none())
            && d.iter().any(|d| d.name == i("farmer_greeting") && d.variant == Some(i("scared"))),
        "has expected variants"
    );
    assert!(d.iter().any(|d| d.text == "Howdy there stranger!"), "contains expected text");
    assert!(d.iter().any(|d| !d.requires.is_empty()), "has requirements");
}

#[test]
fn parse_dialogue_missing_text() {
    let ini = IniDoc::load_from_str(BAD_DATA_MISSING_TEXT).unwrap();
    let dialogues = parse_dialogues(&ini);
    assert!(dialogues.is_err());
    let message = dialogues.err().unwrap().to_string();
    assert!(message.contains("Missing"));
    assert!(message.contains("farmer_greeting"));
    assert!(message.contains("text"));
    assert!(message.contains("Dialogue"));
}

#[test]
fn parse_dialogue_bad_requirement() {
    let ini = IniDoc::load_from_str(BAD_DATA_BAD_REQUIREMENT).unwrap();
    let dialogues = parse_dialogues(&ini);
    assert!(dialogues.is_err());
    let message = dialogues.err().unwrap().to_string();
    assert!(message.contains("unobtainium_ore"));
    assert!(message.contains("requirement"));
}

#[test]
fn requirements_read_each_kind() {
    let ini = IniDoc::load_from_str(
        "[Dialogue:d]\ntext=t\nrequires=HAS_ITEM:ring, does_not_have : key ,Room_Variant:WoodShed|closed",
    )
    .unwrap();
    let d = parse_dialogues(&ini).unwrap();
    assert_eq!(d[0].requires.len(), 3);
    assert!(matches!(&d[0].requires[0], RequirementRaw::HasItem(x) if x.as_str() == "ring"));
    assert!(matches!(&d[0].requires[1], RequirementRaw::DoesNotHave(x) if x.as_str() == "key"));
    match &d[0].requires[2] {
        RequirementRaw::RoomVariant(room, Some(v)) => {
            assert_eq!(room.as_str(), "Wood Shed");
            assert_eq!(v.as_str(), "closed");
        }
        _ => panic!("expected a room variant requirement"),
    }
    let ini = IniDoc::load_from_str("[Dialogue:d]\ntext=t\nrequires=has_item").unwrap();
    match parse_dialogues(&ini) {
        Err(Application::PropertyNotFound { property, etype, id }) => {
            assert_eq!(property, "requires:has_item:<item_id>");
            assert_eq!(etype, "Dialogue");
            assert_eq!(id, "d");
        }
        _ => panic!("expected a missing item"),
    }
}

#[test]
fn actions_of_every_kind() {
    let ini = IniDoc::load_from_str(
        "[Action:go]\nchange_room=Barn -> drained\ndescription=d\n\
         [Action:zap]\nteleport_to=Barn\ndescription=d\nrequired=key\n\
         [Action:swap]\nreplace_item=key->gold\ndescription=d\n\
         [Action:gift]\ngive_item=key, gold\ndescription=d\n\
         [Action:steal]\ntake_item=key\ndescription=d\n\
         [Action:all]\nsequence=gift, steal\ndescription=d\n",
    )
    .unwrap();
    let a = parse_actions(&ini).unwrap();
    assert_eq!(a.len(), 6);
    match &a[0] {
        ActionRaw::ChangeRoom(c) => {
            assert_eq!(c.room.as_str(), "Barn");
            assert_eq!(c.variant.as_ref().unwrap().as_str(), "drained");
        }
        _ => panic!("expected change_room"),
    }
    match &a[1] {
        ActionRaw::Teleport(t) => assert_eq!(t.required.as_ref().unwrap().as_str(), "key"),
        _ => panic!("expected teleport"),
    }
    match &a[2] {
        ActionRaw::ReplaceItem(r) => {
            assert_eq!(r.original.as_str(), "key");
            assert_eq!(r.replacement.as_str(), "gold");
        }
        _ => panic!("expected replace_item"),
    }
    match &a[3] {
        ActionRaw::GiveItem(g) => assert_eq!(g.items.len(), 2),
        _ => panic!("expected give_item"),
    }
    match &a[4] {
        ActionRaw::TakeItem(t) => {
            assert_eq!(t.items.len(), 1);
            assert_eq!(t.items[0].as_str(), "key");
        }
        _ => panic!("expected take_item"),
    }
    match &a[5] {
        ActionRaw::Sequence(s) => assert_eq!(s.actions.len(), 2),
        _ => panic!("expected sequence"),
    }
}

#[test]
fn action_without_a_kind_is_incomplete() {
    let ini = IniDoc::load_from_str("[Action:nothing]\ndescription=d\n").unwrap();
    assert!(matches!(parse_actions(&ini), Err(Application::EntityDataIncomplete(s)) if s == "Action"));
    let ini = IniDoc::load_from_str("[Action:swap]\nreplace_item=key\ndescription=d\n").unwrap();
    match parse_actions(&ini) {
        Err(Application::PropertyNotFound { property, .. }) => {
            assert_eq!(property, "replace_item:original-><replacement>")
        }
        _ => panic!("expected a missing replacement"),
    }
}

#[test]
fn rooms_keep_exits_in_order() {
    let ini = IniDoc::load_from_str(
        "[Room:Hall]\ndescription=d\nexits=north:Kitchen, south : Garden:ignored\ncharacters=Bob\nactions=open\n",
    )
    .unwrap();
    let r = parse_rooms(&ini).unwrap();
    assert_eq!(r.len(), 1);
    let exits: Vec<(String, String)> =
        r[0].exits.iter().map(|(k, v)| (k.to_string(), v.to_string())).collect();
    assert_eq!(
        exits,
        vec![("north".to_string(), "Kitchen".to_string()), ("south".to_string(), "Garden".to_string())]
    );
    assert_eq!(r[0].characters[0].as_str(), "Bob");
    let ini = IniDoc::load_from_str("[Room:Hall]\ndescription=d\nexits=north\n").unwrap();
    match parse_rooms(&ini) {
        Err(Application::PropertyNotFound { property, .. }) => assert_eq!(property, "exit=direction:<room>"),
        _ => panic!("expected a missing room"),
    }
}

#[test]
fn characters_and_responses() {
    let ini = IniDoc::load_from_str(
        "[Character:OldMan]\nstart_dialogue=hello\n[Response:bye]\ntext=Bye!\nleads_to=hello\ntriggers=wave\n",
    )
    .unwrap();
    let c = parse_characters(&ini).unwrap();
    assert_eq!(c[0].name.as_str(), "Old Man");
    assert_eq!(c[0].start_dialogue.as_str(), "hello");
    let r = parse_responses(&ini).unwrap();
    assert_eq!(r[0].text, "Bye!");
    assert_eq!(r[0].leads_to.as_ref().unwrap().as_str(), "hello");
    assert_eq!(r[0].triggers.as_ref().unwrap().as_str(), "wave");
}

#[test]
fn dialogue_responses_may_be_listed_under_responses() {
    let ini = IniDoc::load_from_str("[Dialogue:hello]\ntext=Hi there!\nresponses=wave,goodbye").unwrap();
    let d = parse_dialogues(&ini).unwrap();
    assert_eq!(d.len(), 1);
    assert_eq!(d[0].name, i("hello"));
    assert_eq!(d[0].variant, None);
    assert_eq!(d[0].text, "Hi there!");
    assert_eq!(d[0].responses, vec![i("wave"), i("goodbye")]);
    assert!(d[0].requires.is_empty());
    let ini = IniDoc::load_from_str("[Dialogue:hello]\ntext=Hi!\nresponses=wave\nresponse=nod").unwrap();
    match parse_dialogues(&ini) {
        Err(Application::UnexpectedProperties { unexpected, .. }) => {
            assert_eq!(unexpected, vec!["responses".to_string()])
        }
        _ => panic!("expected unexpected properties"),
    }
}

#[test]
fn take_item_lists_the_items_taken() {
    let ini = IniDoc::load_from_str(
        "[Action:pickup_key]\ntake_item=key\ndescription=You pick up the dingy key on the floor.\n",
    )
    .unwrap();
    let a = parse_actions(&ini).unwrap();
    match &a[0] {
        ActionRaw::TakeItem(t) => {
            assert_eq!(t.name, i("pickup_key"));
            assert_eq!(t.description, "You pick up the dingy key on the floor.");
            assert_eq!(t.items, vec![i("key")]);
        }
        _ => panic!("expected take_item"),
    }
}
