use text_adventure_game::config::ini_doc::IniDoc;
use text_adventure_game::config::preprocessor::preprocess_to_ini;
use text_adventure_game::error::Application;
use text_adventure_game::ids::{ActionId, CharacterId, DialogueId, ResponseId};
use text_adventure_game::player::{
    chat_with, chat_with_screen, do_action_in_chat_response, doing_action, ends_with_credits, idle,
    idle_screen, leaving, leaving_screen, selecting_action, selecting_action_screen, starting_chat,
    starting_chat_screen, view_inventory, view_inventory_screen, Player,
};
use text_adventure_game::state::GameState;
use text_adventure_game::ui::{
    ChatChoice, InteractionChoice, LeaveChoice, MenuScreen, RoomChoice, StartChatChoice, UIChoice,
};

const FARM: &str = r#"
title = Farm
greeting = Hi
credits = Bye
start_room = Barn

[Room:Barn]
description = A barn.
exits = north:Field
characters = Farmer
actions = get_key,open_door,swap_key,do_all,warp

[Room:Barn|drained]
description = A drained barn.
exits = north:Field

[Room:Field]
description = """
A wide
open field.
"""

[Item:key]
description = A rusty key

[Item:coin]
description = A coin

[Action:get_key]
give_item = key
description = You find a key.

[Action:open_door]
change_room = Barn->drained
required = key
description = The door swings wide.

[Action:swap_key]
replace_item = key->coin
description = Swapped.

[Action:do_all]
sequence = get_key,swap_key
description = All at once.

[Action:warp]
teleport_to = Field
description = Whoosh.

[Character:Farmer]
start_dialogue = hello

[Dialogue:hello]
text = Howdy!
response = ask,leave

[Dialogue:hello|keyed]
text = Nice key!
requires = has_item:key

[Dialogue:bye]
text = See ya.

[Response:ask]
text = Got a key?
requires = does_not_have:key
triggers = get_key
leads_to = bye

[Response:leave]
text = Bye.
"#;

fn farm() -> GameState {
    let doc = preprocess_to_ini(FARM).unwrap();
    GameState::from_ini(&doc).unwrap()
}

fn menu_texts(s: &MenuScreen) -> Vec<String> {
    s.menu.iter().map(|m| m.0.clone()).collect()
}

#[test]
fn game_starts_in_the_start_room_with_nothing() {
    let state = farm();
    assert_eq!(state.current_room().name(), "Barn");
    assert!(!state.has_inventory());
    assert_eq!(state.title(), "Farm");
    assert_eq!(state.greeting(), "Hi");
    assert_eq!(state.credits(), "Bye");
    assert!(!ends_with_credits(&state));
}

#[test]
fn room_screen_lists_people_exits_and_choices() {
    let state = farm();
    let s = idle_screen(&state);
    assert_eq!(s.title, "Barn");
    assert_eq!(s.body, "A barn.\n\nThere are people here: Farmer\nYour exits are: North\n");
    assert_eq!(s.prompt, "What will you do?");
    assert_eq!(menu_texts(&s), vec!["Talk", "Interact", "Go somewhere else"]);
    assert_eq!(s.menu[0].1, UIChoice::InRoom(RoomChoice::Chat));
    assert_eq!(idle(RoomChoice::Chat), Player::StartingChat);
    assert_eq!(idle(RoomChoice::Interact), Player::SelectingAction);
    assert_eq!(idle(RoomChoice::Leave), Player::Leaving);
    assert_eq!(idle(RoomChoice::GameOver), Player::GameOver);
    assert_eq!(idle(RoomChoice::ViewInventory), Player::ViewInventory);
}

#[test]
fn giving_an_item_puts_it_in_the_inventory() {
    let mut state = farm();
    let (screen, next) = doing_action(&mut state, ActionId(0));
    assert_eq!(screen.title, "Get Key");
    assert_eq!(screen.body, "You find a key.");
    assert_eq!(next, Player::Idle);
    assert!(state.has_inventory());
    assert_eq!(state.inventory(), vec!["A rusty key".to_string()]);
    let s = idle_screen(&state);
    assert_eq!(menu_texts(&s), vec!["Talk", "Interact", "Go somewhere else", "View inventory"]);
    let inv = view_inventory_screen(&state);
    assert_eq!(inv.title, "Inventory");
    assert_eq!(inv.body, "- A rusty key");
    assert_eq!(view_inventory(), Player::Idle);
}

#[test]
fn failed_action_changes_nothing() {
    let mut state = farm();
    let (screen, _) = doing_action(&mut state, ActionId(1));
    assert_eq!(screen.body, "It didn't work.");
    assert_eq!(state.current_room().description(), "A barn.");
    assert!(!state.has_inventory());
}

#[test]
fn required_item_is_consumed_and_room_variant_changes() {
    let mut state = farm();
    doing_action(&mut state, ActionId(0));
    let (screen, _) = doing_action(&mut state, ActionId(1));
    assert_eq!(screen.body, "The door swings wide.");
    assert!(!state.has_inventory());
    assert_eq!(state.current_room().description(), "A drained barn.");
}

#[test]
fn replace_and_sequence() {
    let mut state = farm();
    let (_, _) = doing_action(&mut state, ActionId(2));
    assert!(!state.has_inventory());
    doing_action(&mut state, ActionId(3));
    assert_eq!(state.inventory(), vec!["A coin".to_string()]);
}

#[test]
fn teleport_moves_the_player_into_a_trap() {
    let mut state = farm();
    doing_action(&mut state, ActionId(4));
    assert_eq!(state.current_room().name(), "Field");
    assert_eq!(state.current_room().description(), "A wide\nopen field.");
    assert!(ends_with_credits(&state));
    let s = idle_screen(&state);
    assert_eq!(menu_texts(&s), vec!["End game"]);
    assert_eq!(s.menu.last().unwrap().1, UIChoice::InRoom(RoomChoice::GameOver));
}

#[test]
fn choosing_an_action() {
    let state = farm();
    let s = selecting_action_screen(&state);
    assert_eq!(menu_texts(&s), vec!["Get Key", "Open Door", "Swap Key", "Do All", "Warp", "Nothing"]);
    assert_eq!(selecting_action(&state, InteractionChoice::Do(4)), Player::DoingAction(ActionId(4)));
    assert_eq!(selecting_action(&state, InteractionChoice::Nothing), Player::Idle);
}

#[test]
fn talking_follows_responses() {
    let mut state = farm();
    let s = starting_chat_screen(&state);
    assert_eq!(menu_texts(&s), vec!["Farmer", "No one"]);
    let p = starting_chat(&state, StartChatChoice::TalkTo(0));
    assert_eq!(p, Player::ChatWith(CharacterId(0), None));
    assert_eq!(starting_chat(&state, StartChatChoice::NoOne), Player::Idle);
    let s = chat_with_screen(&state, CharacterId(0), None);
    assert_eq!(s.title, "Farmer");
    assert_eq!(s.body, "Howdy!");
    assert_eq!(menu_texts(&s), vec!["Got a key?", "Bye."]);
    let p = chat_with(&state, CharacterId(0), None, ChatChoice::RespondWith(0));
    assert_eq!(p, Player::DoActionInChatResponse(ActionId(0), CharacterId(0), ResponseId(0)));
    let p2 = chat_with(&state, CharacterId(0), None, ChatChoice::RespondWith(1));
    assert_eq!(p2, Player::Idle);
    let (screen, next) = do_action_in_chat_response(&mut state, ActionId(0), CharacterId(0), ResponseId(0));
    assert_eq!(screen.body, "You find a key.");
    assert_eq!(next, Player::ChatWith(CharacterId(0), Some(DialogueId(1))));
    let s = chat_with_screen(&state, CharacterId(0), Some(DialogueId(1)));
    assert_eq!(s.body, "See ya.");
    assert_eq!(menu_texts(&s), vec!["Nothing"]);
    assert_eq!(s.menu[0].1, UIChoice::InChat(ChatChoice::Leave));
    let s = chat_with_screen(&state, CharacterId(0), None);
    assert_eq!(s.body, "Nice key!");
}

#[test]
fn leaving_through_an_exit() {
    let mut state = farm();
    let s = leaving_screen(&state);
    assert_eq!(menu_texts(&s), vec!["North", "Stay"]);
    assert_eq!(leaving(&mut state, LeaveChoice::Stay), Player::Idle);
    assert_eq!(state.current_room().name(), "Barn");
    assert_eq!(leaving(&mut state, LeaveChoice::GoTo(0)), Player::Idle);
    assert_eq!(state.current_room().name(), "Field");
}

#[test]
fn a_variant_belongs_to_its_room_wherever_its_section_stands() {
    let doc = IniDoc::load_from_str(
        "title=T\ngreeting=G\ncredits=C\nstart_room=Attic\n\
         [Room:Attic|dark]\ndescription=d\n[Room:Attic]\ndescription=a\n[Room:Hall]\ndescription=h\n\
         [Room:Attic|cold]\ndescription=c\n\
         [Action:dim]\nchange_room=Attic->dark\ndescription=x\n\
         [Action:chill]\nchange_room=Attic->cold\ndescription=y\n",
    )
    .unwrap();
    let mut state = GameState::from_ini(&doc).unwrap();
    assert_eq!(state.current_room().description(), "a");
    doing_action(&mut state, ActionId(0));
    assert_eq!(state.current_room().description(), "d");
    doing_action(&mut state, ActionId(1));
    assert_eq!(state.current_room().description(), "c");
}

#[test]
fn worlds_with_each_rooms_sections_together_are_played() {
    let doc = IniDoc::load_from_str(
        "title=T\ngreeting=G\ncredits=C\nstart_room=Attic\n\
         [Room:Attic]\ndescription=a\n[Room:Attic|dark]\ndescription=d\n[Room:Hall]\ndescription=h\n\
         [Action:dim]\nchange_room=Attic->dark\ndescription=x\n",
    )
    .unwrap();
    let state = GameState::from_ini(&doc).unwrap();
    assert_eq!(state.current_room().name(), "Attic");
    assert_eq!(state.current_room().description(), "a");
}

#[test]
fn a_sequence_uses_up_its_required_item() {
    let doc = IniDoc::load_from_str(
        "title=T\ngreeting=G\ncredits=C\nstart_room=Shop\n\
         [Room:Shop]\ndescription=s\nactions=get_coin,get_key,buy\n\
         [Item:coin]\ndescription=A coin\n[Item:key]\ndescription=A key\n\
         [Action:get_coin]\ngive_item=coin\ndescription=c\n\
         [Action:get_key]\ngive_item=key\ndescription=k\n\
         [Action:buy]\nsequence=get_key\nrequired=coin\ndescription=b\n",
    )
    .unwrap();
    let mut state = GameState::from_ini(&doc).unwrap();
    let (_, next) = doing_action(&mut state, ActionId(2));
    assert_eq!(next, Player::Idle);
    assert!(state.inventory().is_empty());
    doing_action(&mut state, ActionId(0));
    assert_eq!(state.inventory(), vec!["A coin".to_string()]);
    doing_action(&mut state, ActionId(2));
    assert_eq!(state.inventory(), vec!["A key".to_string()]);
}

#[test]
fn names_are_prettified_for_players() {
    let doc = IniDoc::load_from_str(
        "title=T\ngreeting=G\ncredits=C\nstart_room=StartingRoom\n\
         [Room:StartingRoom]\ndescription=s\nactions=the_ring\n\
         [Action:the_ring]\ntake_item=\ndescription=r\n",
    )
    .unwrap();
    let mut state = GameState::from_ini(&doc).unwrap();
    assert_eq!(state.current_room().name(), "Starting Room");
    let (screen, _) = doing_action(&mut state, ActionId(0));
    assert_eq!(screen.title, "The Ring");
}

#[test]
fn taking_an_item_removes_it() {
    let doc = IniDoc::load_from_str(
        "title=T\ngreeting=G\ncredits=C\nstart_room=Shop\n\
         [Room:Shop]\ndescription=s\nactions=get_key,drop_key\n\
         [Item:key]\ndescription=A key\n\
         [Action:get_key]\ngive_item=key\ndescription=k\n\
         [Action:drop_key]\ntake_item=key\ndescription=d\n",
    )
    .unwrap();
    let mut state = GameState::from_ini(&doc).unwrap();
    doing_action(&mut state, ActionId(0));
    assert_eq!(state.inventory(), vec!["A key".to_string()]);
    doing_action(&mut state, ActionId(1));
    assert!(state.inventory().is_empty());
}
