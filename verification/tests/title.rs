use text_adventure_game::config::ini_doc::IniDoc;
use text_adventure_game::config::title::{parse_language, parse_theme, parse_title};
use text_adventure_game::entity::{Language, Theme};
use text_adventure_game::error::Application;
use text_adventure_game::names::Title;

const GOOD_THEME_DATA: &str = r"
    [Theme]
    title = Red
    heading = Green
    background = #FF3344
    text = #FFFFFF
    highlight = RGB(10, 50, 10)
    highlight_text = Blue
    subdued = Gray
";
const GOOD_LANGUAGE_DATA: &str = r"
    [Language]
    characters_found = You look around and see:
    exits_found = You can exit in these directions:
    talk = Talk
    interact = Interact
    go_somewhere = Go someplace?
    view_inventory = Look through your stuff?
    inventory = Your Bag Of Stuff
    end_game = End the game?
    choose_exit = Get out of here?
    cancel_exit = Don't leave
    choose_chat = Talk to:
    cancel_chat = Nevermind
    choose_response = You say:
    cancel_response = ...
    choose_action = You decide to:
    cancel_action = Nevermind
    action_failed = That didn't work
    continue_game = Keep Going?
    press_q_to_quit = The letter q is for quit!
";
const GOOD_DATA: &str = r"
    title = The Beach Trip
    greeting = Welcome to the beach bro!
    credits = Special thanks to my mom!
    start_room = TheCar
";
const BAD_DATA_NO_START: &str = r"
    title = The Beach Trip
    greeting = Welcome to the beach bro!
    credits = Special thanks to my mom!
";
const BAD_DATA_EMPTY: &str = r"
";
const BAD_DATA_BAD_START: &str = r"
    title = The Beach Trip
    greeting = Welcome to the beach bro!
    credits = Special thanks to my mom!
    start_room = theCar
";

fn t(s: &str) -> Title {
    s.parse().unwrap()
}

#[test]
fn good_data() {
    let ini = IniDoc::load_from_str(GOOD_DATA).unwrap();
    let title = parse_title(&ini).unwrap();
    assert_eq!(title.title, "The Beach Trip".to_string());
    assert_eq!(title.greeting, "Welcome to the beach bro!".to_string());
    assert_eq!(title.credits, "Special thanks to my mom!".to_string());
    assert!(title.start_room == t("TheCar"));
}

#[test]
fn missing_start_room() {
    let ini = IniDoc::load_from_str(BAD_DATA_NO_START).unwrap();
    let result = parse_title(&ini);
    assert!(result.is_err());
    assert!(matches!(result, Err(Application::MissingProperties { .. })));
}

#[test]
fn empty_data() {
    let ini = IniDoc::load_from_str(BAD_DATA_EMPTY).unwrap();
    let result = parse_title(&ini);
    assert!(result.is_err());
    assert!(matches!(result, Err(Application::MissingProperties { .. })));
}

#[test]
fn bad_start_room_name() {
    let ini = IniDoc::load_from_str(BAD_DATA_BAD_START).unwrap();
    let result = parse_title(&ini);
    assert!(result.is_err());
    assert!(matches!(result, Err(Application::ConversionFailed { .. })));
}

#[test]
fn theme_good_data() {
    let ini = IniDoc::load_from_str(GOOD_THEME_DATA).unwrap();
    let theme = parse_theme(&ini).unwrap();
    assert_eq!(theme.title.r(), &255u8);
    assert_eq!(theme.title.g(), &0u8);
    assert_eq!(theme.title.b(), &0u8);
}

#[test]
fn language_good_data() {
    let ini = IniDoc::load_from_str(GOOD_LANGUAGE_DATA).unwrap();
    let language = parse_language(&ini).unwrap();
    assert_eq!(language.characters_found, "You look around and see:");
    assert_eq!(language.exits_found, "You can exit in these directions:");
    assert_eq!(language.talk, "Talk");
    assert_eq!(language.interact, "Interact");
    assert_eq!(language.go_somewhere, "Go someplace?");
    assert_eq!(language.end_game, "End the game?");
    assert_eq!(language.choose_exit, "Get out of here?");
    assert_eq!(language.cancel_exit, "Don't leave");
    assert_eq!(language.choose_chat, "Talk to:");
    assert_eq!(language.cancel_chat, "Nevermind");
    assert_eq!(language.choose_response, "You say:");
    assert_eq!(language.cancel_response, "...");
    assert_eq!(language.choose_action, "You decide to:");
    assert_eq!(language.cancel_action, "Nevermind");
    assert_eq!(language.action_failed, "That didn't work");
    assert_eq!(language.continue_game, "Keep Going?");
    assert_eq!(language.press_q_to_quit, "The letter q is for quit!");
}

#[test]
fn missing_theme_and_language_give_the_built_in_ones() {
    let ini = IniDoc::load_from_str(GOOD_DATA).unwrap();
    let theme = parse_theme(&ini).unwrap();
    assert!(theme == Theme::default());
    assert_eq!(theme.heading.to_string(), "RGB(110, 110, 255)");
    let language = parse_language(&ini).unwrap();
    assert!(language == Language::default());
    assert_eq!(language.press_q_to_quit, "Press 'q' at any time to quit!");
}

#[test]
fn theme_with_a_bad_color_names_the_color() {
    let ini = IniDoc::load_from_str(&GOOD_THEME_DATA.replace("Green", "Greenish")).unwrap();
    match parse_theme(&ini) {
        Err(Application::ConversionFailed { etype, property, source }) => {
            assert_eq!(etype, "Theme");
            assert_eq!(property, "name");
            assert_eq!(source.value, "Greenish");
            assert_eq!(source.dtype, "ThemeColor");
        }
        _ => panic!("expected a conversion error"),
    }
}

#[test]
fn language_keeps_the_built_in_texts_it_does_not_set() {
    let ini = IniDoc::load_from_str(
        "[Language]\n\
         characters_found = You look around and see:\n\
         exits_found = You can exit in these directions:\n\
         talk = Talk\n\
         interact = Interact\n\
         go_somewhere = Go someplace?\n\
         end_game = End the game?\n\
         choose_exit = Get out of here?\n\
         cancel_exit = Don't leave\n\
         choose_chat = Talk to:\n\
         cancel_chat = Nevermind\n\
         choose_response = You say:\n\
         cancel_response = ...\n\
         choose_action = You decide to:\n\
         cancel_action = Nevermind\n\
         action_failed = That didn't work\n\
         continue_game = Keep Going?\n\
         press_q_to_quit = The letter q is for quit!\n",
    )
    .unwrap();
    let l = parse_language(&ini).unwrap();
    assert_eq!(l.talk, "Talk");
    assert_eq!(l.choose_exit, "Get out of here?");
    assert_eq!(l.press_q_to_quit, "The letter q is for quit!");
    assert_eq!(l.view_inventory, "View inventory");
    assert_eq!(l.inventory, "Inventory");
}

#[test]
fn language_with_one_text_set() {
    let ini = IniDoc::load_from_str("[Language]\ntalk = Chat\n").unwrap();
    let l = parse_language(&ini).unwrap();
    assert_eq!(l.talk, "Chat");
    assert_eq!(l.interact, "Interact");
    assert_eq!(l.end_game, "End game");
}

#[test]
fn language_with_an_unknown_text_is_refused() {
    let ini = IniDoc::load_from_str("[Language]\ntalky = Chat\n").unwrap();
    assert!(matches!(parse_language(&ini), Err(Application::UnexpectedProperties { .. })));
}

#[test]
fn title_error_message() {
    let ini = IniDoc::load_from_str(BAD_DATA_NO_START).unwrap();
    let e = parse_title(&ini).unwrap_err();
    assert_eq!(e.to_string(), "Missing properties [\"start_room\"] for entity `Root` with id `Root`!");
}
