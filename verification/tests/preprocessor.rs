use text_adventure_game::config::preprocessor::{preprocess, preprocess_to_ini};
use text_adventure_game::error::Application;

#[test]
fn test_multiline_preprocessing() {
    let raw = r#"
[Room:LivingRoom]
description="""
An old man sits by the fire.
He looks up as you enter.
"""
exits=east:Basement
        "#;

    let expected_output = "\
[Room:LivingRoom]
description=An old man sits by the fire.\\nHe looks up as you enter.
exits=east:Basement
        ";

    let result = preprocess(raw);
    assert_eq!(result.trim(), expected_output.trim());
}

#[test]
fn test_preprocess_to_ini() {
    let raw = r#"
[Dialogue:Intro]
text="""
Hello there.
What brings you here?
"""
responses=ask_name,ask_place
        "#;

    let ini = preprocess_to_ini(raw).unwrap();
    let section = ini.section(Some("Dialogue:Intro")).unwrap();
    let text = text_adventure_game::config::ini_doc::get_prop(section, "text").unwrap();
    assert_eq!(text, "Hello there.\nWhat brings you here?");
    assert_eq!(
        text_adventure_game::config::ini_doc::get_prop(section, "responses").unwrap(),
        "ask_name,ask_place"
    );
}

#[test]
fn plain_lines_are_kept_with_a_line_feed_each() {
    assert_eq!(preprocess("a=1\r\nb=2"), "a=1\nb=2\n");
    assert_eq!(preprocess(""), "");
    assert_eq!(preprocess("x\n"), "x\n");
}

#[test]
fn unclosed_multiline_value_is_dropped() {
    assert_eq!(preprocess("k=\"\"\"\nline one\nline two"), "");
}

#[test]
fn multiline_value_may_follow_spaces_around_the_equal_sign() {
    assert_eq!(preprocess("  text  =  \"\"\"\nA\n  B  \n   \"\"\"  \nz"), "text=A\\n  B\nz\n");
}

#[test]
fn unreadable_document_is_a_load_error() {
    let r = preprocess_to_ini("=value");
    assert!(matches!(r, Err(Application::CouldNotLoadFile(_))));
}
