//! The title screen (general section), the color theme (`[Theme:...]`) and the
//! interface language (`[Language:...]`).

use vstd::prelude::*;

use crate::config::ini_doc::{opt_str_view, prop_value, props_view, section_props, IniDoc, IniModel};
use crate::config::iter::{
    first_record, first_record_of_kind, fold_results, lemma_fold_results_all, lemma_fold_results_err,
    lemma_fold_results_step,
};
use crate::config::section::{
    key_check, name_conversion, property_not_found, required_title, required_value, root_model, strs_view,
    EntitySection, Record, RecordModel,
};
use crate::entity::{GameTitleRaw, Language, Theme};
use crate::error::{Application, ErrorView};
use crate::names::{css_color_rgb, ParseText, ThemeColor, Title};
use crate::text;

verus! {

/// The title screen as text: title, greeting, credits and the name of the first room.
pub open spec fn title_raw_view(t: GameTitleRaw) -> (Seq<char>, Seq<char>, Seq<char>, Seq<char>) {
    (t.title@, t.greeting@, t.credits@, t.start_room@)
}

pub open spec fn title_keys() -> Seq<Seq<char>> {
    seq!["title"@, "greeting"@, "credits"@, "start_room"@]
}

/// The title screen that the general section describes.
pub open spec fn title_of(d: IniModel) -> Result<(Seq<char>, Seq<char>, Seq<char>, Seq<char>), ErrorView> {
    match section_props(d, None) {
        None => Err(ErrorView::EntitySectionNotFound(Seq::empty())),
        Some(p) => {
            let m = root_model(p);
            match key_check(m, title_keys(), Seq::empty()) {
                Some(e) => Err(e),
                None => match required_value(m, "title"@) {
                    Err(e) => Err(e),
                    Ok(title) => match required_value(m, "greeting"@) {
                        Err(e) => Err(e),
                        Ok(greeting) => match required_value(m, "credits"@) {
                            Err(e) => Err(e),
                            Ok(credits) => match required_title(m, "start_room"@) {
                                Err(e) => Err(e),
                                Ok(start_room) => Ok((title, greeting, credits, start_room)),
                            },
                        },
                    },
                },
            }
        },
    }
}

/// Reads the title screen from the general section.
pub fn parse_title(doc: &IniDoc) -> (r: Result<GameTitleRaw, Application>)
    ensures
        match title_of(doc@) {
            Ok(x) => r is Ok && title_raw_view(r->Ok_0) == x,
            Err(e) => r is Err && r->Err_0@ == e,
        },
{
    let properties = match doc.section(None) {
        Some(p) => p,
        None => {
            let e = String::new();
            assert(e@ =~= Seq::<char>::empty());
            return Err(Application::EntitySectionNotFound(e));
        },
    };
    assert(opt_str_view(None) == None::<Seq<char>>);
    let required: [&str; 4] = ["title", "greeting", "credits", "start_room"];
    let optional: [&str; 0] = [];
    assert(strs_view(required@) =~= title_keys());
    assert(strs_view(optional@) =~= Seq::<Seq<char>>::empty());
    let record = Record::from_root(properties, &required, &optional)?;
    let title = text::owned(record.require("title")?.as_str());
    let greeting = text::owned(record.require("greeting")?.as_str());
    let credits = text::owned(record.require("credits")?.as_str());
    let start_room = record.require_parsed::<Title>("start_room")?;
    Ok(GameTitleRaw { title, greeting, credits, start_room })
}

// ---------------------------------------------------------------- theme

pub open spec fn color_view(c: ThemeColor) -> (u8, u8, u8) {
    (c.r, c.g, c.b)
}

/// The colors of a theme in the order title, heading, background, text, highlight,
/// highlight text, subdued.
pub open spec fn theme_view(t: Theme) -> Seq<(u8, u8, u8)> {
    seq![
        color_view(t.title),
        color_view(t.heading),
        color_view(t.background),
        color_view(t.text),
        color_view(t.highlight),
        color_view(t.highlight_text),
        color_view(t.subdued),
    ]
}

pub open spec fn theme_keys() -> Seq<Seq<char>> {
    seq!["title"@, "heading"@, "background"@, "text"@, "highlight"@, "highlight_text"@, "subdued"@]
}

/// The colors of the built-in theme.
pub open spec fn default_theme_colors() -> Seq<(u8, u8, u8)> {
    seq![(200, 150, 150), (110, 110, 255), (0, 0, 0), (240, 240, 240), (40, 40, 40), (255, 255, 80), (127, 127, 127)]
}

/// A property that must be there, read as a color.
pub open spec fn required_color(m: RecordModel, prop: Seq<char>) -> Result<(u8, u8, u8), ErrorView> {
    match prop_value(m.props, prop) {
        None => Err(property_not_found(m, prop)),
        Some(s) => match css_color_rgb(s) {
            Some(c) => Ok(c),
            None => Err(name_conversion::<ThemeColor>(m, s)),
        },
    }
}

/// The theme of a document: the first `[Theme:...]` section, or the built-in theme when
/// there is none.
pub open spec fn theme_of(d: IniModel) -> Result<Seq<(u8, u8, u8)>, ErrorView> {
    match first_record(d, d.len() as int, EntitySection::Theme) {
        None => Ok(default_theme_colors()),
        Some(Err(e)) => Err(e),
        Some(Ok(m)) => match key_check(m, theme_keys(), Seq::empty()) {
            Some(e) => Err(e),
            None => fold_results(theme_keys(), |k: Seq<char>| required_color(m, k)),
        },
    }
}

impl Default for Theme {
    fn default() -> (t: Theme)
        ensures
            theme_view(t) == default_theme_colors(),
    {
        let t = Theme {
            title: ThemeColor::new(200, 150, 150),
            heading: ThemeColor::new(110, 110, 255),
            background: ThemeColor::new(0, 0, 0),
            text: ThemeColor::new(240, 240, 240),
            highlight: ThemeColor::new(40, 40, 40),
            highlight_text: ThemeColor::new(255, 255, 80),
            subdued: ThemeColor::new(127, 127, 127),
        };
        assert(theme_view(t) =~= default_theme_colors());
        t
    }
}

/// Reads the colors listed in `keys` from a theme record, in order.
fn parse_colors(record: &Record, keys: &[&str]) -> (r: Result<Vec<ThemeColor>, Application>)
    ensures
        match fold_results(strs_view(keys@), |k: Seq<char>| required_color(record.model(), k)) {
            Ok(x) => r is Ok && r->Ok_0@.map_values(|c: ThemeColor| color_view(c)) == x,
            Err(e) => r is Err && r->Err_0@ == e,
        },
{
    let ghost ks = strs_view(keys@);
    let ghost f = |k: Seq<char>| required_color(record.model(), k);
    let mut out: Vec<ThemeColor> = Vec::new();
    let mut i: usize = 0;
    proof {
        lemma_fold_results_all(ks, f);
    }
    assert(out@.map_values(|c: ThemeColor| color_view(c)) =~= Seq::<(u8, u8, u8)>::empty());
    while i < keys.len()
        invariant
            ks == strs_view(keys@),
            f == (|k: Seq<char>| required_color(record.model(), k)),
            i <= keys@.len(),
            fold_results(ks.take(i as int), f) == Ok::<Seq<(u8, u8, u8)>, ErrorView>(
                out@.map_values(|c: ThemeColor| color_view(c)),
            ),
        decreases keys.len() - i,
    {
        proof {
            lemma_fold_results_step(ks, i as int, f);
        }
        assert(ks[i as int] == keys@[i as int]@);
        match record.require_parsed::<ThemeColor>(keys[i]) {
            Err(e) => {
                proof {
                    lemma_fold_results_err(ks, i + 1, f);
                }
                return Err(e);
            },
            Ok(c) => {
                let ghost before = out@.map_values(|c: ThemeColor| color_view(c));
                out.push(c);
                assert(out@.map_values(|c: ThemeColor| color_view(c)) =~= before.push(color_view(c)));
            },
        }
        i += 1;
    }
    proof {
        lemma_fold_results_all(ks, f);
    }
    Ok(out)
}

/// Reads the theme: the first `[Theme:...]` section, or the built-in theme.
pub fn parse_theme(doc: &IniDoc) -> (r: Result<Theme, Application>)
    ensures
        match theme_of(doc@) {
            Ok(x) => r is Ok && theme_view(r->Ok_0) == x,
            Err(e) => r is Err && r->Err_0@ == e,
        },
{
    let rec = match first_record_of_kind(doc, EntitySection::Theme) {
        None => {
            return Ok(Theme::default());
        },
        Some(r) => r?,
    };
    let keys: [&str; 7] = ["title", "heading", "background", "text", "highlight", "highlight_text", "subdued"];
    let optional: [&str; 0] = [];
    assert(strs_view(keys@) =~= theme_keys());
    assert(strs_view(optional@) =~= Seq::<Seq<char>>::empty());
    let record = rec.into_record(&keys, &optional)?;
    let colors = parse_colors(&record, &keys);
    let colors = colors?;
    proof {
        crate::config::iter::lemma_fold_results_ok(theme_keys(), |k: Seq<char>| required_color(record.model(), k));
    }
    assert(colors@.len() == 7);
    let t = Theme {
        title: colors[0],
        heading: colors[1],
        background: colors[2],
        text: colors[3],
        highlight: colors[4],
        highlight_text: colors[5],
        subdued: colors[6],
    };
    assert(theme_view(t) =~= colors@.map_values(|c: ThemeColor| color_view(c)));
    Ok(t)
}

// ---------------------------------------------------------------- language

/// The keys a `[Language:...]` section may have, in the order they are checked.
pub open spec fn language_keys() -> Seq<Seq<char>> {
    seq![
        "characters_found"@, "exits_found"@, "talk"@, "interact"@, "view_inventory"@, "inventory"@,
        "go_somewhere"@, "end_game"@, "choose_exit"@, "cancel_exit"@, "choose_chat"@, "cancel_chat"@,
        "choose_response"@, "cancel_response"@, "choose_action"@, "cancel_action"@, "action_failed"@,
        "continue_game"@, "press_q_to_quit"@,
    ]
}

/// The keys in the order their values are read.
pub open spec fn language_order() -> Seq<Seq<char>> {
    seq![
        "characters_found"@, "exits_found"@, "end_game"@, "go_somewhere"@, "talk"@, "interact"@,
        "view_inventory"@, "inventory"@, "choose_exit"@, "cancel_exit"@, "choose_chat"@, "cancel_chat"@,
        "choose_response"@, "cancel_response"@, "choose_action"@, "cancel_action"@, "action_failed"@,
        "continue_game"@, "press_q_to_quit"@,
    ]
}

/// The texts of a language, in the order of `language_order`.
pub open spec fn language_view(l: Language) -> Seq<Seq<char>> {
    seq![
        l.characters_found@, l.exits_found@, l.end_game@, l.go_somewhere@, l.talk@, l.interact@,
        l.view_inventory@, l.inventory@, l.choose_exit@, l.cancel_exit@, l.choose_chat@, l.cancel_chat@,
        l.choose_response@, l.cancel_response@, l.choose_action@, l.cancel_action@, l.action_failed@,
        l.continue_game@, l.press_q_to_quit@,
    ]
}

/// The texts of the built-in language, in the order of `language_order`.
pub open spec fn default_language_texts() -> Seq<Seq<char>> {
    seq![
        "There are people here:"@, "Your exits are:"@, "End game"@, "Go somewhere else"@, "Talk"@,
        "Interact"@, "View inventory"@, "Inventory"@, "Where will you go?"@, "Stay"@,
        "Who will you talk to?"@, "No one"@, "You respond with:"@, "Nothing"@, "What will you do?"@,
        "Nothing"@, "Nothing happened..."@, "Continue..."@, "Press 'q' at any time to quit!"@,
    ]
}

/// The value of `k` in the record, or `dflt` when the record does not set it.
pub open spec fn value_or(m: RecordModel, k: Seq<char>, dflt: Seq<char>) -> Seq<char> {
    match prop_value(m.props, k) {
        Some(v) => v,
        None => dflt,
    }
}

/// The texts a language section gives, in the order of `language_order`: each key it
/// sets, and the built-in text for each key it leaves out.
pub open spec fn language_texts(m: RecordModel) -> Seq<Seq<char>> {
    Seq::new(19, |i: int| value_or(m, language_order()[i], default_language_texts()[i]))
}

/// The language of a document: the first `[Language:...]` section, whose keys override
/// the built-in texts, or the built-in language when there is none.
pub open spec fn language_of(d: IniModel) -> Result<Seq<Seq<char>>, ErrorView> {
    match first_record(d, d.len() as int, EntitySection::Language) {
        None => Ok(default_language_texts()),
        Some(Err(e)) => Err(e),
        Some(Ok(m)) => match key_check(m, Seq::empty(), language_keys()) {
            Some(e) => Err(e),
            None => Ok(language_texts(m)),
        },
    }
}

impl Default for Language {
    fn default() -> (l: Language)
        ensures
            language_view(l) == default_language_texts(),
    {
        let l = Language {
            characters_found: text::owned("There are people here:"),
            exits_found: text::owned("Your exits are:"),
            talk: text::owned("Talk"),
            interact: text::owned("Interact"),
            go_somewhere: text::owned("Go somewhere else"),
            view_inventory: text::owned("View inventory"),
            inventory: text::owned("Inventory"),
            end_game: text::owned("End game"),
            choose_exit: text::owned("Where will you go?"),
            cancel_exit: text::owned("Stay"),
            choose_chat: text::owned("Who will you talk to?"),
            cancel_chat: text::owned("No one"),
            choose_response: text::owned("You respond with:"),
            cancel_response: text::owned("Nothing"),
            choose_action: text::owned("What will you do?"),
            cancel_action: text::owned("Nothing"),
            action_failed: text::owned("Nothing happened..."),
            continue_game: text::owned("Continue..."),
            press_q_to_quit: text::owned("Press 'q' at any time to quit!"),
        };
        assert(language_view(l) =~= default_language_texts());
        l
    }
}

/// The texts for the keys in `keys`, in order: each value the record sets, else the
/// matching text of `defaults`.
fn texts_or_defaults(record: &Record, keys: &[&str], defaults: &Vec<String>) -> (r: Vec<String>)
    requires
        keys@.len() == defaults@.len(),
    ensures
        r@.len() == keys@.len(),
        forall|i: int| 0 <= i < keys@.len() ==> #[trigger] r@[i]@ == value_or(record.model(), keys@[i]@, defaults@[i]@),
{
    let mut out: Vec<String> = Vec::new();
    let mut i: usize = 0;
    while i < keys.len()
        invariant
            keys@.len() == defaults@.len(),
            i <= keys@.len(),
            out@.len() == i,
            forall|j: int| 0 <= j < i ==> #[trigger] out@[j]@ == value_or(record.model(), keys@[j]@, defaults@[j]@),
        decreases keys.len() - i,
    {
        let v = match record.get(keys[i]) {
            Some(v) => text::owned(v.as_str()),
            None => text::owned(defaults[i].as_str()),
        };
        out.push(v);
        i += 1;
    }
    out
}

/// Reads the interface language: the first `[Language:...]` section, or the built-in one.
pub fn parse_language(doc: &IniDoc) -> (r: Result<Language, Application>)
    ensures
        match language_of(doc@) {
            Ok(x) => r is Ok && language_view(r->Ok_0) == x,
            Err(e) => r is Err && r->Err_0@ == e,
        },
{
    let rec = match first_record_of_kind(doc, EntitySection::Language) {
        None => {
            return Ok(Language::default());
        },
        Some(r) => r?,
    };
    let keys: [&str; 19] = [
        "characters_found", "exits_found", "talk", "interact", "view_inventory", "inventory",
        "go_somewhere", "end_game", "choose_exit", "cancel_exit", "choose_chat", "cancel_chat",
        "choose_response", "cancel_response", "choose_action", "cancel_action", "action_failed",
        "continue_game", "press_q_to_quit",
    ];
    let order: [&str; 19] = [
        "characters_found", "exits_found", "end_game", "go_somewhere", "talk", "interact",
        "view_inventory", "inventory", "choose_exit", "cancel_exit", "choose_chat", "cancel_chat",
        "choose_response", "cancel_response", "choose_action", "cancel_action", "action_failed",
        "continue_game", "press_q_to_quit",
    ];
    let required: [&str; 0] = [];
    assert(strs_view(keys@) =~= language_keys());
    assert(strs_view(order@) =~= language_order());
    assert(strs_view(required@) =~= Seq::<Seq<char>>::empty());
    let record = rec.into_record(&required, &keys)?;
    let d = Language::default();
    let defaults: Vec<String> = vec![
        d.characters_found, d.exits_found, d.end_game, d.go_somewhere, d.talk, d.interact, d.view_inventory,
        d.inventory, d.choose_exit, d.cancel_exit, d.choose_chat, d.cancel_chat, d.choose_response,
        d.cancel_response, d.choose_action, d.cancel_action, d.action_failed, d.continue_game, d.press_q_to_quit,
    ];
    assert(text::texts_view(defaults@) =~= default_language_texts());
    let v = texts_or_defaults(&record, &order, &defaults);
    assert(v@.len() == 19);
    let l = Language {
        characters_found: v[0].clone(),
        exits_found: v[1].clone(),
        end_game: v[2].clone(),
        go_somewhere: v[3].clone(),
        talk: v[4].clone(),
        interact: v[5].clone(),
        view_inventory: v[6].clone(),
        inventory: v[7].clone(),
        choose_exit: v[8].clone(),
        cancel_exit: v[9].clone(),
        choose_chat: v[10].clone(),
        cancel_chat: v[11].clone(),
        choose_response: v[12].clone(),
        cancel_response: v[13].clone(),
        choose_action: v[14].clone(),
        cancel_action: v[15].clone(),
        action_failed: v[16].clone(),
        continue_game: v[17].clone(),
        press_q_to_quit: v[18].clone(),
    };
    assert forall|k: int| 0 <= k < 19 implies #[trigger] text::texts_view(v@)[k] == language_texts(record.model())[k] by {
        assert(order@[k]@ == language_order()[k]);
        assert(defaults@[k]@ == default_language_texts()[k]);
    }
    assert(text::texts_view(v@) =~= language_texts(record.model()));
    assert(language_view(l) =~= text::texts_view(v@));
    Ok(l)
}

} // verus!
