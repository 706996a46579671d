//! The screens shown to the player: a title, a body, a prompt and a menu of choices.
//! These functions decide what each screen holds; drawing it is left to the caller.

use vstd::prelude::*;

use crate::config::title::language_view;
use crate::entity::Language;
use crate::names::{title_case_of, to_title_case};
use crate::text::{self, texts_view};

verus! {

/// What the player may choose in a room.
#[derive(Debug, Clone, Copy, PartialEq, Eq, Structural)]
pub enum RoomChoice {
    Chat,
    Interact,
    ViewInventory,
    Leave,
    GameOver,
}

/// Whom the player may start talking to: a character by its place in the list, or no one.
#[derive(Debug, Clone, Copy, PartialEq, Eq, Structural)]
pub enum StartChatChoice {
    TalkTo(usize),
    NoOne,
}

/// Which action the player may take: one by its place in the list, or none.
#[derive(Debug, Clone, Copy, PartialEq, Eq, Structural)]
pub enum InteractionChoice {
    Do(usize),
    Nothing,
}

/// Where the player may go: an exit by its place in the list, or stay.
#[derive(Debug, Clone, Copy, PartialEq, Eq, Structural)]
pub enum LeaveChoice {
    GoTo(usize),
    Stay,
}

/// How the player may answer: a response by its place in the list, or leave.
#[derive(Debug, Clone, Copy, PartialEq, Eq, Structural)]
pub enum ChatChoice {
    RespondWith(usize),
    Leave,
}

/// The choice a menu entry stands for.
#[derive(Debug, Clone, Copy, PartialEq, Eq, Structural)]
pub enum UIChoice {
    Continue,
    InRoom(RoomChoice),
    StartChat(StartChatChoice),
    InChat(ChatChoice),
    Interact(InteractionChoice),
    Leave(LeaveChoice),
}

/// A menu entry: its text and the choice it stands for.
#[derive(Debug)]
pub struct MenuItem(pub String, pub UIChoice);

/// A screen: title, body, prompt and menu.
#[derive(Debug)]
pub struct MenuScreen {
    pub title: String,
    pub body: String,
    pub prompt: String,
    pub menu: Vec<MenuItem>,
}

/// A menu as text and choices.
pub type MenuModel = Seq<(Seq<char>, UIChoice)>;

/// A screen as text: title, body, prompt and menu.
pub type ScreenModel = (Seq<char>, Seq<char>, Seq<char>, MenuModel);

pub open spec fn menu_view(m: Seq<MenuItem>) -> MenuModel {
    m.map_values(|i: MenuItem| (i.0@, i.1))
}

pub open spec fn screen_view(s: MenuScreen) -> ScreenModel {
    (s.title@, s.body@, s.prompt@, menu_view(s.menu@))
}

/// The parts joined with `sep` between them.
pub open spec fn join(parts: Seq<Seq<char>>, sep: Seq<char>) -> Seq<char>
    decreases parts.len(),
{
    if parts.len() == 0 {
        Seq::empty()
    } else if parts.len() == 1 {
        parts[0]
    } else {
        join(parts.drop_last(), sep) + sep + parts.last()
    }
}

/// Joins texts with a separator (`[String]::join`).
pub fn join_texts(parts: &[String], sep: &str) -> (r: String)
    ensures
        r@ == join(texts_view(parts@), sep@),
{
    let ghost p = texts_view(parts@);
    let mut out = String::new();
    if parts.len() == 0 {
        assert(out@ =~= join(p, sep@));
        return out;
    }
    out.append(parts[0].as_str());
    let mut i: usize = 1;
    assert(p.take(1).drop_last().len() == 0);
    assert(join(p.take(1), sep@) == p[0]);
    while i < parts.len()
        invariant
            p == texts_view(parts@),
            1 <= i <= parts@.len(),
            out@ == join(p.take(i as int), sep@),
        decreases parts.len() - i,
    {
        assert(p.take(i + 1).drop_last() == p.take(i as int));
        assert(p.take(i + 1).last() == parts@[i as int]@);
        out.append(sep);
        out.append(parts[i].as_str());
        i += 1;
    }
    assert(p.take(parts@.len() as int) == p);
    out
}

/// Each text in title case.
pub open spec fn titled(parts: Seq<Seq<char>>) -> Seq<Seq<char>> {
    parts.map_values(|s: Seq<char>| title_case_of(s))
}

fn title_case_all(parts: &[String]) -> (r: Vec<String>)
    ensures
        texts_view(r@) == titled(texts_view(parts@)),
{
    let mut out: Vec<String> = Vec::new();
    let mut i: usize = 0;
    while i < parts.len()
        invariant
            i <= parts@.len(),
            texts_view(out@) == titled(texts_view(parts@)).take(i as int),
        decreases parts.len() - i,
    {
        let ghost before = texts_view(out@);
        let t = to_title_case(parts[i].as_str());
        out.push(t);
        assert(texts_view(out@) =~= before.push(t@));
        assert(titled(texts_view(parts@)).take(i + 1) =~= titled(texts_view(parts@)).take(i as int).push(t@));
        i += 1;
    }
    assert(titled(texts_view(parts@)).take(parts@.len() as int) =~= titled(texts_view(parts@)));
    out
}

/// The texts of the language, by field.
pub open spec fn lang(l: Language, i: int) -> Seq<char> {
    language_view(l)[i]
}

pub open spec fn nl() -> Seq<char> {
    seq!['\n']
}

pub open spec fn comma() -> Seq<char> {
    seq![',', ' ']
}

/// The body of a room screen: the description, then who is there and where one can go.
pub open spec fn room_body(l: Language, description: Seq<char>, characters: Seq<Seq<char>>, exits: Seq<Seq<char>>) -> Seq<char> {
    description + nl() + nl() + (if characters.len() > 0 {
        l.characters_found@ + seq![' '] + join(characters, comma()) + nl()
    } else {
        Seq::empty()
    }) + (if exits.len() > 0 {
        l.exits_found@ + seq![' '] + join(titled(exits), comma()) + nl()
    } else {
        Seq::empty()
    })
}

/// Where part `k` starts in the parts joined with `sep`: the lengths of the parts
/// before it, each followed by the separator.
pub open spec fn part_start(parts: Seq<Seq<char>>, sep: Seq<char>, k: int) -> int
    decreases k,
{
    if k <= 0 {
        0
    } else {
        part_start(parts, sep, k - 1) + parts[k - 1].len() + sep.len()
    }
}

proof fn lemma_part_start_nonneg(parts: Seq<Seq<char>>, sep: Seq<char>, k: int)
    ensures
        0 <= part_start(parts, sep, k),
    decreases k,
{
    if k > 0 {
        lemma_part_start_nonneg(parts, sep, k - 1);
    }
}

proof fn lemma_part_start_prefix(parts: Seq<Seq<char>>, sep: Seq<char>, n: int, k: int)
    requires
        0 <= k <= n <= parts.len(),
    ensures
        part_start(parts.take(n), sep, k) == part_start(parts, sep, k),
    decreases k,
{
    if k > 0 {
        lemma_part_start_prefix(parts, sep, n, k - 1);
        assert(parts.take(n)[k - 1] == parts[k - 1]);
    }
}

/// Joining puts each part at its start: the text from `part_start(parts, sep, k)` is
/// part `k`.
pub proof fn lemma_join_part_at(parts: Seq<Seq<char>>, sep: Seq<char>, k: int)
    requires
        0 <= k < parts.len(),
    ensures
        join(parts, sep).len() == part_start(parts, sep, parts.len() - 1) + parts.last().len(),
        0 <= part_start(parts, sep, k),
        part_start(parts, sep, k) + parts[k].len() <= join(parts, sep).len(),
        join(parts, sep).subrange(part_start(parts, sep, k), part_start(parts, sep, k) + parts[k].len()) == parts[k],
    decreases parts.len(),
{
    lemma_part_start_nonneg(parts, sep, k);
    if parts.len() == 1 {
        assert(join(parts, sep).subrange(0, parts[0].len() as int) =~= parts[0]);
    } else {
        let init = parts.drop_last();
        let n = parts.len() - 1;
        lemma_part_start_prefix(parts, sep, n, n - 1);
        assert(init =~= parts.take(n));
        lemma_join_part_at(init, sep, n - 1);
        assert(init.last() == parts[n - 1]);
        let j0 = join(init, sep);
        assert(join(parts, sep) == j0 + sep + parts.last());
        if k < n {
            lemma_part_start_prefix(parts, sep, n, k);
            lemma_join_part_at(init, sep, k);
            assert(init[k] == parts[k]);
            assert(join(parts, sep).subrange(part_start(parts, sep, k), part_start(parts, sep, k) + parts[k].len())
                =~= j0.subrange(part_start(parts, sep, k), part_start(parts, sep, k) + parts[k].len()));
        } else {
            assert(join(parts, sep).subrange(part_start(parts, sep, k), part_start(parts, sep, k) + parts[k].len())
                =~= parts.last());
        }
    }
}

/// The room body names every character in the room, in order: after the description,
/// a blank line and the "characters found" text with a space, each name stands at its
/// place in the names joined with ", ".
pub proof fn law_room_body_names_everyone(
    l: Language,
    description: Seq<char>,
    characters: Seq<Seq<char>>,
    exits: Seq<Seq<char>>,
    k: int,
)
    requires
        0 <= k < characters.len(),
    ensures
        ({
            let body = room_body(l, description, characters, exits);
            let at = description.len() + 2 + l.characters_found@.len() + 1 + part_start(characters, comma(), k);
            &&& at + characters[k].len() <= body.len()
            &&& body.subrange(at, at + characters[k].len()) == characters[k]
        }),
{
    lemma_join_part_at(characters, comma(), k);
    let body = room_body(l, description, characters, exits);
    let head = description + nl() + nl() + l.characters_found@ + seq![' '];
    let j = join(characters, comma());
    let rest = nl() + (if exits.len() > 0 {
        l.exits_found@ + seq![' '] + join(titled(exits), comma()) + nl()
    } else {
        Seq::empty()
    });
    assert(body =~= head + j + rest);
    let at = head.len() + part_start(characters, comma(), k);
    assert(body.subrange(at, at + characters[k].len()) =~= j.subrange(
        part_start(characters, comma(), k),
        part_start(characters, comma(), k) + characters[k].len(),
    ));
}

/// The menu of a room screen: talk when someone is there, interact when there are
/// actions, then leave (and the inventory when the player holds something) when there
/// are exits, or end the game when there are none.
pub open spec fn room_menu(l: Language, has_characters: bool, has_actions: bool, has_exits: bool, has_inventory: bool) -> MenuModel {
    (if has_characters { seq![(l.talk@, UIChoice::InRoom(RoomChoice::Chat))] } else { Seq::empty() })
        + (if has_actions { seq![(l.interact@, UIChoice::InRoom(RoomChoice::Interact))] } else { Seq::empty() })
        + (if has_exits {
        seq![(l.go_somewhere@, UIChoice::InRoom(RoomChoice::Leave))] + (if has_inventory {
            seq![(l.view_inventory@, UIChoice::InRoom(RoomChoice::ViewInventory))]
        } else {
            Seq::empty()
        })
    } else {
        seq![(l.end_game@, UIChoice::InRoom(RoomChoice::GameOver))]
    })
}

fn item(text: &String, choice: UIChoice) -> (m: MenuItem)
    ensures
        m.0@ == text@,
        m.1 == choice,
{
    MenuItem(text.clone(), choice)
}

/// The screen of a room.
pub fn room_screen(
    language: &Language,
    room_name: &str,
    room_description: &str,
    characters: &[String],
    exits: &[String],
    has_actions: bool,
    has_inventory: bool,
) -> (s: MenuScreen)
    ensures
        screen_view(s) == (
            room_name@,
            room_body(*language, room_description@, texts_view(characters@), texts_view(exits@)),
            language.choose_action@,
            room_menu(*language, characters@.len() > 0, has_actions, exits@.len() > 0, has_inventory),
        ),
{
    proof {
        reveal_strlit("\n\n");
        reveal_strlit("\n");
        reveal_strlit(" ");
        reveal_strlit(", ");
        assert(", "@ =~= comma());
        assert(" "@ =~= seq![' ']);
        assert("\n"@ =~= nl());
        assert("\n\n"@ =~= nl() + nl());
    }
    let mut menu: Vec<MenuItem> = Vec::new();
    let mut body = text::owned(room_description);
    body.append("\n\n");
    let ghost b0 = body@;
    assert(b0 =~= room_description@ + nl() + nl());
    if characters.len() > 0 {
        body.append(language.characters_found.as_str());
        body.append(" ");
        let joined = join_texts(characters, ", ");
        body.append(joined.as_str());
        body.append("\n");
        menu.push(item(&language.talk, UIChoice::InRoom(RoomChoice::Chat)));
    }
    let ghost b1 = body@;
    assert(b1 =~= b0 + (if characters@.len() > 0 {
        language.characters_found@ + seq![' '] + join(texts_view(characters@), comma()) + nl()
    } else {
        Seq::empty()
    }));
    let ghost m1 = menu_view(menu@);
    if has_actions {
        menu.push(item(&language.interact, UIChoice::InRoom(RoomChoice::Interact)));
    }
    let ghost m2 = menu_view(menu@);
    if exits.len() > 0 {
        body.append(language.exits_found.as_str());
        body.append(" ");
        let titles = title_case_all(exits);
        let joined = join_texts(titles.as_slice(), ", ");
        body.append(joined.as_str());
        body.append("\n");
        menu.push(item(&language.go_somewhere, UIChoice::InRoom(RoomChoice::Leave)));
        if has_inventory {
            menu.push(item(&language.view_inventory, UIChoice::InRoom(RoomChoice::ViewInventory)));
        }
    } else {
        menu.push(item(&language.end_game, UIChoice::InRoom(RoomChoice::GameOver)));
    }
    assert(body@ =~= b1 + (if exits@.len() > 0 {
        language.exits_found@ + seq![' '] + join(titled(texts_view(exits@)), comma()) + nl()
    } else {
        Seq::empty()
    }));
    let s = MenuScreen { title: text::owned(room_name), body, prompt: language.choose_action.clone(), menu };
    assert(s.body@ =~= room_body(*language, room_description@, texts_view(characters@), texts_view(exits@)));
    assert(menu_view(s.menu@) =~= room_menu(*language, characters@.len() > 0, has_actions, exits@.len() > 0, has_inventory));
    s
}

} // verus!

verus! {

/// One menu entry per text, each standing for the choice `f` gives its position.
pub open spec fn numbered(texts: Seq<Seq<char>>, f: spec_fn(usize) -> UIChoice) -> MenuModel {
    Seq::new(texts.len(), |i: int| (texts[i], f(i as usize)))
}

pub open spec fn talk_to(i: usize) -> UIChoice {
    UIChoice::StartChat(StartChatChoice::TalkTo(i))
}

pub open spec fn respond_with(i: usize) -> UIChoice {
    UIChoice::InChat(ChatChoice::RespondWith(i))
}

pub open spec fn do_action_choice(i: usize) -> UIChoice {
    UIChoice::Interact(InteractionChoice::Do(i))
}

pub open spec fn go_to(i: usize) -> UIChoice {
    UIChoice::Leave(LeaveChoice::GoTo(i))
}

/// The numbered entries for `texts`.
fn numbered_items(texts: &[String], kind: u8) -> (r: Vec<MenuItem>)
    requires
        kind < 4,
    ensures
        menu_view(r@) == numbered(
            texts_view(texts@),
            if kind == 0 {
                |i: usize| talk_to(i)
            } else if kind == 1 {
                |i: usize| respond_with(i)
            } else if kind == 2 {
                |i: usize| do_action_choice(i)
            } else {
                |i: usize| go_to(i)
            },
        ),
{
    let ghost f = if kind == 0 {
        |i: usize| talk_to(i)
    } else if kind == 1 {
        |i: usize| respond_with(i)
    } else if kind == 2 {
        |i: usize| do_action_choice(i)
    } else {
        |i: usize| go_to(i)
    };
    let mut out: Vec<MenuItem> = Vec::new();
    let mut i: usize = 0;
    while i < texts.len()
        invariant
            kind < 4,
            f == (if kind == 0 {
                |i: usize| talk_to(i)
            } else if kind == 1 {
                |i: usize| respond_with(i)
            } else if kind == 2 {
                |i: usize| do_action_choice(i)
            } else {
                |i: usize| go_to(i)
            }),
            i <= texts@.len(),
            menu_view(out@) == numbered(texts_view(texts@), f).take(i as int),
        decreases texts.len() - i,
    {
        let choice = if kind == 0 {
            UIChoice::StartChat(StartChatChoice::TalkTo(i))
        } else if kind == 1 {
            UIChoice::InChat(ChatChoice::RespondWith(i))
        } else if kind == 2 {
            UIChoice::Interact(InteractionChoice::Do(i))
        } else {
            UIChoice::Leave(LeaveChoice::GoTo(i))
        };
        let ghost before = menu_view(out@);
        let m = item(&texts[i], choice);
        out.push(m);
        assert(menu_view(out@) =~= before.push((texts@[i as int]@, choice)));
        assert(numbered(texts_view(texts@), f).take(i + 1) =~= numbered(texts_view(texts@), f).take(i as int).push(
            (texts@[i as int]@, f(i)),
        ));
        i += 1;
    }
    assert(numbered(texts_view(texts@), f).take(texts@.len() as int) =~= numbered(texts_view(texts@), f));
    out
}

/// The inventory screen: every item on a line of its own
/// after `- `.
pub fn inventory_screen(language: &Language, items: &[String]) -> (s: MenuScreen)
    ensures
        screen_view(s) == (
            language.inventory@,
            seq!['-', ' '] + join(texts_view(items@), seq!['\n', '-', ' ']),
            Seq::<char>::empty(),
            seq![(language.continue_game@, UIChoice::Continue)],
        ),
{
    proof {
        reveal_strlit("- ");
        reveal_strlit("\n- ");
        assert("- "@ =~= seq!['-', ' ']);
        assert("\n- "@ =~= seq!['\n', '-', ' ']);
    }
    let mut body = text::owned("- ");
    let joined = join_texts(items, "\n- ");
    body.append(joined.as_str());
    let mut menu: Vec<MenuItem> = Vec::new();
    menu.push(item(&language.continue_game, UIChoice::Continue));
    let s = MenuScreen { title: language.inventory.clone(), body, prompt: String::new(), menu };
    assert(s.prompt@ =~= Seq::<char>::empty());
    assert(menu_view(s.menu@) =~= seq![(language.continue_game@, UIChoice::Continue)]);
    s
}

/// The screen for choosing whom to talk to.
pub fn chat_targets_screen(language: &Language, room_name: &str, room_description: &str, characters: &[String]) -> (s: MenuScreen)
    ensures
        screen_view(s) == (
            room_name@,
            room_description@,
            language.choose_chat@,
            numbered(texts_view(characters@), |i: usize| talk_to(i)).push(
                (language.cancel_chat@, UIChoice::StartChat(StartChatChoice::NoOne)),
            ),
        ),
{
    let mut menu = numbered_items(characters, 0);
    let ghost m0 = menu_view(menu@);
    menu.push(item(&language.cancel_chat, UIChoice::StartChat(StartChatChoice::NoOne)));
    assert(menu_view(menu@) =~= m0.push((language.cancel_chat@, UIChoice::StartChat(StartChatChoice::NoOne))));
    MenuScreen {
        title: text::owned(room_name),
        body: text::owned(room_description),
        prompt: language.choose_chat.clone(),
        menu,
    }
}

/// The screen of a talk: the responses, or a way out when there
/// are none.
pub fn chat_screen(language: &Language, character_name: &str, dialogue: &str, responses: &[String]) -> (s: MenuScreen)
    ensures
        screen_view(s) == (
            character_name@,
            dialogue@,
            language.choose_response@,
            if responses@.len() == 0 {
                seq![(language.cancel_response@, UIChoice::InChat(ChatChoice::Leave))]
            } else {
                numbered(texts_view(responses@), |i: usize| respond_with(i))
            },
        ),
{
    let mut menu = numbered_items(responses, 1);
    if responses.len() == 0 {
        let ghost m0 = menu_view(menu@);
        menu.push(item(&language.cancel_response, UIChoice::InChat(ChatChoice::Leave)));
        assert(m0 =~= Seq::<(Seq<char>, UIChoice)>::empty());
        assert(menu_view(menu@) =~= seq![(language.cancel_response@, UIChoice::InChat(ChatChoice::Leave))]);
    }
    MenuScreen {
        title: text::owned(character_name),
        body: text::owned(dialogue),
        prompt: language.choose_response.clone(),
        menu,
    }
}

/// The screen for choosing an action; action names are
/// shown in title case.
pub fn action_select_screen(language: &Language, room_name: &str, room_description: &str, actions: &[String]) -> (s: MenuScreen)
    ensures
        screen_view(s) == (
            room_name@,
            room_description@,
            language.choose_action@,
            numbered(titled(texts_view(actions@)), |i: usize| do_action_choice(i)).push(
                (language.cancel_action@, UIChoice::Interact(InteractionChoice::Nothing)),
            ),
        ),
{
    let titles = title_case_all(actions);
    let mut menu = numbered_items(titles.as_slice(), 2);
    let ghost m0 = menu_view(menu@);
    menu.push(item(&language.cancel_action, UIChoice::Interact(InteractionChoice::Nothing)));
    assert(menu_view(menu@) =~= m0.push((language.cancel_action@, UIChoice::Interact(InteractionChoice::Nothing))));
    MenuScreen {
        title: text::owned(room_name),
        body: text::owned(room_description),
        prompt: language.choose_action.clone(),
        menu,
    }
}

/// The text shown when an action fails.
pub open spec fn failed_text() -> Seq<char> {
    "It didn't work."@
}

/// The screen after an action: its name in title case, and its description when it
/// worked.
pub open spec fn screen_view_of_action(l: Language, name: Seq<char>, description: Seq<char>, success: bool) -> ScreenModel {
    (
        title_case_of(name),
        if success { description } else { failed_text() },
        Seq::<char>::empty(),
        seq![(l.continue_game@, UIChoice::Continue)],
    )
}

/// The screen after an action.
pub fn action_screen(language: &Language, action_name: &str, action_description: &str, success: bool) -> (s: MenuScreen)
    ensures
        screen_view(s) == screen_view_of_action(*language, action_name@, action_description@, success),
{
    let description = if success {
        text::owned(action_description)
    } else {
        text::owned("It didn't work.")
    };
    let mut menu: Vec<MenuItem> = Vec::new();
    menu.push(item(&language.continue_game, UIChoice::Continue));
    let s = MenuScreen { title: to_title_case(action_name), body: description, prompt: String::new(), menu };
    assert(s.prompt@ =~= Seq::<char>::empty());
    assert(menu_view(s.menu@) =~= seq![(language.continue_game@, UIChoice::Continue)]);
    s
}

/// The screen for choosing an exit; directions are shown in
/// title case.
pub fn exit_select_screen(language: &Language, room_name: &str, room_description: &str, exits: &[String]) -> (s: MenuScreen)
    ensures
        screen_view(s) == (
            room_name@,
            room_description@,
            language.choose_exit@,
            numbered(titled(texts_view(exits@)), |i: usize| go_to(i)).push(
                (language.cancel_exit@, UIChoice::Leave(LeaveChoice::Stay)),
            ),
        ),
{
    let titles = title_case_all(exits);
    let mut menu = numbered_items(titles.as_slice(), 3);
    let ghost m0 = menu_view(menu@);
    menu.push(item(&language.cancel_exit, UIChoice::Leave(LeaveChoice::Stay)));
    assert(menu_view(menu@) =~= m0.push((language.cancel_exit@, UIChoice::Leave(LeaveChoice::Stay))));
    MenuScreen {
        title: text::owned(room_name),
        body: text::owned(room_description),
        prompt: language.choose_exit.clone(),
        menu,
    }
}

} // verus!
