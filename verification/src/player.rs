//! What the player is doing, and the decisions of play: which screen each step shows and
//! where each choice leads. Showing the screens and reading the choices is the caller's.

use vstd::prelude::*;

use crate::database::{Lookup, Update};
use crate::entity::{action_description, action_name, Language};
use crate::exits::exit_entries;
use crate::ids::{ActionId, CharacterId, DialogueId, ResponseId, RoomId};
use crate::proxy::{Action, Character, Dialogue, Response, Room};
use crate::state::GameState;
use crate::text::texts_view;
use crate::ui::{
    action_screen, action_select_screen, chat_screen, chat_targets_screen, exit_select_screen, inventory_screen,
    room_body, room_menu, room_screen, screen_view, ChatChoice, InteractionChoice, LeaveChoice, MenuScreen,
    RoomChoice, ScreenModel, StartChatChoice, UIChoice, MenuModel,
};

verus! {

/// What the player is doing.
#[derive(Debug, Clone, Copy, PartialEq, Eq, Structural)]
pub enum Player {
    ChatWith(CharacterId, Option<DialogueId>),
    DoActionInChatResponse(ActionId, CharacterId, ResponseId),
    DoingAction(ActionId),
    GameOver,
    Idle,
    Leaving,
    SelectingAction,
    StartingChat,
    ViewInventory,
}

/// The room the player is in, as it currently appears.
pub open spec fn room_now(s: GameState) -> crate::entity::RoomVariantEntity {
    s.room_at(s.progress().0)
}

pub open spec fn character_names(s: GameState, ids: Seq<CharacterId>) -> Seq<Seq<char>> {
    ids.map_values(|c: CharacterId| s.character_at(c).name@)
}

pub open spec fn exit_directions(s: GameState) -> Seq<Seq<char>> {
    exit_entries(room_now(s).exits).map_values(|e: (Seq<char>, usize)| e.0)
}

pub open spec fn action_names(s: GameState, ids: Seq<ActionId>) -> Seq<Seq<char>> {
    ids.map_values(|a: ActionId| action_name(s.action_at(a)))
}

/// The screen of the room the player is in.
pub open spec fn room_screen_of(s: GameState, l: Language) -> ScreenModel {
    let room = room_now(s);
    (
        room.name@,
        room_body(l, room.description@, character_names(s, room.characters@), exit_directions(s)),
        l.choose_action@,
        room_menu(
            l,
            room.characters@.len() > 0,
            room.actions@.len() > 0,
            exit_directions(s).len() > 0,
            s.progress().1 != Set::<crate::ids::ItemId>::empty(),
        ),
    )
}

/// The names of the characters in the room the player is in.
fn character_name_list(state: &GameState, room: &Room<'_, GameState>) -> (r: Vec<String>)
    requires
        state.inv(),
        room.valid(),
        room.db_of() == *state,
    ensures
        texts_view(r@) == character_names(*state, room.entity().characters@),
{
    let characters = room.characters();
    let mut out: Vec<String> = Vec::new();
    let mut i: usize = 0;
    while i < characters.len()
        invariant
            room.valid(),
            room.db_of() == *state,
            characters@.len() == room.entity().characters@.len(),
            forall|k: int|
                0 <= k < characters@.len() ==> {
                    &&& (#[trigger] characters@[k]).id_of() == room.entity().characters@[k]
                    &&& characters@[k].db_of() == room.db_of()
                    &&& characters@[k].valid()
                },
            i <= characters@.len(),
            texts_view(out@) == character_names(*state, room.entity().characters@).take(i as int),
        decreases characters.len() - i,
    {
        let ghost before = texts_view(out@);
        let n = crate::text::owned(characters[i].name());
        out.push(n);
        assert(texts_view(out@) =~= before.push(n@));
        assert(character_names(*state, room.entity().characters@).take(i + 1) =~= character_names(
            *state,
            room.entity().characters@,
        ).take(i as int).push(n@));
        i += 1;
    }
    assert(character_names(*state, room.entity().characters@).take(characters@.len() as int) =~= character_names(
        *state,
        room.entity().characters@,
    ));
    out
}

/// The directions of the exits of the room the player is in.
fn exit_direction_list(state: &GameState, room: &Room<'_, GameState>) -> (r: Vec<String>)
    requires
        state.inv(),
        room.valid(),
        room.db_of() == *state,
        room.id_of() == state.progress().0,
    ensures
        texts_view(r@) == exit_directions(*state),
{
    let exits = room.exits();
    let mut out: Vec<String> = Vec::new();
    let mut i: usize = 0;
    while i < exits.len()
        invariant
            room.valid(),
            room.db_of() == *state,
            room.id_of() == state.progress().0,
            exits@.len() == exit_entries(room.entity().exits).len(),
            forall|k: int|
                0 <= k < exits@.len() ==> (#[trigger] exits@[k]).direction_of()@ == exit_entries(room.entity().exits)[k].0,
            i <= exits@.len(),
            texts_view(out@) == exit_directions(*state).take(i as int),
        decreases exits.len() - i,
    {
        let ghost before = texts_view(out@);
        let n = exits[i].direction().to_string();
        out.push(n);
        assert(texts_view(out@) =~= before.push(n@));
        assert(exit_directions(*state).take(i + 1) =~= exit_directions(*state).take(i as int).push(n@));
        i += 1;
    }
    assert(exit_directions(*state).take(exits@.len() as int) =~= exit_directions(*state));
    out
}

/// The names of the actions of the room the player is in.
fn action_name_list(state: &GameState, room: &Room<'_, GameState>) -> (r: Vec<String>)
    requires
        state.inv(),
        room.valid(),
        room.db_of() == *state,
    ensures
        texts_view(r@) == action_names(*state, room.entity().actions@),
{
    let actions = room.actions();
    let mut out: Vec<String> = Vec::new();
    let mut i: usize = 0;
    while i < actions.len()
        invariant
            room.valid(),
            room.db_of() == *state,
            actions@.len() == room.entity().actions@.len(),
            forall|k: int|
                0 <= k < actions@.len() ==> {
                    &&& (#[trigger] actions@[k]).id_of() == room.entity().actions@[k]
                    &&& actions@[k].db_of() == room.db_of()
                    &&& actions@[k].valid()
                },
            i <= actions@.len(),
            texts_view(out@) == action_names(*state, room.entity().actions@).take(i as int),
        decreases actions.len() - i,
    {
        let ghost before = texts_view(out@);
        let n = actions[i].name();
        out.push(n);
        assert(texts_view(out@) =~= before.push(n@));
        assert(action_names(*state, room.entity().actions@).take(i + 1) =~= action_names(
            *state,
            room.entity().actions@,
        ).take(i as int).push(n@));
        i += 1;
    }
    assert(action_names(*state, room.entity().actions@).take(actions@.len() as int) =~= action_names(
        *state,
        room.entity().actions@,
    ));
    out
}

/// The room screen: the room's name and description, who is there, the exits, and what
/// the player may do.
pub fn idle_screen(state: &GameState) -> (s: MenuScreen)
    requires
        state.inv(),
    ensures
        screen_view(s) == room_screen_of(*state, *state.world_of().language),
{
    let room = state.current_room();
    let characters = character_name_list(state, &room);
    let exits = exit_direction_list(state, &room);
    let has_actions = room.actions().len() > 0;
    let language = state.language();
    room_screen(
        &*language,
        room.name(),
        room.description(),
        characters.as_slice(),
        exits.as_slice(),
        has_actions,
        state.has_inventory(),
    )
}

/// A room without exits ends the game: its screen offers, as the last choice, to end the
/// game, and no way out. A room with exits offers a way out and never the end of the game.
pub proof fn law_room_without_exits_ends_game(s: GameState, l: Language)
    ensures
        ({
            let menu = room_screen_of(s, l).3;
            &&& exit_directions(s).len() == 0 ==> {
                &&& menu.len() > 0
                &&& menu.last().1 == UIChoice::InRoom(RoomChoice::GameOver)
                &&& forall|i: int| 0 <= i < menu.len() ==> #[trigger] menu[i].1 != UIChoice::InRoom(RoomChoice::Leave)
            }
            &&& exit_directions(s).len() > 0 ==> {
                &&& exists|i: int| 0 <= i < menu.len() && #[trigger] menu[i].1 == UIChoice::InRoom(RoomChoice::Leave)
                &&& forall|i: int| 0 <= i < menu.len() ==> #[trigger] menu[i].1 != UIChoice::InRoom(RoomChoice::GameOver)
            }
        }),
{
    let room = room_now(s);
    let a: MenuModel = if room.characters@.len() > 0 { seq![(l.talk@, UIChoice::InRoom(RoomChoice::Chat))] } else { Seq::empty() };
    let b: MenuModel = if room.actions@.len() > 0 { seq![(l.interact@, UIChoice::InRoom(RoomChoice::Interact))] } else { Seq::empty() };
    let menu = room_screen_of(s, l).3;
    if exit_directions(s).len() == 0 {
        let c: MenuModel = seq![(l.end_game@, UIChoice::InRoom(RoomChoice::GameOver))];
        assert(menu =~= a + b + c);
    } else {
        let inv: MenuModel = if s.progress().1 != Set::<crate::ids::ItemId>::empty() {
            seq![(l.view_inventory@, UIChoice::InRoom(RoomChoice::ViewInventory))]
        } else {
            Seq::empty()
        };
        let c: MenuModel = seq![(l.go_somewhere@, UIChoice::InRoom(RoomChoice::Leave))] + inv;
        assert(menu =~= a + b + c);
        assert(menu[(a.len() + b.len()) as int].1 == UIChoice::InRoom(RoomChoice::Leave));
    }
}

/// Where a choice on the room screen leads.
pub fn idle(choice: RoomChoice) -> (p: Player)
    ensures
        p == match choice {
            RoomChoice::Chat => Player::StartingChat,
            RoomChoice::Interact => Player::SelectingAction,
            RoomChoice::Leave => Player::Leaving,
            RoomChoice::GameOver => Player::GameOver,
            RoomChoice::ViewInventory => Player::ViewInventory,
        },
{
    match choice {
        RoomChoice::Chat => Player::StartingChat,
        RoomChoice::Interact => Player::SelectingAction,
        RoomChoice::Leave => Player::Leaving,
        RoomChoice::GameOver => Player::GameOver,
        RoomChoice::ViewInventory => Player::ViewInventory,
    }
}

/// The inventory screen: the descriptions of the items the player holds.
pub fn view_inventory_screen(state: &GameState) -> (s: MenuScreen)
    requires
        state.inv(),
    ensures
        screen_view(s).0 == state.world_of().language.inventory@,
        screen_view(s).2 == Seq::<char>::empty(),
        screen_view(s).3 == seq![(state.world_of().language.continue_game@, UIChoice::Continue)],
        screen_view(s).1 == seq!['-', ' '] + crate::ui::join(
            state.inventory_order().map_values(|i: crate::ids::ItemId| state.world_of().items@[i.0 as int].description@),
            seq!['\n', '-', ' '],
        ),
{
    let items = state.inventory();
    let language = state.language();
    assert(texts_view(items@) =~= state.inventory_order().map_values(
        |i: crate::ids::ItemId| state.world_of().items@[i.0 as int].description@,
    ));
    inventory_screen(&*language, items.as_slice())
}

/// After the inventory the player is back in the room.
pub fn view_inventory() -> (p: Player)
    ensures
        p == Player::Idle,
{
    Player::Idle
}

/// The screen for choosing whom to talk to.
pub fn starting_chat_screen(state: &GameState) -> (s: MenuScreen)
    requires
        state.inv(),
    ensures
        screen_view(s) == (
            room_now(*state).name@,
            room_now(*state).description@,
            state.world_of().language.choose_chat@,
            crate::ui::numbered(
                character_names(*state, room_now(*state).characters@),
                |i: usize| crate::ui::talk_to(i),
            ).push((state.world_of().language.cancel_chat@, UIChoice::StartChat(StartChatChoice::NoOne))),
        ),
{
    let room = state.current_room();
    let names = character_name_list(state, &room);
    let language = state.language();
    chat_targets_screen(&*language, room.name(), room.description(), names.as_slice())
}

/// Where a choice of whom to talk to leads: the talk with that
/// character from its first dialogue, or back to the room.
pub fn starting_chat(state: &GameState, choice: StartChatChoice) -> (p: Player)
    requires
        state.inv(),
        choice matches StartChatChoice::TalkTo(i) ==> i < room_now(*state).characters@.len(),
    ensures
        p == match choice {
            StartChatChoice::TalkTo(i) => Player::ChatWith(room_now(*state).characters@[i as int], None),
            StartChatChoice::NoOne => Player::Idle,
        },
{
    match choice {
        StartChatChoice::TalkTo(i) => {
            let room = state.current_room();
            let characters = room.characters();
            Player::ChatWith(characters[i].id(), None)
        },
        StartChatChoice::NoOne => Player::Idle,
    }
}

/// The dialogue a talk shows: the given one, or the character's first dialogue.
pub open spec fn dialogue_shown(s: GameState, character: CharacterId, dialogue: Option<DialogueId>) -> DialogueId {
    match dialogue {
        Some(d) => d,
        None => s.character_at(character).start_dialogue,
    }
}

/// The responses a talk offers.
pub open spec fn responses_offered(s: GameState, character: CharacterId, dialogue: Option<DialogueId>) -> Seq<ResponseId> {
    s.responses_shown(s.dialogue_at(dialogue_shown(s, character, dialogue)).responses@)
}

/// The responses the player may give in a talk, as views.
fn offered<'a>(state: &'a GameState, character: CharacterId, dialogue: Option<DialogueId>) -> (r: (Character<'a, GameState>, Dialogue<'a, GameState>, Vec<Response<'a, GameState>>))
    requires
        state.inv(),
        character.0 < state.character_count(),
        dialogue matches Some(d) ==> d.0 < state.dialogue_count(),
    ensures
        r.0.id_of() == character,
        r.0.valid(),
        r.0.db_of() == *state,
        r.1.id_of() == dialogue_shown(*state, character, dialogue),
        r.1.valid(),
        r.1.db_of() == *state,
        r.2@.len() == responses_offered(*state, character, dialogue).len(),
        forall|k: int|
            0 <= k < r.2@.len() ==> {
                &&& (#[trigger] r.2@[k]).id_of() == responses_offered(*state, character, dialogue)[k]
                &&& r.2@[k].db_of() == *state
                &&& r.2@[k].valid()
            },
{
    proof {
        state.lemma_views();
    }
    let c = Character::new(character, state);
    let d = match dialogue {
        Some(d) => Dialogue::new(d, state),
        None => c.start_dialogue(),
    };
    let responses = d.responses();
    (c, d, responses)
}

/// The texts of the responses a talk offers.
pub open spec fn response_texts(s: GameState, character: CharacterId, dialogue: Option<DialogueId>) -> Seq<Seq<char>> {
    responses_offered(s, character, dialogue).map_values(|r: ResponseId| s.response_at(r).text@)
}

/// The screen of a talk: the character's name, the dialogue and the responses offered,
/// or a way out when none is offered.
pub fn chat_with_screen(state: &GameState, character: CharacterId, dialogue: Option<DialogueId>) -> (s: MenuScreen)
    requires
        state.inv(),
        character.0 < state.character_count(),
        dialogue matches Some(d) ==> d.0 < state.dialogue_count(),
    ensures
        screen_view(s) == (
            state.character_at(character).name@,
            state.dialogue_at(dialogue_shown(*state, character, dialogue)).text@,
            state.world_of().language.choose_response@,
            if response_texts(*state, character, dialogue).len() == 0 {
                seq![(state.world_of().language.cancel_response@, UIChoice::InChat(ChatChoice::Leave))]
            } else {
                crate::ui::numbered(response_texts(*state, character, dialogue), |i: usize| crate::ui::respond_with(i))
            },
        ),
{
    let (c, d, responses) = offered(state, character, dialogue);
    let mut texts: Vec<String> = Vec::new();
    let mut i: usize = 0;
    while i < responses.len()
        invariant
            i <= responses@.len(),
            responses@.len() == responses_offered(*state, character, dialogue).len(),
            forall|k: int|
                0 <= k < responses@.len() ==> {
                    &&& (#[trigger] responses@[k]).id_of() == responses_offered(*state, character, dialogue)[k]
                    &&& responses@[k].db_of() == *state
                    &&& responses@[k].valid()
                },
            texts_view(texts@) == response_texts(*state, character, dialogue).take(i as int),
        decreases responses.len() - i,
    {
        let ghost before = texts_view(texts@);
        let t = crate::text::owned(responses[i].text());
        texts.push(t);
        assert(texts_view(texts@) =~= before.push(t@));
        assert(response_texts(*state, character, dialogue).take(i + 1) =~= response_texts(*state, character, dialogue).take(
            i as int,
        ).push(t@));
        i += 1;
    }
    assert(response_texts(*state, character, dialogue).take(responses@.len() as int) =~= response_texts(
        *state,
        character,
        dialogue,
    ));
    let language = state.language();
    chat_screen(&*language, c.name(), d.text(), texts.as_slice())
}

/// Where a response leads: to its action when it triggers one, else to
/// the dialogue it leads to, else back to the room; leaving the talk goes back to the room.
pub fn chat_with(state: &GameState, character: CharacterId, dialogue: Option<DialogueId>, choice: ChatChoice) -> (p: Player)
    requires
        state.inv(),
        character.0 < state.character_count(),
        dialogue matches Some(d) ==> d.0 < state.dialogue_count(),
        choice matches ChatChoice::RespondWith(i) ==> i < responses_offered(*state, character, dialogue).len(),
    ensures
        p == match choice {
            ChatChoice::RespondWith(i) => {
                let id = responses_offered(*state, character, dialogue)[i as int];
                let response = state.response_at(id);
                match response.triggers {
                    Some(a) => Player::DoActionInChatResponse(a, character, id),
                    None => match response.leads_to {
                        Some(d) => Player::ChatWith(character, Some(d)),
                        None => Player::Idle,
                    },
                }
            },
            ChatChoice::Leave => Player::Idle,
        },
{
    match choice {
        ChatChoice::RespondWith(i) => {
            let (c, _d, responses) = offered(state, character, dialogue);
            let response = &responses[i];
            match response.trigger() {
                Some(action) => Player::DoActionInChatResponse(action.into_id(), c.id(), response.id()),
                None => match response.leads_to() {
                    Some(d) => Player::ChatWith(c.id(), Some(d.id())),
                    None => Player::Idle,
                },
            }
        },
        ChatChoice::Leave => Player::Idle,
    }
}

/// The action a response triggers is taken, and the screen after it always reports it
/// done; the talk then goes on where the response leads.
pub fn do_action_in_chat_response(state: &mut GameState, action: ActionId, character: CharacterId, response: ResponseId) -> (r: (MenuScreen, Player))
    requires
        old(state).inv(),
        action.0 < old(state).action_count(),
        response.0 < old(state).response_count(),
    ensures
        final(state).inv(),
        exists|done: bool| old(state).acted(action, done, *final(state)),
        screen_view(r.0) == crate::ui::screen_view_of_action(
            *old(state).world_of().language,
            action_name(old(state).action_at(action)),
            action_description(old(state).action_at(action)),
            true,
        ),
        r.1 == match old(state).response_at(response).leads_to {
            Some(d) => Player::ChatWith(character, Some(d)),
            None => Player::Idle,
        },
{
    proof {
        state.lemma_views();
    }
    let a = Action::new(action, &*state);
    let name = a.name();
    let description = a.description();
    let language = state.language();
    let leads_to = Response::new(response, &*state).leads_to();
    let next = match leads_to {
        Some(d) => Player::ChatWith(character, Some(d.id())),
        None => Player::Idle,
    };
    Action::<GameState>::do_it(action, state);
    proof {
        state.lemma_views();
    }
    let screen = action_screen(&*language, name.as_str(), description.as_str(), true);
    (screen, next)
}

/// The screen for choosing an action.
pub fn selecting_action_screen(state: &GameState) -> (s: MenuScreen)
    requires
        state.inv(),
    ensures
        screen_view(s) == (
            room_now(*state).name@,
            room_now(*state).description@,
            state.world_of().language.choose_action@,
            crate::ui::numbered(
                crate::ui::titled(action_names(*state, room_now(*state).actions@)),
                |i: usize| crate::ui::do_action_choice(i),
            ).push(
                (
                    state.world_of().language.cancel_action@,
                    UIChoice::Interact(InteractionChoice::Nothing),
                ),
            ),
        ),
{
    let room = state.current_room();
    let names = action_name_list(state, &room);
    let language = state.language();
    action_select_screen(&*language, room.name(), room.description(), names.as_slice())
}

/// Where a choice of action leads.
pub fn selecting_action(state: &GameState, choice: InteractionChoice) -> (p: Player)
    requires
        state.inv(),
        choice matches InteractionChoice::Do(i) ==> i < room_now(*state).actions@.len(),
    ensures
        p == match choice {
            InteractionChoice::Do(i) => Player::DoingAction(room_now(*state).actions@[i as int]),
            InteractionChoice::Nothing => Player::Idle,
        },
{
    match choice {
        InteractionChoice::Do(i) => {
            let room = state.current_room();
            let actions = room.actions();
            Player::DoingAction(actions[i].id())
        },
        InteractionChoice::Nothing => Player::Idle,
    }
}

/// The action is tried, the screen after it says whether it worked, and the player is
/// back in the room.
pub fn doing_action(state: &mut GameState, action: ActionId) -> (r: (MenuScreen, Player))
    requires
        old(state).inv(),
        action.0 < old(state).action_count(),
    ensures
        final(state).inv(),
        exists|done: bool|
            #![trigger old(state).acted(action, done, *final(state))]
            old(state).acted(action, done, *final(state)) && screen_view(r.0) == crate::ui::screen_view_of_action(
                *old(state).world_of().language,
                action_name(old(state).action_at(action)),
                action_description(old(state).action_at(action)),
                done,
            ),
        r.1 == Player::Idle,
{
    proof {
        state.lemma_views();
    }
    let a = Action::new(action, &*state);
    let name = a.name();
    let description = a.description();
    let language = state.language();
    let done = Action::<GameState>::do_it(action, state);
    proof {
        state.lemma_views();
    }
    let screen = action_screen(&*language, name.as_str(), description.as_str(), done);
    (screen, Player::Idle)
}

/// The screen for choosing an exit.
pub fn leaving_screen(state: &GameState) -> (s: MenuScreen)
    requires
        state.inv(),
    ensures
        screen_view(s) == (
            room_now(*state).name@,
            room_now(*state).description@,
            state.world_of().language.choose_exit@,
            crate::ui::numbered(crate::ui::titled(exit_directions(*state)), |i: usize| crate::ui::go_to(i)).push(
                (state.world_of().language.cancel_exit@, UIChoice::Leave(LeaveChoice::Stay)),
            ),
        ),
{
    let room = state.current_room();
    let names = exit_direction_list(state, &room);
    let language = state.language();
    exit_select_screen(&*language, room.name(), room.description(), names.as_slice())
}

/// Where a choice of exit leads: through the chosen exit into its room, or
/// nowhere; either way the player is back at the room screen.
pub fn leaving(state: &mut GameState, choice: LeaveChoice) -> (p: Player)
    requires
        old(state).inv(),
        choice matches LeaveChoice::GoTo(i) ==> i < exit_directions(*old(state)).len(),
    ensures
        final(state).inv(),
        p == Player::Idle,
        match choice {
            LeaveChoice::GoTo(i) => old(state).entered(
                RoomId(exit_entries(room_now(*old(state)).exits)[i as int].1),
                *final(state),
            ),
            LeaveChoice::Stay => *final(state) == *old(state),
        },
{
    proof {
        state.lemma_views();
    }
    match choice {
        LeaveChoice::GoTo(i) => {
            let target = {
                let room = state.current_room();
                let exits = room.exits();
                exits[i].room().id()
            };
            Room::<GameState>::enter(target, state);
            proof {
                state.lemma_views();
            }
            Player::Idle
        },
        LeaveChoice::Stay => Player::Idle,
    }
}

/// The game ends with the credits when the player is in a room without exits.
pub fn ends_with_credits(state: &GameState) -> (b: bool)
    requires
        state.inv(),
    ensures
        b == (exit_entries(room_now(*state).exits).len() == 0),
{
    state.current_room().is_trap()
}

} // verus!
