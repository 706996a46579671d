//! The entities of a game world: the raw form read from the configuration (names)
//! and the runtime form (typed indices).

use indexmap::IndexMap;
use vstd::prelude::*;

use crate::ids::{ActionId, CharacterId, DialogueId, ItemId, ResponseId, RoomId, RoomVariantId};
use crate::names::{Identifier, ThemeColor, Title};

verus! {

// ---------------------------------------------------------------- items and rooms

#[derive(Debug)]
pub struct Item {
    pub name: Identifier,
    pub description: String,
}

impl Item {
    pub fn new(name: Identifier, description: String) -> (r: Item)
        ensures
            r.name == name && r.description == description,
    {
        Item { name, description }
    }

    pub fn name(&self) -> (r: &Identifier)
        ensures
            *r == self.name,
    {
        &self.name
    }

    pub fn description(&self) -> (r: &String)
        ensures
            *r == self.description,
    {
        &self.description
    }
}

#[derive(Debug)]
pub struct RoomRaw {
    pub name: Title,
    pub variant: Option<Identifier>,
    pub description: String,
    pub characters: Vec<Title>,
    pub exits: IndexMap<Identifier, Title>,
    pub actions: Vec<Identifier>,
}

/// All variants of one room; the default variant comes first.
pub type RoomEntity = Vec<RoomVariantEntity>;

#[derive(Debug)]
pub struct RoomVariantEntity {
    pub name: String,
    pub description: String,
    pub characters: Vec<CharacterId>,
    pub exits: IndexMap<Identifier, RoomId>,
    pub actions: Vec<ActionId>,
}

// ---------------------------------------------------------------- actions

#[derive(Debug)]
pub struct ChangeRoomRaw {
    pub name: Identifier,
    pub description: String,
    pub required: Option<Identifier>,
    pub room: Title,
    pub variant: Option<Identifier>,
}

#[derive(Debug, Clone, PartialEq, Eq, Hash)]
pub struct ChangeRoom {
    pub name: String,
    pub description: String,
    pub required: Option<ItemId>,
    pub room: RoomId,
    pub variant: Option<RoomVariantId>,
}

#[derive(Debug)]
pub struct ReplaceItemRaw {
    pub name: Identifier,
    pub description: String,
    pub original: Identifier,
    pub replacement: Identifier,
}

#[derive(Debug, Clone, PartialEq, Eq, Hash)]
pub struct ReplaceItem {
    pub name: String,
    pub description: String,
    pub original: ItemId,
    pub replacement: ItemId,
}

#[derive(Debug)]
pub struct GiveItemRaw {
    pub name: Identifier,
    pub description: String,
    pub required: Option<Identifier>,
    pub items: Vec<Identifier>,
}

#[derive(Debug, Clone, PartialEq, Eq, Hash)]
pub struct GiveItem {
    pub name: String,
    pub description: String,
    pub required: Option<ItemId>,
    pub items: Vec<ItemId>,
}

#[derive(Debug)]
pub struct TakeItemRaw {
    pub name: Identifier,
    pub description: String,
    pub items: Vec<Identifier>,
}

#[derive(Debug, Clone, PartialEq, Eq, Hash)]
pub struct TakeItem {
    pub name: String,
    pub description: String,
    pub items: Vec<ItemId>,
}

#[derive(Debug)]
pub struct TeleportRaw {
    pub name: Identifier,
    pub description: String,
    pub required: Option<Identifier>,
    pub room: Title,
}

#[derive(Debug, Clone, PartialEq, Eq, Hash)]
pub struct Teleport {
    pub name: String,
    pub description: String,
    pub required: Option<ItemId>,
    pub room: RoomId,
}

#[derive(Debug)]
pub struct SequenceRaw {
    pub name: Identifier,
    pub description: String,
    pub required: Option<Identifier>,
    pub actions: Vec<Identifier>,
}

#[derive(Debug, Clone, PartialEq, Eq, Hash)]
pub struct Sequence {
    pub name: String,
    pub description: String,
    pub required: Option<ItemId>,
    pub actions: Vec<ActionId>,
}

#[derive(Debug)]
pub enum ActionRaw {
    ChangeRoom(ChangeRoomRaw),
    GiveItem(GiveItemRaw),
    ReplaceItem(ReplaceItemRaw),
    TakeItem(TakeItemRaw),
    Teleport(TeleportRaw),
    Sequence(SequenceRaw),
}

/// The name of a raw action, whatever its kind.
pub open spec fn raw_action_name(a: ActionRaw) -> Identifier {
    match a {
        ActionRaw::ChangeRoom(c) => c.name,
        ActionRaw::GiveItem(g) => g.name,
        ActionRaw::ReplaceItem(r) => r.name,
        ActionRaw::TakeItem(t) => t.name,
        ActionRaw::Teleport(t) => t.name,
        ActionRaw::Sequence(s) => s.name,
    }
}

impl ActionRaw {
    pub fn name(&self) -> (r: &Identifier)
        ensures
            *r == raw_action_name(*self),
    {
        match self {
            ActionRaw::ChangeRoom(change_room) => &change_room.name,
            ActionRaw::GiveItem(give_item) => &give_item.name,
            ActionRaw::ReplaceItem(replace_item) => &replace_item.name,
            ActionRaw::TakeItem(take_item) => &take_item.name,
            ActionRaw::Teleport(teleport) => &teleport.name,
            ActionRaw::Sequence(chain) => &chain.name,
        }
    }
}

#[derive(Debug, Clone, PartialEq, Eq)]
pub enum ActionEntity {
    ChangeRoom(ChangeRoom),
    GiveItem(GiveItem),
    ReplaceItem(ReplaceItem),
    TakeItem(TakeItem),
    Teleport(Teleport),
    Sequence(Sequence),
}

/// The name of an action, whatever its kind.
pub open spec fn action_name(a: ActionEntity) -> Seq<char> {
    match a {
        ActionEntity::ChangeRoom(c) => c.name@,
        ActionEntity::GiveItem(g) => g.name@,
        ActionEntity::ReplaceItem(r) => r.name@,
        ActionEntity::TakeItem(t) => t.name@,
        ActionEntity::Teleport(t) => t.name@,
        ActionEntity::Sequence(s) => s.name@,
    }
}

/// The description of an action, whatever its kind.
pub open spec fn action_description(a: ActionEntity) -> Seq<char> {
    match a {
        ActionEntity::ChangeRoom(c) => c.description@,
        ActionEntity::GiveItem(g) => g.description@,
        ActionEntity::ReplaceItem(r) => r.description@,
        ActionEntity::TakeItem(t) => t.description@,
        ActionEntity::Teleport(t) => t.description@,
        ActionEntity::Sequence(s) => s.description@,
    }
}

// ---------------------------------------------------------------- characters and talk

#[derive(Debug, PartialEq, Eq)]
pub enum Requirement {
    HasItem(ItemId),
    RoomVariant(RoomId, Option<RoomVariantId>),
    DoesNotHave(ItemId),
}

#[derive(Debug)]
pub enum RequirementRaw {
    HasItem(Identifier),
    RoomVariant(Title, Option<Identifier>),
    DoesNotHave(Identifier),
}

#[derive(Debug)]
pub struct CharacterRaw {
    pub name: Title,
    pub start_dialogue: Identifier,
}

#[derive(Debug, Hash, PartialEq, Eq)]
pub struct CharacterEntity {
    pub name: String,
    pub start_dialogue: DialogueId,
}

#[derive(Debug)]
pub struct DialogueRaw {
    pub name: Identifier,
    pub variant: Option<Identifier>,
    pub text: String,
    pub responses: Vec<Identifier>,
    pub requires: Vec<RequirementRaw>,
}

/// All variants of one dialogue; the default variant comes first.
pub type DialogueEntity = Vec<DialogueVariantEntity>;

#[derive(Debug, PartialEq, Eq)]
pub struct DialogueVariantEntity {
    pub text: String,
    pub responses: Vec<ResponseId>,
    pub requires: Vec<Requirement>,
}

#[derive(Debug)]
pub struct ResponseRaw {
    pub name: Identifier,
    pub text: String,
    pub leads_to: Option<Identifier>,
    pub triggers: Option<Identifier>,
    pub requires: Vec<RequirementRaw>,
}

#[derive(Debug, PartialEq, Eq)]
pub struct ResponseEntity {
    pub text: String,
    pub leads_to: Option<DialogueId>,
    pub triggers: Option<ActionId>,
    pub requires: Vec<Requirement>,
}

// ---------------------------------------------------------------- title screen, theme, language

#[derive(Debug)]
pub struct GameTitleRaw {
    pub title: String,
    pub greeting: String,
    pub credits: String,
    pub start_room: Title,
}

#[derive(Debug, PartialEq, Eq)]
pub struct GameTitle {
    pub title: String,
    pub greeting: String,
    pub credits: String,
    pub start_room: RoomId,
}

impl GameTitle {
    pub fn title(&self) -> (r: &String)
        ensures
            *r == self.title,
    {
        &self.title
    }

    pub fn greeting(&self) -> (r: &String)
        ensures
            *r == self.greeting,
    {
        &self.greeting
    }

    pub fn credits(&self) -> (r: &String)
        ensures
            *r == self.credits,
    {
        &self.credits
    }

    pub fn start_room(&self) -> (r: &RoomId)
        ensures
            *r == self.start_room,
    {
        &self.start_room
    }
}

#[derive(Debug, PartialEq, Eq)]
pub struct Theme {
    pub title: ThemeColor,
    pub heading: ThemeColor,
    pub background: ThemeColor,
    pub text: ThemeColor,
    pub highlight: ThemeColor,
    pub highlight_text: ThemeColor,
    pub subdued: ThemeColor,
}

#[derive(Debug, PartialEq, Eq)]
pub struct Language {
    pub characters_found: String,
    pub exits_found: String,
    pub talk: String,
    pub interact: String,
    pub go_somewhere: String,
    pub view_inventory: String,
    pub inventory: String,
    pub end_game: String,
    pub choose_exit: String,
    pub cancel_exit: String,
    pub choose_chat: String,
    pub cancel_chat: String,
    pub choose_response: String,
    pub cancel_response: String,
    pub choose_action: String,
    pub cancel_action: String,
    pub action_failed: String,
    pub continue_game: String,
    pub press_q_to_quit: String,
}

} // verus!
