//! Typed indices into the tables of a `World`.

use vstd::prelude::*;

verus! {

/// Index of an item.
#[derive(Debug, Clone, Copy, Hash, PartialEq, Eq, Structural, PartialOrd, Ord)]
pub struct ItemId(pub usize);

/// Index of a room (all of its variants share it).
#[derive(Debug, Clone, Copy, Hash, PartialEq, Eq, Structural, PartialOrd, Ord)]
pub struct RoomId(pub usize);

/// Index of a variant within a room; 0 is the default variant.
#[derive(Debug, Clone, Copy, Hash, PartialEq, Eq, Structural, PartialOrd, Ord)]
pub struct RoomVariantId(pub usize);

/// Index of an action.
#[derive(Debug, Clone, Copy, Hash, PartialEq, Eq, Structural, PartialOrd, Ord)]
pub struct ActionId(pub usize);

/// Index of a character.
#[derive(Debug, Clone, Copy, Hash, PartialEq, Eq, Structural, PartialOrd, Ord)]
pub struct CharacterId(pub usize);

/// Index of a dialogue (all of its variants share it).
#[derive(Debug, Clone, Copy, Hash, PartialEq, Eq, Structural, PartialOrd, Ord)]
pub struct DialogueId(pub usize);

/// Index of a variant within a dialogue; 0 is the default variant.
#[derive(Debug, Clone, Copy, Hash, PartialEq, Eq, Structural, PartialOrd, Ord)]
pub struct DialogueVariantId(pub usize);

/// Index of a response.
#[derive(Debug, Clone, Copy, Hash, PartialEq, Eq, Structural, PartialOrd, Ord)]
pub struct ResponseId(pub usize);

} // verus!
