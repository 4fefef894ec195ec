//! The classified card record and its closed enumerations.

use vstd::prelude::*;

verus! {

/// Rarity tier of a card, derived from its influence cost (see `classify`).
#[derive(Debug, Copy, Clone, PartialEq, Eq, Structural)]
pub enum Rarity {
    Rare,
    Uncommon,
    Common,
    Agenda,
}

/// The two sides of play.
#[derive(Debug, Copy, Clone, PartialEq, Eq, Structural)]
pub enum Side {
    Runner,
    Corp,
}

/// Card type, a closed set; identity cards are filtered out before this
/// enumeration is reached.
#[derive(Debug, Copy, Clone, PartialEq, Eq, Structural)]
pub enum CardType {
    Event,
    Resource,
    Program,
    Hardware,
    Agenda,
    Asset,
    Ice,
    Operation,
    Upgrade,
}

/// Faction of a card; both sides' neutral identifiers map to `Neutral`.
#[derive(Debug, Copy, Clone, PartialEq, Eq, Structural)]
pub enum Faction {
    Neutral,
    Anarch,
    Criminal,
    Shaper,
    Jinteki,
    HaasBioroid,
    NBN,
    WeylandConsortium,
}

/// One catalog entry: a card's display name and its classification along the
/// four enumerated dimensions. Immutable once the catalog is built.
#[derive(Debug)]
pub struct Card {
    pub name: String,
    pub card_type: CardType,
    pub rarity: Rarity,
    pub side: Side,
    pub faction: Faction,
}

/// Whether a card satisfies a slot filter: side and rarity must match, and
/// the faction must match whenever the filter names one.
pub open spec fn card_matches(c: Card, side: Side, rarity: Rarity, faction: Option<Faction>) -> bool {
    &&& c.side == side
    &&& c.rarity == rarity
    &&& match faction {
        Some(f) => c.faction == f,
        None => true,
    }
}

} // verus!
