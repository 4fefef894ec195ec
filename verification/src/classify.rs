//! Classification of raw catalog records into `Card` values.
//!
//! A raw record carries the plain string and numeric fields of one card's
//! data file. Classification either keeps the record (mapping each field
//! through a closed enumeration), skips it (unofficial, denylisted or an
//! identity card), or reports a fatal data error naming the offending value
//! and the card.

use vstd::prelude::*;
use crate::cards::{Card, CardType, Faction, Rarity, Side};
use crate::text::str_eq;

verus! {

/// The plain fields of one raw per-card data record.
pub struct RawCard {
    /// Publisher/designer identifier; only officially released records are kept.
    pub designed_by: String,
    /// Display name, used as the card's unique identifier.
    pub name: String,
    /// Card-type identifier string.
    pub card_type_id: String,
    /// Influence cost, absent for some records.
    pub influence_cost: Option<i64>,
    /// Side identifier string.
    pub side_id: String,
    /// Faction identifier string.
    pub faction_id: String,
}

/// A fatal catalog data error: an unrecognized enumerated value, reported
/// with the raw value and the card's display name.
#[derive(Debug)]
pub enum CatalogError {
    UnknownCardType { value: String, name: String },
    UnknownRarity { value: Option<i64>, name: String },
    UnknownSide { value: String, name: String },
    UnknownFaction { value: String, name: String },
}

/// Card-type identifiers that name identity cards; these are never part of
/// a pack pool and their records are skipped.
pub open spec fn spec_is_identity(s: Seq<char>) -> bool {
    s == "runner_identity"@ || s == "corp_identity"@
}

/// The closed card-type mapping; `None` is a fatal data error.
pub open spec fn spec_card_type(s: Seq<char>) -> Option<CardType> {
    if s == "event"@ {
        Some(CardType::Event)
    } else if s == "resource"@ {
        Some(CardType::Resource)
    } else if s == "program"@ {
        Some(CardType::Program)
    } else if s == "hardware"@ {
        Some(CardType::Hardware)
    } else if s == "agenda"@ {
        Some(CardType::Agenda)
    } else if s == "asset"@ {
        Some(CardType::Asset)
    } else if s == "ice"@ {
        Some(CardType::Ice)
    } else if s == "operation"@ {
        Some(CardType::Operation)
    } else if s == "upgrade"@ {
        Some(CardType::Upgrade)
    } else {
        None
    }
}

/// The closed side mapping; `None` is a fatal data error.
pub open spec fn spec_side(s: Seq<char>) -> Option<Side> {
    if s == "runner"@ {
        Some(Side::Runner)
    } else if s == "corp"@ {
        Some(Side::Corp)
    } else {
        None
    }
}

/// The closed faction mapping; both neutral identifiers map to `Neutral`;
/// `None` is a fatal data error.
pub open spec fn spec_faction(s: Seq<char>) -> Option<Faction> {
    if s == "neutral_runner"@ || s == "neutral_corp"@ {
        Some(Faction::Neutral)
    } else if s == "anarch"@ {
        Some(Faction::Anarch)
    } else if s == "criminal"@ {
        Some(Faction::Criminal)
    } else if s == "shaper"@ {
        Some(Faction::Shaper)
    } else if s == "jinteki"@ {
        Some(Faction::Jinteki)
    } else if s == "haas_bioroid"@ {
        Some(Faction::HaasBioroid)
    } else if s == "nbn"@ {
        Some(Faction::NBN)
    } else if s == "weyland_consortium"@ {
        Some(Faction::WeylandConsortium)
    } else {
        None
    }
}

/// Named cards that are always excluded from the catalog (data-quality
/// denylist).
pub open spec fn spec_denylisted(name: Seq<char>) -> bool {
    name == "Direct Access"@ || name == "Jeitinho"@
}

/// Explicit rarity patches for named cards whose influence cost does not
/// reflect their true rarity.
pub open spec fn spec_rarity_override(name: Seq<char>) -> Option<Rarity> {
    if name == "Tribuatry"@ {
        Some(Rarity::Rare)
    } else if name == "Gold Farmer"@ {
        Some(Rarity::Rare)
    } else if name == "Rezeki"@ {
        Some(Rarity::Uncommon)
    } else if name == "Nanisivik Grid"@ {
        Some(Rarity::Rare)
    } else if name == "Engram Flush"@ {
        Some(Rarity::Rare)
    } else {
        None
    }
}

/// Rarity derivation: named overrides first, then Agenda-typed cards always
/// receive `Agenda`, then the influence-cost bands 0-2 / 3 / 4-5; anything
/// else is a fatal data error.
pub open spec fn spec_rarity(name: Seq<char>, influence: Option<i64>, ct: CardType) -> Option<Rarity> {
    if spec_rarity_override(name) is Some {
        spec_rarity_override(name)
    } else if ct == CardType::Agenda {
        Some(Rarity::Agenda)
    } else {
        match influence {
            Some(n) => if 0 <= n <= 2 {
                Some(Rarity::Common)
            } else if n == 3 {
                Some(Rarity::Uncommon)
            } else if 4 <= n <= 5 {
                Some(Rarity::Rare)
            } else {
                None
            },
            None => None,
        }
    }
}

/// A record is skipped (not an error) when it is not officially released,
/// denylisted by name, or an identity card.
pub open spec fn spec_skipped(raw: RawCard) -> bool {
    ||| raw.designed_by@ != "null_signal_games"@
    ||| spec_denylisted(raw.name@)
    ||| spec_is_identity(raw.card_type_id@)
}

/// Exactly which error a non-skipped record produces: the first unrecognized
/// field in the order type, rarity, side, faction, reported with the raw
/// value and the display name.
pub open spec fn spec_classify_err(raw: RawCard, e: CatalogError) -> bool {
    if spec_card_type(raw.card_type_id@) is None {
        &&& e matches CatalogError::UnknownCardType { value, name }
        &&& value@ == raw.card_type_id@
        &&& name@ == raw.name@
    } else if spec_rarity(raw.name@, raw.influence_cost, spec_card_type(raw.card_type_id@)->Some_0) is None {
        &&& e matches CatalogError::UnknownRarity { value, name }
        &&& value == raw.influence_cost
        &&& name@ == raw.name@
    } else if spec_side(raw.side_id@) is None {
        &&& e matches CatalogError::UnknownSide { value, name }
        &&& value@ == raw.side_id@
        &&& name@ == raw.name@
    } else if spec_faction(raw.faction_id@) is None {
        &&& e matches CatalogError::UnknownFaction { value, name }
        &&& value@ == raw.faction_id@
        &&& name@ == raw.name@
    } else {
        false
    }
}

/// Whether some field of a non-skipped record fails to classify.
pub open spec fn spec_has_error(raw: RawCard) -> bool {
    ||| spec_card_type(raw.card_type_id@) is None
    ||| spec_rarity(raw.name@, raw.influence_cost, spec_card_type(raw.card_type_id@)->Some_0) is None
    ||| spec_side(raw.side_id@) is None
    ||| spec_faction(raw.faction_id@) is None
}

/// Parse a card-type identifier into the closed set; identity identifiers
/// are skipped by the classifier before the type is derived.
pub fn parse_card_type(s: &str) -> (r: Option<CardType>)
    ensures
        r == spec_card_type(s@),
{
    if str_eq(s, "event") {
        Some(CardType::Event)
    } else if str_eq(s, "resource") {
        Some(CardType::Resource)
    } else if str_eq(s, "program") {
        Some(CardType::Program)
    } else if str_eq(s, "hardware") {
        Some(CardType::Hardware)
    } else if str_eq(s, "agenda") {
        Some(CardType::Agenda)
    } else if str_eq(s, "asset") {
        Some(CardType::Asset)
    } else if str_eq(s, "ice") {
        Some(CardType::Ice)
    } else if str_eq(s, "operation") {
        Some(CardType::Operation)
    } else if str_eq(s, "upgrade") {
        Some(CardType::Upgrade)
    } else {
        None
    }
}

/// Parse a side identifier.
pub fn parse_side(s: &str) -> (r: Option<Side>)
    ensures
        r == spec_side(s@),
{
    if str_eq(s, "runner") {
        Some(Side::Runner)
    } else if str_eq(s, "corp") {
        Some(Side::Corp)
    } else {
        None
    }
}

/// Parse a faction identifier.
pub fn parse_faction(s: &str) -> (r: Option<Faction>)
    ensures
        r == spec_faction(s@),
{
    if str_eq(s, "neutral_runner") || str_eq(s, "neutral_corp") {
        Some(Faction::Neutral)
    } else if str_eq(s, "anarch") {
        Some(Faction::Anarch)
    } else if str_eq(s, "criminal") {
        Some(Faction::Criminal)
    } else if str_eq(s, "shaper") {
        Some(Faction::Shaper)
    } else if str_eq(s, "jinteki") {
        Some(Faction::Jinteki)
    } else if str_eq(s, "haas_bioroid") {
        Some(Faction::HaasBioroid)
    } else if str_eq(s, "nbn") {
        Some(Faction::NBN)
    } else if str_eq(s, "weyland_consortium") {
        Some(Faction::WeylandConsortium)
    } else {
        None
    }
}

/// Derive the rarity of a card from its name, influence cost and type.
pub fn derive_rarity(name: &str, influence: Option<i64>, ct: CardType) -> (r: Option<Rarity>)
    ensures
        r == spec_rarity(name@, influence, ct),
{
    if str_eq(name, "Tribuatry") {
        Some(Rarity::Rare)
    } else if str_eq(name, "Gold Farmer") {
        Some(Rarity::Rare)
    } else if str_eq(name, "Rezeki") {
        Some(Rarity::Uncommon)
    } else if str_eq(name, "Nanisivik Grid") {
        Some(Rarity::Rare)
    } else if str_eq(name, "Engram Flush") {
        Some(Rarity::Rare)
    } else if ct == CardType::Agenda {
        Some(Rarity::Agenda)
    } else {
        match influence {
            Some(n) => if 0 <= n && n <= 2 {
                Some(Rarity::Common)
            } else if n == 3 {
                Some(Rarity::Uncommon)
            } else if 4 <= n && n <= 5 {
                Some(Rarity::Rare)
            } else {
                None
            },
            None => None,
        }
    }
}

/// Classify one raw record: `Ok(None)` when the record is skipped,
/// `Ok(Some(card))` when every field classifies, and the exact error for the
/// first field that does not.
pub fn classify_card(raw: RawCard) -> (r: Result<Option<Card>, CatalogError>)
    ensures
        spec_skipped(raw) ==> (r matches Ok(c) && c is None),
        !spec_skipped(raw) ==> (r is Err <==> spec_has_error(raw)),
        !spec_skipped(raw) ==> match r {
            Ok(c) => {
                &&& c matches Some(card)
                &&& card.name@ == raw.name@
                &&& Some(card.card_type) == spec_card_type(raw.card_type_id@)
                &&& Some(card.rarity) == spec_rarity(raw.name@, raw.influence_cost, card.card_type)
                &&& Some(card.side) == spec_side(raw.side_id@)
                &&& Some(card.faction) == spec_faction(raw.faction_id@)
            },
            Err(e) => spec_classify_err(raw, e),
        },
{
    if !str_eq(raw.designed_by.as_str(), "null_signal_games") {
        return Ok(None);
    }
    if str_eq(raw.name.as_str(), "Direct Access") || str_eq(raw.name.as_str(), "Jeitinho") {
        return Ok(None);
    }
    if str_eq(raw.card_type_id.as_str(), "runner_identity")
        || str_eq(raw.card_type_id.as_str(), "corp_identity") {
        return Ok(None);
    }
    let card_type = match parse_card_type(raw.card_type_id.as_str()) {
        Some(t) => t,
        None => {
            return Err(CatalogError::UnknownCardType { value: raw.card_type_id, name: raw.name });
        },
    };
    let rarity = match derive_rarity(raw.name.as_str(), raw.influence_cost, card_type) {
        Some(t) => t,
        None => {
            return Err(CatalogError::UnknownRarity { value: raw.influence_cost, name: raw.name });
        },
    };
    let side = match parse_side(raw.side_id.as_str()) {
        Some(t) => t,
        None => {
            return Err(CatalogError::UnknownSide { value: raw.side_id, name: raw.name });
        },
    };
    let faction = match parse_faction(raw.faction_id.as_str()) {
        Some(t) => t,
        None => {
            return Err(CatalogError::UnknownFaction { value: raw.faction_id, name: raw.name });
        },
    };
    Ok(Some(Card { name: raw.name, card_type, rarity, side, faction }))
}

} // verus!
