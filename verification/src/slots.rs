//! Slot specifications: the declarative description of one pick, and the two
//! sides' fixed constraint sequences.

use vstd::prelude::*;
use crate::cards::{CardType, Faction, Rarity, Side};

verus! {

/// One required pick: a side/rarity/optional-faction filter, the tracked
/// `(type, soft limit)` pairs, and the pack-wide overage budget that
/// triggers cascading exclusion.
pub struct Slot {
    pub side: Side,
    pub rarity: Rarity,
    pub faction: Option<Faction>,
    pub soft_limits: Vec<(CardType, usize)>,
    pub hard_limit: usize,
}

impl Slot {
    /// The filter triple of this slot.
    pub open spec fn filter(self) -> (Side, Rarity, Option<Faction>) {
        (self.side, self.rarity, self.faction)
    }
}

/// Tracked type limits for runner packs.
pub open spec fn runner_soft_limits() -> Seq<(CardType, usize)> {
    seq![
        (CardType::Event, 2usize),
        (CardType::Resource, 2usize),
        (CardType::Program, 2usize),
        (CardType::Hardware, 1usize),
    ]
}

/// Tracked type limits for corp packs.
pub open spec fn corp_soft_limits() -> Seq<(CardType, usize)> {
    seq![
        (CardType::Asset, 2usize),
        (CardType::Ice, 2usize),
        (CardType::Operation, 2usize),
        (CardType::Agenda, 2usize),
    ]
}

/// Overage budget for runner packs.
pub open spec fn runner_hard_limit() -> usize {
    3
}

/// Overage budget for corp packs.
pub open spec fn corp_hard_limit() -> usize {
    2
}

/// The fixed runner-side filter sequence.
pub open spec fn runner_filters() -> Seq<(Side, Rarity, Option<Faction>)> {
    seq![
        (Side::Runner, Rarity::Rare, None),
        (Side::Runner, Rarity::Uncommon, Some(Faction::Anarch)),
        (Side::Runner, Rarity::Uncommon, Some(Faction::Criminal)),
        (Side::Runner, Rarity::Uncommon, Some(Faction::Shaper)),
        (Side::Runner, Rarity::Common, Some(Faction::Anarch)),
        (Side::Runner, Rarity::Common, Some(Faction::Criminal)),
        (Side::Runner, Rarity::Common, Some(Faction::Shaper)),
        (Side::Runner, Rarity::Common, None),
        (Side::Runner, Rarity::Common, None),
        (Side::Runner, Rarity::Common, None),
    ]
}

/// The corp-side filter sequence: the Agenda and Uncommon slots go to the
/// first two factions of the per-pack shuffled order.
pub open spec fn corp_filters(a0: Faction, a1: Faction) -> Seq<(Side, Rarity, Option<Faction>)> {
    seq![
        (Side::Corp, Rarity::Rare, None),
        (Side::Corp, Rarity::Agenda, Some(a0)),
        (Side::Corp, Rarity::Agenda, Some(a1)),
        (Side::Corp, Rarity::Uncommon, Some(a0)),
        (Side::Corp, Rarity::Uncommon, Some(a1)),
        (Side::Corp, Rarity::Common, Some(Faction::HaasBioroid)),
        (Side::Corp, Rarity::Common, Some(Faction::WeylandConsortium)),
        (Side::Corp, Rarity::Common, Some(Faction::Jinteki)),
        (Side::Corp, Rarity::Common, Some(Faction::NBN)),
        (Side::Corp, Rarity::Common, None),
    ]
}

/// The four non-neutral corp factions, in their unshuffled order.
pub open spec fn corp_faction_pool() -> Seq<Faction> {
    seq![Faction::HaasBioroid, Faction::WeylandConsortium, Faction::Jinteki, Faction::NBN]
}

/// A slot sequence realizes a filter sequence with one shared limit table.
pub open spec fn slots_realize(
    slots: Seq<Slot>,
    filters: Seq<(Side, Rarity, Option<Faction>)>,
    soft_limits: Seq<(CardType, usize)>,
    hard_limit: usize,
) -> bool {
    &&& slots.len() == filters.len()
    &&& forall|j: int| 0 <= j < slots.len() ==> #[trigger] slots[j].filter() == filters[j]
    &&& forall|j: int| 0 <= j < slots.len()
        ==> (#[trigger] slots[j].soft_limits@) == soft_limits && slots[j].hard_limit == hard_limit
}

fn runner_limit_table() -> (v: Vec<(CardType, usize)>)
    ensures
        v@ == runner_soft_limits(),
{
    let mut v: Vec<(CardType, usize)> = Vec::new();
    v.push((CardType::Event, 2));
    v.push((CardType::Resource, 2));
    v.push((CardType::Program, 2));
    v.push((CardType::Hardware, 1));
    proof {
        assert(v@ =~= runner_soft_limits());
    }
    v
}

fn corp_limit_table() -> (v: Vec<(CardType, usize)>)
    ensures
        v@ == corp_soft_limits(),
{
    let mut v: Vec<(CardType, usize)> = Vec::new();
    v.push((CardType::Asset, 2));
    v.push((CardType::Ice, 2));
    v.push((CardType::Operation, 2));
    v.push((CardType::Agenda, 2));
    proof {
        assert(v@ =~= corp_soft_limits());
    }
    v
}

fn runner_slot(rarity: Rarity, faction: Option<Faction>) -> (s: Slot)
    ensures
        s.filter() == (Side::Runner, rarity, faction),
        s.soft_limits@ == runner_soft_limits(),
        s.hard_limit == runner_hard_limit(),
{
    Slot {
        side: Side::Runner,
        rarity,
        faction,
        soft_limits: runner_limit_table(),
        hard_limit: 3,
    }
}

fn corp_slot(rarity: Rarity, faction: Option<Faction>) -> (s: Slot)
    ensures
        s.filter() == (Side::Corp, rarity, faction),
        s.soft_limits@ == corp_soft_limits(),
        s.hard_limit == corp_hard_limit(),
{
    Slot {
        side: Side::Corp,
        rarity,
        faction,
        soft_limits: corp_limit_table(),
        hard_limit: 2,
    }
}

/// The runner-side constraint sequence.
pub fn runner_slots() -> (s: Vec<Slot>)
    ensures
        slots_realize(s@, runner_filters(), runner_soft_limits(), runner_hard_limit()),
{
    let mut s: Vec<Slot> = Vec::new();
    s.push(runner_slot(Rarity::Rare, None));
    s.push(runner_slot(Rarity::Uncommon, Some(Faction::Anarch)));
    s.push(runner_slot(Rarity::Uncommon, Some(Faction::Criminal)));
    s.push(runner_slot(Rarity::Uncommon, Some(Faction::Shaper)));
    s.push(runner_slot(Rarity::Common, Some(Faction::Anarch)));
    s.push(runner_slot(Rarity::Common, Some(Faction::Criminal)));
    s.push(runner_slot(Rarity::Common, Some(Faction::Shaper)));
    s.push(runner_slot(Rarity::Common, None));
    s.push(runner_slot(Rarity::Common, None));
    s.push(runner_slot(Rarity::Common, None));
    s
}

/// The corp-side constraint sequence, with the Agenda and paired Uncommon
/// slots assigned to the first two factions of the shuffled order.
pub fn corp_slots(order: &Vec<Faction>) -> (s: Vec<Slot>)
    requires
        order@.len() >= 2,
    ensures
        slots_realize(s@, corp_filters(order@[0], order@[1]), corp_soft_limits(), corp_hard_limit()),
{
    let a0 = order[0];
    let a1 = order[1];
    let mut s: Vec<Slot> = Vec::new();
    s.push(corp_slot(Rarity::Rare, None));
    s.push(corp_slot(Rarity::Agenda, Some(a0)));
    s.push(corp_slot(Rarity::Agenda, Some(a1)));
    s.push(corp_slot(Rarity::Uncommon, Some(a0)));
    s.push(corp_slot(Rarity::Uncommon, Some(a1)));
    s.push(corp_slot(Rarity::Common, Some(Faction::HaasBioroid)));
    s.push(corp_slot(Rarity::Common, Some(Faction::WeylandConsortium)));
    s.push(corp_slot(Rarity::Common, Some(Faction::Jinteki)));
    s.push(corp_slot(Rarity::Common, Some(Faction::NBN)));
    s.push(corp_slot(Rarity::Common, None));
    s
}

/// The list handed to the per-pack faction shuffle.
pub fn corp_faction_list() -> (v: Vec<Faction>)
    ensures
        v@ == corp_faction_pool(),
{
    let mut v: Vec<Faction> = Vec::new();
    v.push(Faction::HaasBioroid);
    v.push(Faction::WeylandConsortium);
    v.push(Faction::Jinteki);
    v.push(Faction::NBN);
    proof {
        assert(v@ =~= corp_faction_pool());
    }
    v
}

} // verus!
