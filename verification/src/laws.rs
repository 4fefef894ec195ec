//! The laws of pack assembly, stated over the assembler's contracts.

use vstd::prelude::*;
use crate::assembler::{fresh_exclusion, pack_valid, spec_assemble};
use crate::cards::Card;
use crate::sampler::cascade_triggered;
use crate::slots::Slot;

verus! {

/// Uniqueness: no card identifier appears more than once in a valid pack.
pub proof fn lemma_pack_unique(cards: Seq<Card>, slots: Seq<Slot>, pack: Seq<usize>)
    requires
        pack_valid(cards, slots, pack),
    ensures
        forall|j1: int, j2: int| 0 <= j1 < j2 < pack.len() ==> pack[j1] != pack[j2],
{
}

/// Size: a valid pack holds exactly one card per slot specification.
pub proof fn lemma_pack_size(cards: Seq<Card>, slots: Seq<Slot>, pack: Seq<usize>)
    requires
        pack_valid(cards, slots, pack),
    ensures
        pack.len() == slots.len(),
{
}

/// Filter conformance: each chosen card's side and rarity match the slot
/// that produced it, and its faction matches whenever the slot names one.
pub proof fn lemma_filter_conformance(cards: Seq<Card>, slots: Seq<Slot>, pack: Seq<usize>, j: int)
    requires
        pack_valid(cards, slots, pack),
        0 <= j < pack.len(),
    ensures
        cards[pack[j] as int].side == slots[j].side,
        cards[pack[j] as int].rarity == slots[j].rarity,
        slots[j].faction matches Some(f) ==> cards[pack[j] as int].faction == f,
{
}

/// Cascading exclusion: once the pick at slot `j` spends the slot's overage
/// budget, no later pick of the same pack has the triggering card's type.
pub proof fn lemma_cascading_exclusion(
    cards: Seq<Card>,
    slots: Seq<Slot>,
    pack: Seq<usize>,
    j: int,
    k: int,
)
    requires
        pack_valid(cards, slots, pack),
        0 <= j < k < pack.len(),
        cascade_triggered(cards, pack.take(j + 1), slots[j]),
    ensures
        cards[pack[k] as int].card_type != cards[pack[j] as int].card_type,
{
}

/// Determinism under fixed randomness: from one catalog, one slot list and
/// one choice sequence, assembly can produce only one pack.
pub proof fn lemma_assembly_deterministic(
    cards: Seq<Card>,
    slots: Seq<Slot>,
    choices: Seq<usize>,
    pack1: Seq<usize>,
    pack2: Seq<usize>,
)
    requires
        Some(pack1) == spec_assemble(cards, slots, choices, Seq::<usize>::empty(), fresh_exclusion(cards)),
        Some(pack2) == spec_assemble(cards, slots, choices, Seq::<usize>::empty(), fresh_exclusion(cards)),
    ensures
        pack1 == pack2,
{
}

} // verus!
