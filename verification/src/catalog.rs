//! The card catalog: the classified cards, addressed by index.

use vstd::prelude::*;
use crate::cards::{Card, CardType, Faction, Rarity, Side, card_matches};

verus! {

/// The full set of classified cards. Built once, read-only afterwards;
/// cards are identified by their index in `cards`.
pub struct Catalog {
    pub cards: Vec<Card>,
}

/// Number of cards of the given side among `cards`.
pub open spec fn spec_side_count(cards: Seq<Card>, side: Side) -> int
    decreases cards.len(),
{
    if cards.len() == 0 {
        0
    } else {
        spec_side_count(cards.drop_last(), side) + if cards.last().side == side {
            1int
        } else {
            0int
        }
    }
}

pub proof fn lemma_side_count_bound(cards: Seq<Card>, side: Side)
    ensures
        0 <= spec_side_count(cards, side) <= cards.len(),
    decreases cards.len(),
{
    if cards.len() > 0 {
        lemma_side_count_bound(cards.drop_last(), side);
    }
}

impl Catalog {
    /// An empty catalog.
    pub fn new() -> (c: Catalog)
        ensures
            c.cards@.len() == 0,
    {
        Catalog { cards: Vec::new() }
    }

    /// Wrap an already classified card list.
    pub fn from_cards(cards: Vec<Card>) -> (c: Catalog)
        ensures
            c.cards@ == cards@,
    {
        Catalog { cards }
    }

    /// Append one classified card.
    pub fn push(&mut self, card: Card)
        ensures
            final(self).cards@ == old(self).cards@.push(card),
    {
        self.cards.push(card);
    }

    /// Number of cards in the catalog.
    pub fn len(&self) -> (n: usize)
        ensures
            n == self.cards@.len(),
    {
        self.cards.len()
    }

    /// Number of cards of one side, the sanity-check figure printed before
    /// generation.
    pub fn side_count(&self, side: Side) -> (n: usize)
        ensures
            n == spec_side_count(self.cards@, side),
    {
        let mut n: usize = 0;
        let mut i: usize = 0;
        while i < self.cards.len()
            invariant
                0 <= i <= self.cards@.len(),
                n == spec_side_count(self.cards@.take(i as int), side),
                n <= i,
            decreases self.cards@.len() - i,
        {
            proof {
                assert(self.cards@.take(i + 1).drop_last() == self.cards@.take(i as int));
                assert(self.cards@.take(i + 1).last() == self.cards@[i as int]);
            }
            if self.cards[i].side == side {
                n = n + 1;
            }
            i = i + 1;
        }
        proof {
            assert(self.cards@.take(self.cards@.len() as int) == self.cards@);
        }
        n
    }
}

/// Whether card `c` satisfies the filter `(side, rarity, faction)`.
pub fn matches_filter(c: &Card, side: Side, rarity: Rarity, faction: Option<Faction>) -> (b: bool)
    ensures
        b == card_matches(*c, side, rarity, faction),
{
    c.side == side && c.rarity == rarity && (match faction {
        Some(f) => c.faction == f,
        None => true,
    })
}

} // verus!
