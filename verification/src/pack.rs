//! Per-pack mutable state: the chosen cards, the exclusion set and the
//! type-overage accounting that drives cascading exclusion.

use vstd::prelude::*;
use crate::cards::{Card, CardType};
use crate::catalog::Catalog;

verus! {

/// State threaded through the picks of one pack. `chosen` lists the picked
/// card indexes in pick order; `excluded[i]` says card `i` is ineligible for
/// further picks. Every chosen card is also excluded.
pub struct PackState {
    pub chosen: Vec<usize>,
    pub excluded: Vec<bool>,
}

/// How many of the chosen cards have type `t`.
pub open spec fn count_type(cards: Seq<Card>, chosen: Seq<usize>, t: CardType) -> int
    decreases chosen.len(),
{
    if chosen.len() == 0 {
        0
    } else {
        count_type(cards, chosen.drop_last(), t) + if cards[chosen.last() as int].card_type == t {
            1int
        } else {
            0int
        }
    }
}

pub proof fn lemma_count_type_bound(cards: Seq<Card>, chosen: Seq<usize>, t: CardType)
    ensures
        0 <= count_type(cards, chosen, t) <= chosen.len(),
    decreases chosen.len(),
{
    if chosen.len() > 0 {
        lemma_count_type_bound(cards, chosen.drop_last(), t);
    }
}

/// The positive part of `x`.
pub open spec fn pos_part(x: int) -> int {
    if x < 0 {
        0
    } else {
        x
    }
}

/// The pack's spent overage budget: the sum, over the tracked
/// `(type, soft limit)` pairs, of how far the chosen cards of that type
/// exceed the soft limit.
pub open spec fn overage(cards: Seq<Card>, chosen: Seq<usize>, limits: Seq<(CardType, usize)>) -> int
    decreases limits.len(),
{
    if limits.len() == 0 {
        0
    } else {
        overage(cards, chosen, limits.drop_last())
            + pos_part(count_type(cards, chosen, limits.last().0) - limits.last().1)
    }
}

impl PackState {
    /// Well-formedness against a catalog: the exclusion set covers the whole
    /// catalog, every chosen index is in range, no card is chosen twice, and
    /// chosen cards are excluded.
    pub open spec fn wf(self, cards: Seq<Card>) -> bool {
        &&& self.excluded@.len() == cards.len()
        &&& forall|j: int| 0 <= j < self.chosen@.len() ==> (self.chosen@[j] as int) < cards.len()
        &&& forall|j1: int, j2: int|
            0 <= j1 < j2 < self.chosen@.len() ==> self.chosen@[j1] != self.chosen@[j2]
        &&& forall|j: int| 0 <= j < self.chosen@.len() ==> self.excluded@[self.chosen@[j] as int]
    }

    /// Fresh state for one pack: nothing chosen, nothing excluded.
    pub fn new_for(catalog: &Catalog) -> (s: PackState)
        ensures
            s.chosen@.len() == 0,
            s.excluded@.len() == catalog.cards@.len(),
            forall|i: int| 0 <= i < s.excluded@.len() ==> !s.excluded@[i],
            s.wf(catalog.cards@),
    {
        let n = catalog.len();
        let mut excluded: Vec<bool> = Vec::new();
        let mut i: usize = 0;
        while i < n
            invariant
                0 <= i <= n,
                excluded@.len() == i,
                forall|k: int| 0 <= k < i ==> !excluded@[k],
            decreases n - i,
        {
            excluded.push(false);
            i = i + 1;
        }
        PackState { chosen: Vec::new(), excluded }
    }

    /// How many chosen cards have type `t`.
    pub fn count_of_type(&self, catalog: &Catalog, t: CardType) -> (n: usize)
        requires
            forall|j: int|
                0 <= j < self.chosen@.len() ==> (self.chosen@[j] as int) < catalog.cards@.len(),
        ensures
            n == count_type(catalog.cards@, self.chosen@, t),
    {
        let mut n: usize = 0;
        let mut j: usize = 0;
        while j < self.chosen.len()
            invariant
                0 <= j <= self.chosen@.len(),
                forall|k: int|
                    0 <= k < self.chosen@.len() ==> (self.chosen@[k] as int) < catalog.cards@.len(),
                n == count_type(catalog.cards@, self.chosen@.take(j as int), t),
                n <= j,
            decreases self.chosen@.len() - j,
        {
            proof {
                assert(self.chosen@.take(j + 1).drop_last() == self.chosen@.take(j as int));
                assert(self.chosen@.take(j + 1).last() == self.chosen@[j as int]);
            }
            if catalog.cards[self.chosen[j]].card_type == t {
                n = n + 1;
            }
            j = j + 1;
        }
        proof {
            assert(self.chosen@.take(self.chosen@.len() as int) == self.chosen@);
        }
        n
    }

    /// The spent overage budget of the chosen cards against `limits`.
    pub fn overage_spent(&self, catalog: &Catalog, limits: &Vec<(CardType, usize)>) -> (n: u128)
        requires
            forall|j: int|
                0 <= j < self.chosen@.len() ==> (self.chosen@[j] as int) < catalog.cards@.len(),
        ensures
            n == overage(catalog.cards@, self.chosen@, limits@),
    {
        let clen = self.chosen.len();
        let mut n: u128 = 0;
        let mut j: usize = 0;
        while j < limits.len()
            invariant
                0 <= j <= limits@.len(),
                forall|k: int|
                    0 <= k < self.chosen@.len() ==> (self.chosen@[k] as int) < catalog.cards@.len(),
                clen == self.chosen@.len(),
                n == overage(catalog.cards@, self.chosen@, limits@.take(j as int)),
                n <= (j as int) * (clen as int),
            decreases limits@.len() - j,
        {
            proof {
                assert(limits@.take(j + 1).drop_last() == limits@.take(j as int));
                assert(limits@.take(j + 1).last() == limits@[j as int]);
                lemma_count_type_bound(catalog.cards@, self.chosen@, limits@[j as int].0);
            }
            let (t, soft): (CardType, usize) = (limits[j].0, limits[j].1);
            let cnt = self.count_of_type(catalog, t);
            let over: usize = if cnt > soft {
                cnt - soft
            } else {
                0
            };
            proof {
                assert(over as int == pos_part(count_type(catalog.cards@, self.chosen@, t) - soft));
                assert(over <= clen);
                assert((j as int + 1) * (clen as int) == (j as int) * (clen as int) + clen as int)
                    by (nonlinear_arith);
                assert((j as int) * (clen as int) + clen as int <= u128::MAX) by (nonlinear_arith)
                    requires
                        0 <= j < 0x1_0000_0000_0000_0000,
                        0 <= clen < 0x1_0000_0000_0000_0000,
                ;
            }
            n = n + (over as u128);
            j = j + 1;
        }
        proof {
            assert(limits@.take(limits@.len() as int) == limits@);
        }
        n
    }
}

} // verus!
