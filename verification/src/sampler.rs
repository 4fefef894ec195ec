//! The guarded sampler: pick one card uniformly from a slot's filtered pool,
//! commit it to the pack, and cascade-exclude the picked card's whole type
//! once the pack's overage budget is spent.

use vstd::prelude::*;
use crate::cards::{Card, CardType, Faction, Rarity, Side, card_matches};
use crate::catalog::{Catalog, matches_filter};
use crate::pack::{PackState, overage};
use crate::rng::random_below;
use crate::slots::Slot;

verus! {

/// Whether catalog card `i` satisfies the slot's filter.
pub open spec fn slot_matches(cards: Seq<Card>, slot: Slot, i: int) -> bool {
    card_matches(cards[i], slot.side, slot.rarity, slot.faction)
}

/// The slot's pool restricted to card indexes below `n`: the matching,
/// not-excluded indexes in ascending order.
pub open spec fn pool_prefix(cards: Seq<Card>, excluded: Seq<bool>, slot: Slot, n: int) -> Seq<
    usize,
>
    decreases n,
{
    if n <= 0 {
        Seq::empty()
    } else {
        let p = pool_prefix(cards, excluded, slot, n - 1);
        if slot_matches(cards, slot, n - 1) && !excluded[n - 1] {
            p.push((n - 1) as usize)
        } else {
            p
        }
    }
}

/// The slot's full pool: every matching catalog card not yet excluded.
pub open spec fn spec_pool(cards: Seq<Card>, excluded: Seq<bool>, slot: Slot) -> Seq<usize> {
    pool_prefix(cards, excluded, slot, cards.len() as int)
}

/// What soundness of a pool prefix says: every element is an in-range,
/// matching, not-excluded index, and the prefix is strictly increasing.
pub open spec fn pool_sound(cards: Seq<Card>, excluded: Seq<bool>, slot: Slot, n: int) -> bool {
    let q = pool_prefix(cards, excluded, slot, n);
    &&& forall|k: int|
        0 <= k < q.len() ==> (((#[trigger] q[k]) as int) < n && slot_matches(cards, slot, q[k] as int)
            && !excluded[q[k] as int])
    &&& forall|k1: int, k2: int| 0 <= k1 < k2 < q.len() ==> q[k1] < q[k2]
}

/// Every pool element is an in-range, matching, not-excluded index, and the
/// pool is strictly increasing.
pub proof fn lemma_pool_prefix_sound(cards: Seq<Card>, excluded: Seq<bool>, slot: Slot, n: int)
    requires
        n <= cards.len(),
        n <= usize::MAX,
    ensures
        pool_sound(cards, excluded, slot, n),
    decreases n,
{
    if n > 0 {
        lemma_pool_prefix_sound(cards, excluded, slot, n - 1);
        let p = pool_prefix(cards, excluded, slot, n - 1);
        let q = pool_prefix(cards, excluded, slot, n);
        if slot_matches(cards, slot, n - 1) && !excluded[n - 1] {
            assert(q == p.push((n - 1) as usize));
            assert forall|k: int| 0 <= k < q.len() implies (((#[trigger] q[k]) as int) < n
                && slot_matches(cards, slot, q[k] as int) && !excluded[q[k] as int]) by {
                if k < p.len() {
                    assert(q[k] == p[k]);
                    assert((p[k] as int) < n - 1 && slot_matches(cards, slot, p[k] as int)
                        && !excluded[p[k] as int]);
                } else {
                    assert(q[k] == (n - 1) as usize);
                }
            }
            assert forall|k1: int, k2: int| 0 <= k1 < k2 < q.len() implies q[k1] < q[k2] by {
                assert(q[k1] == p[k1]);
                assert((p[k1] as int) < n - 1 && slot_matches(cards, slot, p[k1] as int)
                    && !excluded[p[k1] as int]);
                if k2 < p.len() {
                    assert(q[k2] == p[k2]);
                } else {
                    assert(q[k2] == (n - 1) as usize);
                }
            }
            assert(pool_sound(cards, excluded, slot, n));
        } else {
            assert(q == p);
        }
    }
}

/// An index below `n` that matches and is not excluded stands in the pool
/// prefix for `n`.
pub proof fn lemma_pool_prefix_complete(
    cards: Seq<Card>,
    excluded: Seq<bool>,
    slot: Slot,
    n: int,
)
    requires
        n <= cards.len(),
        n <= usize::MAX,
    ensures
        forall|i: usize|
            (i as int) < n && slot_matches(cards, slot, i as int) && !excluded[i as int]
                ==> pool_prefix(cards, excluded, slot, n).contains(i),
    decreases n,
{
    if n > 0 {
        lemma_pool_prefix_complete(cards, excluded, slot, n - 1);
        assert forall|i: usize|
            (i as int) < n && slot_matches(cards, slot, i as int) && !excluded[i as int]
            implies pool_prefix(cards, excluded, slot, n).contains(i) by {
            let p = pool_prefix(cards, excluded, slot, n - 1);
            if (i as int) < n - 1 {
                assert(p.contains(i));
                let k = choose|k: int| 0 <= k < p.len() && p[k] == i;
                assert(pool_prefix(cards, excluded, slot, n)[k] == i);
            } else {
                let q = pool_prefix(cards, excluded, slot, n);
                assert(q[q.len() - 1] == i);
            }
        }
    }
}

/// The pool is empty exactly when no card matches the slot unexcluded.
pub proof fn lemma_pool_empty_iff(cards: Seq<Card>, excluded: Seq<bool>, slot: Slot)
    requires
        excluded.len() == cards.len(),
        cards.len() <= usize::MAX,
    ensures
        spec_pool(cards, excluded, slot).len() == 0 <==> (forall|i: int|
            0 <= i < cards.len() ==> !(slot_matches(cards, slot, i) && !excluded[i])),
{
    lemma_pool_prefix_sound(cards, excluded, slot, cards.len() as int);
    lemma_pool_prefix_complete(cards, excluded, slot, cards.len() as int);
    if spec_pool(cards, excluded, slot).len() == 0 {
        assert forall|i: int|
            0 <= i < cards.len() implies !(slot_matches(cards, slot, i) && !excluded[i]) by {
            if slot_matches(cards, slot, i) && !excluded[i] {
                assert(spec_pool(cards, excluded, slot).contains(i as usize));
            }
        }
    } else {
        let c = spec_pool(cards, excluded, slot)[0];
        assert(slot_matches(cards, slot, c as int) && !excluded[c as int]);
    }
}

/// The sampling-exhaustion diagnostic: a slot's pool was empty. Carries the
/// cards already committed to the pack and the unmet slot's filter.
#[derive(Debug)]
pub struct Exhaustion {
    pub chosen: Vec<usize>,
    pub side: Side,
    pub rarity: Rarity,
    pub faction: Option<Faction>,
}

/// The exhaustion report names exactly the pack prefix built so far and the
/// failing slot's filter.
pub open spec fn exhaustion_reports(e: Exhaustion, pre: PackState, slot: Slot) -> bool {
    &&& e.chosen@ == pre.chosen@
    &&& e.side == slot.side
    &&& e.rarity == slot.rarity
    &&& e.faction == slot.faction
}

/// The cascading-exclusion rule fires when the pack's summed type overage
/// equals the slot's hard limit.
pub open spec fn cascade_triggered(cards: Seq<Card>, chosen_after: Seq<usize>, slot: Slot) -> bool {
    overage(cards, chosen_after, slot.soft_limits@) == slot.hard_limit
}

/// How one committed pick transforms the pack state: the card is appended to
/// the chosen list, and a card is excluded afterwards exactly when it was
/// excluded before, is the picked card, or shares the picked card's type
/// while the pick spent the slot's overage budget.
pub open spec fn committed(
    cards: Seq<Card>,
    pre: PackState,
    post: PackState,
    slot: Slot,
    c: usize,
) -> bool {
    &&& post.chosen@ == pre.chosen@.push(c)
    &&& post.excluded@.len() == pre.excluded@.len()
    &&& forall|i: int|
        0 <= i < post.excluded@.len()
            ==> post.excluded@[i] == (pre.excluded@[i] || i == c as int || (cascade_triggered(
            cards,
            pre.chosen@.push(c),
            slot,
        ) && cards[i].card_type == cards[c as int].card_type))
}

/// Copy a list of card indexes.
fn clone_indices(v: &Vec<usize>) -> (r: Vec<usize>)
    ensures
        r@ == v@,
{
    let mut r: Vec<usize> = Vec::new();
    let mut i: usize = 0;
    while i < v.len()
        invariant
            0 <= i <= v@.len(),
            r@ == v@.take(i as int),
        decreases v@.len() - i,
    {
        r.push(v[i]);
        proof {
            assert(r@ =~= v@.take(i + 1));
        }
        i = i + 1;
    }
    proof {
        assert(v@.take(v@.len() as int) == v@);
    }
    r
}

impl Catalog {
    /// The slot's pool under the current exclusion set: every matching,
    /// not-excluded card index, in ascending order.
    pub fn pool(&self, excluded: &Vec<bool>, slot: &Slot) -> (p: Vec<usize>)
        requires
            excluded@.len() == self.cards@.len(),
        ensures
            p@ == spec_pool(self.cards@, excluded@, *slot),
    {
        let mut p: Vec<usize> = Vec::new();
        let mut i: usize = 0;
        while i < self.cards.len()
            invariant
                0 <= i <= self.cards@.len(),
                excluded@.len() == self.cards@.len(),
                p@ == pool_prefix(self.cards@, excluded@, *slot, i as int),
            decreases self.cards@.len() - i,
        {
            if matches_filter(&self.cards[i], slot.side, slot.rarity, slot.faction)
                && !excluded[i] {
                p.push(i);
            }
            i = i + 1;
        }
        p
    }

    /// The exclusion set widened by every card of type `t`.
    fn cascade_exclude(&self, excl: &Vec<bool>, t: CardType) -> (r: Vec<bool>)
        requires
            excl@.len() == self.cards@.len(),
        ensures
            r@.len() == excl@.len(),
            forall|k: int|
                0 <= k < r@.len() ==> r@[k] == (excl@[k] || self.cards@[k].card_type == t),
    {
        let mut r: Vec<bool> = Vec::new();
        let mut i: usize = 0;
        while i < self.cards.len()
            invariant
                0 <= i <= self.cards@.len(),
                excl@.len() == self.cards@.len(),
                r@.len() == i,
                forall|k: int|
                    0 <= k < i ==> r@[k] == (excl@[k] || self.cards@[k].card_type == t),
            decreases self.cards@.len() - i,
        {
            r.push(excl[i] || self.cards[i].card_type == t);
            i = i + 1;
        }
        r
    }

    /// Commit a picked card: append it, exclude it, and cascade-exclude its
    /// whole type when the pick spends the slot's overage budget.
    fn commit(&self, state: &mut PackState, slot: &Slot, c: usize)
        requires
            old(state).wf(self.cards@),
            (c as int) < self.cards@.len(),
            !old(state).excluded@[c as int],
        ensures
            final(state).wf(self.cards@),
            committed(self.cards@, *old(state), *final(state), *slot, c),
    {
        state.chosen.push(c);
        state.excluded[c] = true;
        let spent = state.overage_spent(self, &slot.soft_limits);
        if spent == slot.hard_limit as u128 {
            let t = self.cards[c].card_type;
            state.excluded = self.cascade_exclude(&state.excluded, t);
        }
    }

    /// Pick deterministically: take the pool element selected by
    /// `choice % pool.len()` and commit it. The injectable-choice form of the
    /// guarded sampler; the result is a function of the arguments alone.
    pub fn pick_at(&self, state: &mut PackState, slot: &Slot, choice: usize) -> (r: Result<
        usize,
        Exhaustion,
    >)
        requires
            old(state).wf(self.cards@),
        ensures
            final(state).wf(self.cards@),
            spec_pool(self.cards@, old(state).excluded@, *slot).len() == 0 ==> (r matches Err(e)
                && exhaustion_reports(e, *old(state), *slot) && *final(state) == *old(state)),
            spec_pool(self.cards@, old(state).excluded@, *slot).len() > 0 ==> ({
                let pool = spec_pool(self.cards@, old(state).excluded@, *slot);
                let c = pool[choice as int % pool.len() as int];
                &&& r == Ok::<usize, Exhaustion>(c)
                &&& committed(self.cards@, *old(state), *final(state), *slot, c)
            }),
    {
        let cn = self.cards.len();
        let pool = self.pool(&state.excluded, slot);
        if pool.len() == 0 {
            Err(Exhaustion {
                chosen: clone_indices(&state.chosen),
                side: slot.side,
                rarity: slot.rarity,
                faction: slot.faction,
            })
        } else {
            let k = choice % pool.len();
            let c = pool[k];
            proof {
                assert(self.cards@.len() == cn);
                lemma_pool_prefix_sound(self.cards@, state.excluded@, *slot, self.cards@.len() as int);
            }
            self.commit(state, slot, c);
            Ok(c)
        }
    }

    /// Pick uniformly at random from the slot's pool and commit the pick.
    /// On an empty pool, report exhaustion and leave the state untouched.
    pub fn pick(
        &self,
        state: &mut PackState,
        slot: &Slot,
        rng: &mut rand::rngs::ThreadRng,
    ) -> (r: Result<usize, Exhaustion>)
        requires
            old(state).wf(self.cards@),
        ensures
            final(state).wf(self.cards@),
            spec_pool(self.cards@, old(state).excluded@, *slot).len() == 0 ==> (r matches Err(e)
                && exhaustion_reports(e, *old(state), *slot) && *final(state) == *old(state)),
            spec_pool(self.cards@, old(state).excluded@, *slot).len() > 0 ==> (r matches Ok(c)
                && spec_pool(self.cards@, old(state).excluded@, *slot).contains(c) && committed(
                self.cards@,
                *old(state),
                *final(state),
                *slot,
                c,
            )),
    {
        let cn = self.cards.len();
        let pool = self.pool(&state.excluded, slot);
        if pool.len() == 0 {
            Err(Exhaustion {
                chosen: clone_indices(&state.chosen),
                side: slot.side,
                rarity: slot.rarity,
                faction: slot.faction,
            })
        } else {
            let k = random_below(rng, pool.len());
            let c = pool[k];
            proof {
                assert(self.cards@.len() == cn);
                lemma_pool_prefix_sound(self.cards@, state.excluded@, *slot, self.cards@.len() as int);
                assert(spec_pool(self.cards@, state.excluded@, *slot).contains(c));
            }
            self.commit(state, slot, c);
            Ok(c)
        }
    }
}

} // verus!
