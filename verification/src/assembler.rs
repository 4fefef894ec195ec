//! The pack assembler: drive the guarded sampler across an ordered slot
//! list, threading one pack state through all picks.

use vstd::prelude::*;
use crate::cards::{Card, Faction};
use crate::catalog::Catalog;
use crate::pack::PackState;
use crate::rng::shuffle_factions;
use crate::sampler::{
    cascade_triggered, exhaustion_reports, lemma_pool_prefix_sound, slot_matches, spec_pool,
    Exhaustion,
};
use crate::slots::{corp_faction_pool, corp_filters, corp_hard_limit, corp_slots,
    corp_faction_list, corp_soft_limits, runner_filters, runner_hard_limit, runner_slots,
    runner_soft_limits, slots_realize, Slot};

verus! {

/// One deterministic step of assembly: the picked card is the slot's pool
/// element selected by `choice` modulo the pool length, and the exclusion
/// set grows by the pick and, when the overage budget is spent, by the
/// pick's whole type; `None` when the pool is exhausted.
pub open spec fn spec_step(
    cards: Seq<Card>,
    chosen: Seq<usize>,
    excluded: Seq<bool>,
    slot: Slot,
    choice: usize,
) -> Option<(Seq<usize>, Seq<bool>)> {
    let pool = spec_pool(cards, excluded, slot);
    if pool.len() == 0 {
        None
    } else {
        let c = pool[choice as int % pool.len() as int];
        let chosen2 = chosen.push(c);
        let trig = cascade_triggered(cards, chosen2, slot);
        let t = cards[c as int].card_type;
        let excluded2 = Seq::new(
            excluded.len(),
            |i: int| excluded[i] || i == c as int || (trig && cards[i].card_type == t),
        );
        Some((chosen2, excluded2))
    }
}

/// Deterministic assembly of the remaining slots from a given pack state:
/// the full chosen list once every slot is filled, `None` on exhaustion.
pub open spec fn spec_assemble(
    cards: Seq<Card>,
    slots: Seq<Slot>,
    choices: Seq<usize>,
    chosen: Seq<usize>,
    excluded: Seq<bool>,
) -> Option<Seq<usize>>
    decreases slots.len(),
{
    if slots.len() == 0 {
        Some(chosen)
    } else {
        match spec_step(cards, chosen, excluded, slots[0], choices[0]) {
            None => None,
            Some(next) => spec_assemble(cards, slots.skip(1), choices.skip(1), next.0, next.1),
        }
    }
}

/// The exclusion set a fresh pack starts from: nothing excluded.
pub open spec fn fresh_exclusion(cards: Seq<Card>) -> Seq<bool> {
    Seq::new(cards.len(), |i: int| false)
}

/// The exclusion state a committed prefix determines: the per-pick exclusion
/// step of `spec_step`, folded over the prefix. The exclusion set is a
/// function of the chosen prefix and the slots that produced it.
pub open spec fn excl_after(cards: Seq<Card>, slots: Seq<Slot>, prefix: Seq<usize>) -> Seq<bool>
    decreases prefix.len(),
{
    if prefix.len() == 0 {
        fresh_exclusion(cards)
    } else {
        let pre = excl_after(cards, slots, prefix.drop_last());
        let c = prefix.last();
        let trig = cascade_triggered(cards, prefix, slots[prefix.len() - 1]);
        let t = cards[c as int].card_type;
        Seq::new(pre.len(), |i: int| pre[i] || i == c as int || (trig && cards[i].card_type == t))
    }
}

/// Every pick of the pack was drawn from the true pool of its slot, at the
/// exclusion state determined by the picks before it.
pub open spec fn trace_valid(cards: Seq<Card>, slots: Seq<Slot>, pack: Seq<usize>) -> bool {
    forall|j: int|
        0 <= j < pack.len() ==> spec_pool(cards, excl_after(cards, slots, pack.take(j)), slots[j])
            .contains(#[trigger] pack[j])
}

/// In a strictly increasing index sequence, each position is at most the
/// value it holds.
proof fn lemma_increasing_index_le(q: Seq<usize>, k: int)
    requires
        forall|k1: int, k2: int| 0 <= k1 < k2 < q.len() ==> q[k1] < q[k2],
        0 <= k < q.len(),
    ensures
        k <= q[k] as int,
    decreases k,
{
    if k > 0 {
        lemma_increasing_index_le(q, k - 1);
        assert(q[k - 1] < q[k]);
    }
}

/// A pack whose every pick came from the true pool of its slot is reachable
/// by the deterministic semantics: some choice sequence assembles exactly it.
#[verifier::rlimit(60)]
pub proof fn lemma_trace_realizable(cards: Seq<Card>, slots: Seq<Slot>, pack: Seq<usize>, j: int)
    requires
        cards.len() <= usize::MAX,
        pack.len() == slots.len(),
        trace_valid(cards, slots, pack),
        0 <= j <= pack.len(),
    ensures
        exists|choices: Seq<usize>|
            #[trigger] spec_assemble(
                cards,
                slots.skip(j),
                choices,
                pack.take(j),
                excl_after(cards, slots, pack.take(j)),
            ) == Some(pack),
    decreases pack.len() - j,
{
    if j == pack.len() {
        assert(pack.take(j) =~= pack);
        let choices = Seq::<usize>::empty();
        assert(spec_assemble(
            cards,
            slots.skip(j),
            choices,
            pack.take(j),
            excl_after(cards, slots, pack.take(j)),
        ) == Some(pack));
    } else {
        lemma_trace_realizable(cards, slots, pack, j + 1);
        let tail = choose|tail: Seq<usize>|
            #[trigger] spec_assemble(
                cards,
                slots.skip(j + 1),
                tail,
                pack.take(j + 1),
                excl_after(cards, slots, pack.take(j + 1)),
            ) == Some(pack);
        let excl_j = excl_after(cards, slots, pack.take(j));
        let pool = spec_pool(cards, excl_j, slots[j]);
        assert(pool.contains(pack[j]));
        lemma_pool_prefix_sound(cards, excl_j, slots[j], cards.len() as int);
        let k = choose|k: int| 0 <= k < pool.len() && pool[k] == pack[j];
        lemma_increasing_index_le(pool, k);
        assert(k <= pool[k] as int && (pool[k] as int) < cards.len());
        let choices = seq![k as usize] + tail;
        assert(choices[0] == k as usize);
        assert(slots.skip(j)[0] == slots[j]);
        assert(slots.skip(j).skip(1) =~= slots.skip(j + 1));
        assert(choices.skip(1) =~= tail);
        // the step at j picks exactly pack[j] and reaches the next fold state
        assert((k as usize) as int == k);
        assert(k % pool.len() as int == k) by (nonlinear_arith)
            requires
                0 <= k,
                k < pool.len(),
        ;
        let stepped = spec_step(cards, pack.take(j), excl_j, slots[j], k as usize);
        assert(stepped matches Some(next) && {
            &&& next.0 =~= pack.take(j + 1)
            &&& next.1 =~= excl_after(cards, slots, pack.take(j + 1))
        }) by {
            assert(pack.take(j).push(pack[j]) =~= pack.take(j + 1));
            assert(pack.take(j + 1).drop_last() =~= pack.take(j));
            assert(pack.take(j + 1).last() == pack[j]);
        }
        assert(spec_assemble(
            cards,
            slots.skip(j),
            choices,
            pack.take(j),
            excl_j,
        ) == Some(pack));
    }
}

/// What a committed pack prefix satisfies against its slot list: all indexes
/// in range and pairwise distinct, each card matching its slot's filter, and
/// — cascading exclusion — once some pick spends its slot's overage budget,
/// no later pick has the triggering type.
pub open spec fn prefix_valid(cards: Seq<Card>, slots: Seq<Slot>, pack: Seq<usize>) -> bool {
    &&& pack.len() <= slots.len()
    &&& forall|j: int| 0 <= j < pack.len() ==> ((#[trigger] pack[j]) as int) < cards.len()
    &&& forall|j1: int, j2: int| 0 <= j1 < j2 < pack.len() ==> pack[j1] != pack[j2]
    &&& forall|j: int|
        0 <= j < pack.len() ==> slot_matches(cards, slots[j], (#[trigger] pack[j]) as int)
    &&& forall|j: int, k: int|
        0 <= j < k < pack.len() && cascade_triggered(cards, pack.take(j + 1), slots[j])
            ==> cards[(#[trigger] pack[k]) as int].card_type != cards[(#[trigger] pack[j]) as int].card_type
}

/// What every successfully assembled pack satisfies: a valid prefix that
/// fills every slot.
pub open spec fn pack_valid(cards: Seq<Card>, slots: Seq<Slot>, pack: Seq<usize>) -> bool {
    &&& pack.len() == slots.len()
    &&& prefix_valid(cards, slots, pack)
}

/// An exhaustion report against a slot list: the failing slot is the one
/// right after the committed prefix, and its filter is named exactly.
pub open spec fn exhaustion_valid(e: Exhaustion, slots: Seq<Slot>) -> bool {
    let j = e.chosen@.len() as int;
    &&& 0 <= j < slots.len()
    &&& e.side == slots[j].side
    &&& e.rarity == slots[j].rarity
    &&& e.faction == slots[j].faction
}

impl Catalog {
    /// Assemble one pack by driving the guarded sampler across `slots` with
    /// a fresh pack state, drawing each pick uniformly at random. A pick on
    /// an exhausted pool aborts the pack and reports the unmet slot.
    pub fn assemble_pack(
        &self,
        slots: &Vec<Slot>,
        rng: &mut rand::rngs::ThreadRng,
    ) -> (r: Result<Vec<usize>, Exhaustion>)
        ensures
            r matches Ok(pack) ==> (pack_valid(self.cards@, slots@, pack@) && trace_valid(
                self.cards@,
                slots@,
                pack@,
            ) && exists|choices: Seq<usize>|
                #[trigger] spec_assemble(
                    self.cards@,
                    slots@,
                    choices,
                    Seq::<usize>::empty(),
                    fresh_exclusion(self.cards@),
                ) == Some(pack@)),
            r matches Err(e) ==> (exhaustion_valid(e, slots@) && prefix_valid(
                self.cards@,
                slots@,
                e.chosen@,
            ) && trace_valid(self.cards@, slots@, e.chosen@) && spec_pool(
                self.cards@,
                excl_after(self.cards@, slots@, e.chosen@),
                slots@[e.chosen@.len() as int],
            ).len() == 0),
    {
        let cn = self.cards.len();
        let mut state = PackState::new_for(self);
        proof {
            assert(state.excluded@ =~= excl_after(self.cards@, slots@, state.chosen@));
        }
        let mut s: usize = 0;
        while s < slots.len()
            invariant
                0 <= s <= slots@.len(),
                self.cards@.len() == cn,
                state.wf(self.cards@),
                state.chosen@.len() == s,
                state.excluded@ == excl_after(self.cards@, slots@, state.chosen@),
                trace_valid(self.cards@, slots@, state.chosen@),
                forall|j: int|
                    0 <= j < s ==> slot_matches(
                        self.cards@,
                        slots@[j],
                        (#[trigger] state.chosen@[j]) as int,
                    ),
                forall|j: int, cc: int|
                    0 <= j < s && cascade_triggered(
                        self.cards@,
                        state.chosen@.take(j + 1),
                        slots@[j],
                    ) && 0 <= cc < self.cards@.len() && self.cards@[cc].card_type
                        == self.cards@[state.chosen@[j] as int].card_type
                        ==> state.excluded@[cc],
                forall|j: int, k: int|
                    0 <= j < k < s && cascade_triggered(
                        self.cards@,
                        state.chosen@.take(j + 1),
                        slots@[j],
                    ) ==> self.cards@[(#[trigger] state.chosen@[k]) as int].card_type
                        != self.cards@[(#[trigger] state.chosen@[j]) as int].card_type,
            decreases slots@.len() - s,
        {
            let ghost pre = state;
            let picked = self.pick(&mut state, &slots[s], rng);
            match picked {
                Ok(c) => {
                    proof {
                        lemma_pool_prefix_sound(
                            self.cards@,
                            pre.excluded@,
                            slots@[s as int],
                            self.cards@.len() as int,
                        );
                        let pool = spec_pool(self.cards@, pre.excluded@, slots@[s as int]);
                        let kk = choose|kk: int| 0 <= kk < pool.len() && pool[kk] == c;
                        assert(pool[kk] == c);
                        assert(slot_matches(self.cards@, slots@[s as int], c as int));
                        assert(!pre.excluded@[c as int]);
                        assert(state.chosen@ == pre.chosen@.push(c));
                        assert forall|j: int| 0 <= j < s implies #[trigger] state.chosen@.take(j + 1)
                            =~= pre.chosen@.take(j + 1) by {}
                        assert forall|j: int| 0 <= j <= s implies #[trigger] state.chosen@.take(j)
                            =~= pre.chosen@.take(j) by {}
                        assert(state.chosen@.take(s + 1) =~= state.chosen@);
                        // the exclusion state is still the fold of the prefix
                        assert(state.chosen@.drop_last() =~= pre.chosen@);
                        assert(pre.chosen@.take(s as int) =~= pre.chosen@);
                        assert(state.excluded@ =~= excl_after(self.cards@, slots@, state.chosen@));
                        assert(trace_valid(self.cards@, slots@, state.chosen@));
                        // the two cascade invariants, re-established
                        assert forall|j: int, cc: int|
                            0 <= j < s + 1 && cascade_triggered(
                                self.cards@,
                                state.chosen@.take(j + 1),
                                slots@[j],
                            ) && 0 <= cc < self.cards@.len() && self.cards@[cc].card_type
                            == self.cards@[state.chosen@[j] as int].card_type
                            implies state.excluded@[cc] by {
                            if j < s {
                                assert(pre.excluded@[cc]);
                            }
                        }
                        assert forall|j: int, k: int|
                            0 <= j < k < s + 1 && cascade_triggered(
                                self.cards@,
                                state.chosen@.take(j + 1),
                                slots@[j],
                            ) implies self.cards@[(#[trigger] state.chosen@[k]) as int].card_type
                            != self.cards@[(#[trigger] state.chosen@[j]) as int].card_type by {
                            if k == s {
                                // everything of the triggering type was already
                                // excluded before this pick, and the pick was not
                                assert(state.chosen@[k] == c);
                                assert(pre.excluded@.len() == self.cards@.len());
                                if self.cards@[c as int].card_type
                                    == self.cards@[state.chosen@[j] as int].card_type {
                                    assert(pre.excluded@[c as int]);
                                }
                            }
                        }
                    }
                },
                Err(e) => {
                    proof {
                        assert(exhaustion_reports(e, pre, slots@[s as int]));
                        assert(prefix_valid(self.cards@, slots@, e.chosen@));
                        assert(spec_pool(
                            self.cards@,
                            excl_after(self.cards@, slots@, e.chosen@),
                            slots@[e.chosen@.len() as int],
                        ).len() == 0);
                    }
                    return Err(e);
                },
            }
            s = s + 1;
        }
        proof {
            assert(pack_valid(self.cards@, slots@, state.chosen@));
            lemma_trace_realizable(self.cards@, slots@, state.chosen@, 0);
            let choices = choose|choices: Seq<usize>|
                #[trigger] spec_assemble(
                    self.cards@,
                    slots@.skip(0),
                    choices,
                    state.chosen@.take(0),
                    excl_after(self.cards@, slots@, state.chosen@.take(0)),
                ) == Some(state.chosen@);
            assert(slots@.skip(0) =~= slots@);
            assert(state.chosen@.take(0) =~= Seq::<usize>::empty());
            assert(excl_after(self.cards@, slots@, Seq::<usize>::empty()) =~= fresh_exclusion(
                self.cards@,
            ));
            assert(spec_assemble(
                self.cards@,
                slots@,
                choices,
                Seq::<usize>::empty(),
                fresh_exclusion(self.cards@),
            ) == Some(state.chosen@));
        }
        Ok(state.chosen)
    }

    /// Assemble one pack deterministically: the pick of slot `j` is driven
    /// by `choices[j]`. With a fixed catalog, slot list and choice sequence
    /// the outcome is pinned to `spec_assemble`, a function of the arguments
    /// alone: two such assemblies cannot differ.
    pub fn assemble_pack_with(&self, slots: &Vec<Slot>, choices: &Vec<usize>) -> (r: Result<
        Vec<usize>,
        Exhaustion,
    >)
        requires
            choices@.len() == slots@.len(),
        ensures
            r matches Ok(pack) ==> (Some(pack@) == spec_assemble(
                self.cards@,
                slots@,
                choices@,
                Seq::<usize>::empty(),
                fresh_exclusion(self.cards@),
            ) && pack_valid(self.cards@, slots@, pack@)),
            r matches Err(e) ==> (spec_assemble(
                self.cards@,
                slots@,
                choices@,
                Seq::<usize>::empty(),
                fresh_exclusion(self.cards@),
            ) is None && exhaustion_valid(e, slots@) && prefix_valid(
                self.cards@,
                slots@,
                e.chosen@,
            )),
    {
        let cn = self.cards.len();
        let mut state = PackState::new_for(self);
        proof {
            assert(state.chosen@ =~= Seq::<usize>::empty());
            assert(state.excluded@ =~= fresh_exclusion(self.cards@));
            assert(slots@.skip(0) =~= slots@);
            assert(choices@.skip(0) =~= choices@);
        }
        let mut s: usize = 0;
        while s < slots.len()
            invariant
                0 <= s <= slots@.len(),
                self.cards@.len() == cn,
                choices@.len() == slots@.len(),
                state.wf(self.cards@),
                state.chosen@.len() == s,
                spec_assemble(
                    self.cards@,
                    slots@,
                    choices@,
                    Seq::<usize>::empty(),
                    fresh_exclusion(self.cards@),
                ) == spec_assemble(
                    self.cards@,
                    slots@.skip(s as int),
                    choices@.skip(s as int),
                    state.chosen@,
                    state.excluded@,
                ),
                forall|j: int|
                    0 <= j < s ==> slot_matches(
                        self.cards@,
                        slots@[j],
                        (#[trigger] state.chosen@[j]) as int,
                    ),
                forall|j: int, cc: int|
                    0 <= j < s && cascade_triggered(
                        self.cards@,
                        state.chosen@.take(j + 1),
                        slots@[j],
                    ) && 0 <= cc < self.cards@.len() && self.cards@[cc].card_type
                        == self.cards@[state.chosen@[j] as int].card_type
                        ==> state.excluded@[cc],
                forall|j: int, k: int|
                    0 <= j < k < s && cascade_triggered(
                        self.cards@,
                        state.chosen@.take(j + 1),
                        slots@[j],
                    ) ==> self.cards@[(#[trigger] state.chosen@[k]) as int].card_type
                        != self.cards@[(#[trigger] state.chosen@[j]) as int].card_type,
            decreases slots@.len() - s,
        {
            let ghost pre = state;
            let picked = self.pick_at(&mut state, &slots[s], choices[s]);
            proof {
                assert(slots@.skip(s as int)[0] == slots@[s as int]);
                assert(choices@.skip(s as int)[0] == choices@[s as int]);
                assert(slots@.skip(s as int).skip(1) =~= slots@.skip(s + 1));
                assert(choices@.skip(s as int).skip(1) =~= choices@.skip(s + 1));
            }
            match picked {
                Ok(c) => {
                    proof {
                        lemma_pool_prefix_sound(
                            self.cards@,
                            pre.excluded@,
                            slots@[s as int],
                            self.cards@.len() as int,
                        );
                        let pool = spec_pool(self.cards@, pre.excluded@, slots@[s as int]);
                        assert(pool[choices@[s as int] as int % pool.len() as int] == c);
                        assert(slot_matches(self.cards@, slots@[s as int], c as int));
                        assert(!pre.excluded@[c as int]);
                        assert(state.chosen@ == pre.chosen@.push(c));
                        // the deterministic step taken by this pick
                        let stepped = spec_step(
                            self.cards@,
                            pre.chosen@,
                            pre.excluded@,
                            slots@[s as int],
                            choices@[s as int],
                        );
                        assert(stepped matches Some(next) && next.0 == state.chosen@ && next.1
                            =~= state.excluded@);
                        assert forall|j: int| 0 <= j < s implies #[trigger] state.chosen@.take(
                            j + 1,
                        ) =~= pre.chosen@.take(j + 1) by {}
                        assert(state.chosen@.take(s + 1) =~= state.chosen@);
                        assert forall|j: int, cc: int|
                            0 <= j < s + 1 && cascade_triggered(
                                self.cards@,
                                state.chosen@.take(j + 1),
                                slots@[j],
                            ) && 0 <= cc < self.cards@.len() && self.cards@[cc].card_type
                            == self.cards@[state.chosen@[j] as int].card_type
                            implies state.excluded@[cc] by {
                            if j < s {
                                assert(pre.excluded@[cc]);
                            }
                        }
                        assert forall|j: int, k: int|
                            0 <= j < k < s + 1 && cascade_triggered(
                                self.cards@,
                                state.chosen@.take(j + 1),
                                slots@[j],
                            ) implies self.cards@[(#[trigger] state.chosen@[k]) as int].card_type
                            != self.cards@[(#[trigger] state.chosen@[j]) as int].card_type by {
                            if k == s {
                                assert(state.chosen@[k] == c);
                                assert(pre.excluded@.len() == self.cards@.len());
                                if self.cards@[c as int].card_type
                                    == self.cards@[state.chosen@[j] as int].card_type {
                                    assert(pre.excluded@[c as int]);
                                }
                            }
                        }
                    }
                },
                Err(e) => {
                    proof {
                        assert(exhaustion_reports(e, pre, slots@[s as int]));
                        assert(spec_step(
                            self.cards@,
                            pre.chosen@,
                            pre.excluded@,
                            slots@[s as int],
                            choices@[s as int],
                        ) is None);
                        assert(prefix_valid(self.cards@, slots@, e.chosen@));
                    }
                    return Err(e);
                },
            }
            s = s + 1;
        }
        proof {
            assert(slots@.skip(slots@.len() as int) =~= Seq::<Slot>::empty());
            assert(pack_valid(self.cards@, slots@, state.chosen@));
        }
        Ok(state.chosen)
    }

    /// Assemble one runner-side pack: the fixed runner constraint sequence,
    /// sampled with the given randomness source.
    pub fn assemble_runner_pack(&self, rng: &mut rand::rngs::ThreadRng) -> (r: Result<
        Vec<usize>,
        Exhaustion,
    >)
        ensures
            r matches Ok(pack) ==> exists|slots: Seq<Slot>|
                slots_realize(
                    slots,
                    runner_filters(),
                    runner_soft_limits(),
                    runner_hard_limit(),
                ) && pack_valid(self.cards@, slots, pack@) && trace_valid(
                    self.cards@,
                    slots,
                    pack@,
                ) && (exists|choices: Seq<usize>|
                    #[trigger] spec_assemble(
                        self.cards@,
                        slots,
                        choices,
                        Seq::<usize>::empty(),
                        fresh_exclusion(self.cards@),
                    ) == Some(pack@)),
            r matches Err(e) ==> exists|slots: Seq<Slot>|
                slots_realize(
                    slots,
                    runner_filters(),
                    runner_soft_limits(),
                    runner_hard_limit(),
                ) && exhaustion_valid(e, slots) && prefix_valid(self.cards@, slots, e.chosen@)
                    && trace_valid(self.cards@, slots, e.chosen@) && spec_pool(
                    self.cards@,
                    excl_after(self.cards@, slots, e.chosen@),
                    slots[e.chosen@.len() as int],
                ).len() == 0,
    {
        let slots = runner_slots();
        let r = self.assemble_pack(&slots, rng);
        proof {
            assert(slots_realize(
                slots@,
                runner_filters(),
                runner_soft_limits(),
                runner_hard_limit(),
            ));
            if r is Ok {
                let pack = r->Ok_0;
                assert(pack_valid(self.cards@, slots@, pack@) && trace_valid(
                    self.cards@,
                    slots@,
                    pack@,
                ));
            } else {
                let e = r->Err_0;
                assert(exhaustion_valid(e, slots@) && prefix_valid(self.cards@, slots@, e.chosen@)
                    && trace_valid(self.cards@, slots@, e.chosen@) && spec_pool(
                    self.cards@,
                    excl_after(self.cards@, slots@, e.chosen@),
                    slots@[e.chosen@.len() as int],
                ).len() == 0);
            }
        }
        r
    }

    /// Assemble one corp-side pack: two faction orders are shuffled afresh
    /// for this pack, and the first assigns the Agenda and paired Uncommon
    /// slots; the slot order itself is fixed.
    pub fn assemble_corp_pack(&self, rng: &mut rand::rngs::ThreadRng) -> (r: Result<
        Vec<usize>,
        Exhaustion,
    >)
        ensures
            r matches Ok(pack) ==> exists|a0: Faction, a1: Faction, slots: Seq<Slot>|
                corp_faction_pool().to_multiset().contains(a0)
                    && corp_faction_pool().to_multiset().contains(a1) && slots_realize(
                    slots,
                    corp_filters(a0, a1),
                    corp_soft_limits(),
                    corp_hard_limit(),
                ) && pack_valid(self.cards@, slots, pack@) && trace_valid(
                    self.cards@,
                    slots,
                    pack@,
                ) && (exists|choices: Seq<usize>|
                    #[trigger] spec_assemble(
                        self.cards@,
                        slots,
                        choices,
                        Seq::<usize>::empty(),
                        fresh_exclusion(self.cards@),
                    ) == Some(pack@)),
            r matches Err(e) ==> exists|a0: Faction, a1: Faction, slots: Seq<Slot>|
                corp_faction_pool().to_multiset().contains(a0)
                    && corp_faction_pool().to_multiset().contains(a1) && slots_realize(
                    slots,
                    corp_filters(a0, a1),
                    corp_soft_limits(),
                    corp_hard_limit(),
                ) && exhaustion_valid(e, slots) && prefix_valid(self.cards@, slots, e.chosen@)
                    && trace_valid(self.cards@, slots, e.chosen@) && spec_pool(
                    self.cards@,
                    excl_after(self.cards@, slots, e.chosen@),
                    slots[e.chosen@.len() as int],
                ).len() == 0,
    {
        let mut agenda_order = corp_faction_list();
        shuffle_factions(rng, &mut agenda_order);
        let mut uncommon_order = corp_faction_list();
        shuffle_factions(rng, &mut uncommon_order);
        let slots = corp_slots(&agenda_order);
        let r = self.assemble_pack(&slots, rng);
        proof {
            let a0 = agenda_order@[0];
            let a1 = agenda_order@[1];
            assert(agenda_order@.to_multiset().contains(a0)) by {
                agenda_order@.to_multiset_ensures();
            }
            assert(agenda_order@.to_multiset().contains(a1)) by {
                agenda_order@.to_multiset_ensures();
            }
            assert(slots_realize(
                slots@,
                corp_filters(a0, a1),
                corp_soft_limits(),
                corp_hard_limit(),
            ));
            if r is Ok {
                let pack = r->Ok_0;
                assert(pack_valid(self.cards@, slots@, pack@) && trace_valid(
                    self.cards@,
                    slots@,
                    pack@,
                ));
            } else {
                let e = r->Err_0;
                assert(exhaustion_valid(e, slots@) && prefix_valid(self.cards@, slots@, e.chosen@)
                    && trace_valid(self.cards@, slots@, e.chosen@) && spec_pool(
                    self.cards@,
                    excl_after(self.cards@, slots@, e.chosen@),
                    slots@[e.chosen@.len() as int],
                ).len() == 0);
            }
        }
        r
    }
}

} // verus!
