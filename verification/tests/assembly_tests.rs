use draft_packs::cards::{Card, CardType, Faction, Rarity, Side};
use draft_packs::catalog::Catalog;
use draft_packs::slots::{corp_slots, runner_slots, Slot};

fn card(name: &str, card_type: CardType, rarity: Rarity, side: Side, faction: Faction) -> Card {
    Card { name: name.to_string(), card_type, rarity, side, faction }
}

fn slot(
    side: Side,
    rarity: Rarity,
    faction: Option<Faction>,
    soft_limits: Vec<(CardType, usize)>,
    hard_limit: usize,
) -> Slot {
    Slot { side, rarity, faction, soft_limits, hard_limit }
}

fn runner_limits() -> Vec<(CardType, usize)> {
    vec![
        (CardType::Event, 2),
        (CardType::Resource, 2),
        (CardType::Program, 2),
        (CardType::Hardware, 1),
    ]
}

fn tiny_runner_catalog() -> Catalog {
    Catalog::from_cards(vec![
        card("A", CardType::Program, Rarity::Rare, Side::Runner, Faction::Shaper),
        card("B", CardType::Event, Rarity::Uncommon, Side::Runner, Faction::Anarch),
        card("C", CardType::Resource, Rarity::Common, Side::Runner, Faction::Criminal),
    ])
}

#[test]
fn single_candidate_slots_produce_the_only_valid_pack() {
    let catalog = tiny_runner_catalog();
    let slots = vec![
        slot(Side::Runner, Rarity::Rare, None, runner_limits(), 3),
        slot(Side::Runner, Rarity::Uncommon, Some(Faction::Anarch), runner_limits(), 3),
        slot(Side::Runner, Rarity::Common, Some(Faction::Criminal), runner_limits(), 3),
    ];
    let mut rng = rand::rng();
    let pack = catalog.assemble_pack(&slots, &mut rng).unwrap();
    assert_eq!(pack, vec![0, 1, 2]);
    let lines = catalog.format_pack(&pack);
    assert_eq!(lines, vec!["1 A (🌕)", "1 B (🌖)", "1 C (🌘)"]);
}

#[test]
fn unsatisfiable_slot_reports_exhaustion_before_any_pick() {
    let catalog = tiny_runner_catalog();
    let slots = vec![slot(Side::Runner, Rarity::Rare, Some(Faction::Criminal), runner_limits(), 3)];
    let mut rng = rand::rng();
    let e = catalog.assemble_pack(&slots, &mut rng).unwrap_err();
    assert!(e.chosen.is_empty());
    assert_eq!(e.side, Side::Runner);
    assert_eq!(e.rarity, Rarity::Rare);
    assert_eq!(e.faction, Some(Faction::Criminal));
}

#[test]
fn exhaustion_mid_pack_names_the_committed_prefix() {
    let catalog = tiny_runner_catalog();
    let slots = vec![
        slot(Side::Runner, Rarity::Rare, None, runner_limits(), 3),
        slot(Side::Runner, Rarity::Agenda, None, runner_limits(), 3),
    ];
    let mut rng = rand::rng();
    let e = catalog.assemble_pack(&slots, &mut rng).unwrap_err();
    assert_eq!(e.chosen, vec![0]);
    assert_eq!(e.rarity, Rarity::Agenda);
    assert_eq!(e.faction, None);
}

fn full_runner_catalog() -> Catalog {
    let mut cards = Vec::new();
    cards.push(card("Rare Shaper Rig", CardType::Program, Rarity::Rare, Side::Runner, Faction::Shaper));
    cards.push(card("Rare Anarch Rig", CardType::Hardware, Rarity::Rare, Side::Runner, Faction::Anarch));
    cards.push(card("Unc Anarch", CardType::Event, Rarity::Uncommon, Side::Runner, Faction::Anarch));
    cards.push(card("Unc Criminal", CardType::Hardware, Rarity::Uncommon, Side::Runner, Faction::Criminal));
    cards.push(card("Unc Shaper", CardType::Program, Rarity::Uncommon, Side::Runner, Faction::Shaper));
    let types = [CardType::Event, CardType::Resource, CardType::Program, CardType::Hardware];
    let factions = [Faction::Anarch, Faction::Criminal, Faction::Shaper, Faction::Neutral];
    for (fi, faction) in factions.iter().enumerate() {
        for (ti, t) in types.iter().enumerate() {
            for copy in 0..3 {
                let name = format!("Common {}-{}-{}", fi, ti, copy);
                cards.push(card(&name, *t, Rarity::Common, Side::Runner, *faction));
            }
        }
    }
    // a corp card, to show side filtering at work
    cards.push(card("Corp Ice", CardType::Ice, Rarity::Common, Side::Corp, Faction::Jinteki));
    Catalog::from_cards(cards)
}

#[test]
fn runner_packs_are_unique_complete_and_conformant() {
    let catalog = full_runner_catalog();
    let slots = runner_slots();
    let mut rng = rand::rng();
    assert_eq!(slots.len(), 10);
    let mut generated = 0;
    for _ in 0..200 {
        // a cascade can legitimately exhaust a small catalog; every pack
        // that is produced must satisfy the pack properties
        let pack = match catalog.assemble_pack(&slots, &mut rng) {
            Ok(pack) => pack,
            Err(_) => continue,
        };
        generated += 1;
        // size: one card per slot
        assert_eq!(pack.len(), slots.len());
        // uniqueness: no identifier twice
        for a in 0..pack.len() {
            for b in (a + 1)..pack.len() {
                assert_ne!(pack[a], pack[b]);
            }
        }
        // filter conformance for every slot
        for (j, s) in slots.iter().enumerate() {
            let c = &catalog.cards[pack[j]];
            assert_eq!(c.side, s.side);
            assert_eq!(c.rarity, s.rarity);
            if let Some(f) = s.faction {
                assert_eq!(c.faction, f);
            }
        }
    }
    assert!(generated > 0);
}

#[test]
fn cascade_excludes_the_overrepresented_type() {
    // Soft limit 1 on events with a budget of 2: the third event spends the
    // budget, so the fourth pick can only be the lone resource.
    let mut cards = Vec::new();
    for i in 0..6 {
        let name = format!("Event {}", i);
        cards.push(card(&name, CardType::Event, Rarity::Common, Side::Runner, Faction::Anarch));
    }
    cards.push(card("Lone Resource", CardType::Resource, Rarity::Common, Side::Runner, Faction::Anarch));
    let catalog = Catalog::from_cards(cards);
    let limits = vec![(CardType::Event, 1)];
    let slots = vec![
        slot(Side::Runner, Rarity::Common, None, limits.clone(), 2),
        slot(Side::Runner, Rarity::Common, None, limits.clone(), 2),
        slot(Side::Runner, Rarity::Common, None, limits.clone(), 2),
        slot(Side::Runner, Rarity::Common, None, limits.clone(), 2),
    ];
    // always pick the lowest-indexed pool element: three events in a row
    // spend the budget, so the fourth pick can only be the lone resource
    let choices = vec![0, 0, 0, 0];
    let pack = catalog.assemble_pack_with(&slots, &choices).unwrap();
    assert_eq!(pack, vec![0, 1, 2, 6]);
    assert_eq!(catalog.cards[pack[3]].card_type, CardType::Resource);
}

#[test]
fn cascade_can_exhaust_the_remaining_slots() {
    // as above, but with no card of another type left to pick
    let mut cards = Vec::new();
    for i in 0..6 {
        let name = format!("Event {}", i);
        cards.push(card(&name, CardType::Event, Rarity::Common, Side::Runner, Faction::Anarch));
    }
    let catalog = Catalog::from_cards(cards);
    let limits = vec![(CardType::Event, 1)];
    let slots: Vec<Slot> = (0..4)
        .map(|_| slot(Side::Runner, Rarity::Common, None, limits.clone(), 2))
        .collect();
    let mut rng = rand::rng();
    let e = catalog.assemble_pack(&slots, &mut rng).unwrap_err();
    assert_eq!(e.chosen.len(), 3);
}

#[test]
fn fixed_choices_give_identical_packs() {
    let catalog = full_runner_catalog();
    let slots = runner_slots();
    let choices: Vec<usize> = vec![7, 1, 12, 0, 3, 9, 4, 2, 8, 5];
    let first = catalog.assemble_pack_with(&slots, &choices).unwrap();
    let second = catalog.assemble_pack_with(&slots, &choices).unwrap();
    assert_eq!(first, second);
}

fn corp_catalog() -> Catalog {
    let corp_factions = [
        Faction::HaasBioroid,
        Faction::WeylandConsortium,
        Faction::Jinteki,
        Faction::NBN,
    ];
    let mut cards = Vec::new();
    cards.push(card("Neutral Rare", CardType::Operation, Rarity::Rare, Side::Corp, Faction::Neutral));
    for (i, f) in corp_factions.iter().enumerate() {
        let name = format!("Agenda {}", i);
        cards.push(card(&name, CardType::Agenda, Rarity::Agenda, Side::Corp, *f));
        let name = format!("Uncommon {}", i);
        cards.push(card(&name, CardType::Asset, Rarity::Uncommon, Side::Corp, *f));
        let name = format!("Common Ice {}", i);
        cards.push(card(&name, CardType::Ice, Rarity::Common, Side::Corp, *f));
        let name = format!("Common Op {}", i);
        cards.push(card(&name, CardType::Operation, Rarity::Common, Side::Corp, *f));
    }
    cards.push(card("Neutral Common", CardType::Upgrade, Rarity::Common, Side::Corp, Faction::Neutral));
    Catalog::from_cards(cards)
}

fn pair_index(a: Faction, b: Faction) -> usize {
    let order = [
        Faction::HaasBioroid,
        Faction::WeylandConsortium,
        Faction::Jinteki,
        Faction::NBN,
    ];
    let ia = order.iter().position(|f| *f == a).unwrap();
    let ib = order.iter().position(|f| *f == b).unwrap();
    let (lo, hi) = if ia < ib { (ia, ib) } else { (ib, ia) };
    match (lo, hi) {
        (0, 1) => 0,
        (0, 2) => 1,
        (0, 3) => 2,
        (1, 2) => 3,
        (1, 3) => 4,
        (2, 3) => 5,
        _ => panic!("not a pair of distinct factions"),
    }
}

#[test]
fn corp_faction_pairings_are_roughly_uniform() {
    let catalog = corp_catalog();
    let mut rng = rand::rng();
    let mut agenda_pairs = [0usize; 6];
    let mut uncommon_pairs = [0usize; 6];
    for _ in 0..1000 {
        let pack = catalog.assemble_corp_pack(&mut rng).unwrap();
        let agendas: Vec<Faction> = pack
            .iter()
            .filter(|i| catalog.cards[**i].rarity == Rarity::Agenda)
            .map(|i| catalog.cards[*i].faction)
            .collect();
        assert_eq!(agendas.len(), 2);
        agenda_pairs[pair_index(agendas[0], agendas[1])] += 1;
        let uncommons: Vec<Faction> = pack
            .iter()
            .filter(|i| catalog.cards[**i].rarity == Rarity::Uncommon)
            .map(|i| catalog.cards[*i].faction)
            .collect();
        assert_eq!(uncommons.len(), 2);
        uncommon_pairs[pair_index(uncommons[0], uncommons[1])] += 1;
    }
    // six unordered pairings, each expected about one sixth of the time
    for count in agenda_pairs {
        assert!(count > 100 && count < 240, "agenda pairing far from uniform: {:?}", agenda_pairs);
    }
    for count in uncommon_pairs {
        assert!(
            count > 100 && count < 240,
            "uncommon pairing far from uniform: {:?}",
            uncommon_pairs
        );
    }
}

#[test]
fn corp_packs_follow_the_corp_constraint_sequence() {
    let catalog = corp_catalog();
    let mut rng = rand::rng();
    for _ in 0..100 {
        let pack = catalog.assemble_corp_pack(&mut rng).unwrap();
        assert_eq!(pack.len(), 10);
        let rarities: Vec<Rarity> = pack.iter().map(|i| catalog.cards[*i].rarity).collect();
        assert_eq!(rarities[0], Rarity::Rare);
        assert_eq!(rarities[1], Rarity::Agenda);
        assert_eq!(rarities[2], Rarity::Agenda);
        assert_eq!(rarities[3], Rarity::Uncommon);
        assert_eq!(rarities[4], Rarity::Uncommon);
        for r in &rarities[5..] {
            assert_eq!(*r, Rarity::Common);
        }
        // the uncommon slots pair with the agenda factions
        assert_eq!(catalog.cards[pack[1]].faction, catalog.cards[pack[3]].faction);
        assert_eq!(catalog.cards[pack[2]].faction, catalog.cards[pack[4]].faction);
        for i in &pack {
            assert_eq!(catalog.cards[*i].side, Side::Corp);
        }
    }
}

#[test]
fn classified_records_assemble_end_to_end() {
    // the worked example, fed through classification instead of hand-built cards
    let mk = |name: &str, ty: &str, influence: Option<i64>, faction: &str| {
        draft_packs::classify::classify_card(draft_packs::classify::RawCard {
            designed_by: "null_signal_games".to_string(),
            name: name.to_string(),
            card_type_id: ty.to_string(),
            influence_cost: influence,
            side_id: "runner".to_string(),
            faction_id: faction.to_string(),
        })
        .unwrap()
        .unwrap()
    };
    let catalog = Catalog::from_cards(vec![
        mk("A", "program", Some(4), "shaper"),
        mk("B", "event", Some(3), "anarch"),
        mk("C", "resource", Some(0), "criminal"),
    ]);
    let slots = vec![
        slot(Side::Runner, Rarity::Rare, None, runner_limits(), 3),
        slot(Side::Runner, Rarity::Uncommon, Some(Faction::Anarch), runner_limits(), 3),
        slot(Side::Runner, Rarity::Common, Some(Faction::Criminal), runner_limits(), 3),
    ];
    let mut rng = rand::rng();
    let pack = catalog.assemble_pack(&slots, &mut rng).unwrap();
    let lines = catalog.format_pack(&pack);
    assert_eq!(lines, vec!["1 A (🌕)", "1 B (🌖)", "1 C (🌘)"]);
}

#[test]
fn corp_slot_builder_reads_the_shuffled_order() {
    let order = vec![
        Faction::NBN,
        Faction::Jinteki,
        Faction::HaasBioroid,
        Faction::WeylandConsortium,
    ];
    let slots = corp_slots(&order);
    assert_eq!(slots.len(), 10);
    assert_eq!(slots[1].faction, Some(Faction::NBN));
    assert_eq!(slots[2].faction, Some(Faction::Jinteki));
    assert_eq!(slots[3].faction, Some(Faction::NBN));
    assert_eq!(slots[4].faction, Some(Faction::Jinteki));
    assert_eq!(slots[9].faction, None);
    for s in &slots {
        assert_eq!(s.side, Side::Corp);
        assert_eq!(s.hard_limit, 2);
    }
}
