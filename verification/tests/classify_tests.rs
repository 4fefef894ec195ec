use draft_packs::cards::{CardType, Faction, Rarity, Side};
use draft_packs::classify::{classify_card, derive_rarity, parse_card_type, parse_faction,
    parse_side, CatalogError, RawCard};

fn raw(
    designed_by: &str,
    name: &str,
    card_type_id: &str,
    influence_cost: Option<i64>,
    side_id: &str,
    faction_id: &str,
) -> RawCard {
    RawCard {
        designed_by: designed_by.to_string(),
        name: name.to_string(),
        card_type_id: card_type_id.to_string(),
        influence_cost,
        side_id: side_id.to_string(),
        faction_id: faction_id.to_string(),
    }
}

fn official(name: &str, card_type_id: &str, influence_cost: Option<i64>, side_id: &str, faction_id: &str) -> RawCard {
    raw("null_signal_games", name, card_type_id, influence_cost, side_id, faction_id)
}

#[test]
fn parses_every_card_type() {
    assert_eq!(parse_card_type("event"), Some(CardType::Event));
    assert_eq!(parse_card_type("resource"), Some(CardType::Resource));
    assert_eq!(parse_card_type("program"), Some(CardType::Program));
    assert_eq!(parse_card_type("hardware"), Some(CardType::Hardware));
    assert_eq!(parse_card_type("agenda"), Some(CardType::Agenda));
    assert_eq!(parse_card_type("asset"), Some(CardType::Asset));
    assert_eq!(parse_card_type("ice"), Some(CardType::Ice));
    assert_eq!(parse_card_type("operation"), Some(CardType::Operation));
    assert_eq!(parse_card_type("upgrade"), Some(CardType::Upgrade));
    assert_eq!(parse_card_type("planet"), None);
}

#[test]
fn parses_sides_and_factions() {
    assert_eq!(parse_side("runner"), Some(Side::Runner));
    assert_eq!(parse_side("corp"), Some(Side::Corp));
    assert_eq!(parse_side("neutral"), None);
    assert_eq!(parse_faction("neutral_runner"), Some(Faction::Neutral));
    assert_eq!(parse_faction("neutral_corp"), Some(Faction::Neutral));
    assert_eq!(parse_faction("anarch"), Some(Faction::Anarch));
    assert_eq!(parse_faction("criminal"), Some(Faction::Criminal));
    assert_eq!(parse_faction("shaper"), Some(Faction::Shaper));
    assert_eq!(parse_faction("jinteki"), Some(Faction::Jinteki));
    assert_eq!(parse_faction("haas_bioroid"), Some(Faction::HaasBioroid));
    assert_eq!(parse_faction("nbn"), Some(Faction::NBN));
    assert_eq!(parse_faction("weyland_consortium"), Some(Faction::WeylandConsortium));
    assert_eq!(parse_faction("adam"), None);
}

#[test]
fn rarity_bands_from_influence() {
    assert_eq!(derive_rarity("X", Some(0), CardType::Event), Some(Rarity::Common));
    assert_eq!(derive_rarity("X", Some(2), CardType::Event), Some(Rarity::Common));
    assert_eq!(derive_rarity("X", Some(3), CardType::Event), Some(Rarity::Uncommon));
    assert_eq!(derive_rarity("X", Some(4), CardType::Event), Some(Rarity::Rare));
    assert_eq!(derive_rarity("X", Some(5), CardType::Event), Some(Rarity::Rare));
    assert_eq!(derive_rarity("X", Some(6), CardType::Event), None);
    assert_eq!(derive_rarity("X", Some(-1), CardType::Event), None);
    assert_eq!(derive_rarity("X", None, CardType::Event), None);
}

#[test]
fn rarity_agenda_type_and_overrides() {
    assert_eq!(derive_rarity("X", None, CardType::Agenda), Some(Rarity::Agenda));
    assert_eq!(derive_rarity("Tribuatry", Some(0), CardType::Event), Some(Rarity::Rare));
    assert_eq!(derive_rarity("Gold Farmer", Some(0), CardType::Ice), Some(Rarity::Rare));
    assert_eq!(derive_rarity("Rezeki", Some(0), CardType::Program), Some(Rarity::Uncommon));
    assert_eq!(derive_rarity("Nanisivik Grid", Some(0), CardType::Upgrade), Some(Rarity::Rare));
    assert_eq!(derive_rarity("Engram Flush", Some(0), CardType::Ice), Some(Rarity::Rare));
}

#[test]
fn classifies_a_full_record() {
    let r = classify_card(official("Sure Gamble", "event", Some(0), "runner", "neutral_runner"));
    let card = r.unwrap().unwrap();
    assert_eq!(card.name, "Sure Gamble");
    assert_eq!(card.card_type, CardType::Event);
    assert_eq!(card.rarity, Rarity::Common);
    assert_eq!(card.side, Side::Runner);
    assert_eq!(card.faction, Faction::Neutral);
}

#[test]
fn skips_unofficial_denylisted_and_identity_records() {
    let r = classify_card(raw("other_designer", "Some Card", "event", Some(0), "runner", "anarch"));
    assert!(matches!(r, Ok(None)));
    let r = classify_card(official("Direct Access", "event", Some(0), "runner", "anarch"));
    assert!(matches!(r, Ok(None)));
    let r = classify_card(official("Jeitinho", "event", Some(0), "runner", "anarch"));
    assert!(matches!(r, Ok(None)));
    let r = classify_card(official("Ken", "runner_identity", Some(0), "runner", "criminal"));
    assert!(matches!(r, Ok(None)));
    let r = classify_card(official("PE", "corp_identity", Some(0), "corp", "jinteki"));
    assert!(matches!(r, Ok(None)));
}

#[test]
fn reports_unknown_card_type() {
    let r = classify_card(official("Weird", "planet", Some(0), "runner", "anarch"));
    match r {
        Err(CatalogError::UnknownCardType { value, name }) => {
            assert_eq!(value, "planet");
            assert_eq!(name, "Weird");
        },
        other => panic!("expected an unknown card type error, got {:?}", other),
    }
}

#[test]
fn reports_unknown_rarity() {
    let r = classify_card(official("Pricey", "event", Some(9), "runner", "anarch"));
    match r {
        Err(CatalogError::UnknownRarity { value, name }) => {
            assert_eq!(value, Some(9));
            assert_eq!(name, "Pricey");
        },
        other => panic!("expected an unknown rarity error, got {:?}", other),
    }
    let r = classify_card(official("Costless", "event", None, "runner", "anarch"));
    assert!(matches!(r, Err(CatalogError::UnknownRarity { value: None, .. })));
}

#[test]
fn reports_unknown_side_and_faction() {
    let r = classify_card(official("Sideways", "event", Some(0), "middle", "anarch"));
    match r {
        Err(CatalogError::UnknownSide { value, name }) => {
            assert_eq!(value, "middle");
            assert_eq!(name, "Sideways");
        },
        other => panic!("expected an unknown side error, got {:?}", other),
    }
    let r = classify_card(official("Factionless", "event", Some(0), "runner", "adam"));
    match r {
        Err(CatalogError::UnknownFaction { value, name }) => {
            assert_eq!(value, "adam");
            assert_eq!(name, "Factionless");
        },
        other => panic!("expected an unknown faction error, got {:?}", other),
    }
}
