use recollect_core::cards::{check_deck, check_deck_for, key_of, test_catalog, validate_deck, validate_deck_for, DeckIssue, DECK_SIZE};
use recollect_core::types::{CardDef, CardId, CardKind, Faction, Reach, Resonance};

fn spirit(id: u16, name: &str) -> CardDef {
    CardDef {
        id: CardId(id),
        key: String::new(),
        name: name.to_string(),
        cost: 1,
        attack: 10,
        defense: 0,
        hp: 30,
        reach: Reach::Cross,
        resonance: Resonance::Harmony,
        arcane: false,
        warded: false,
        mobile: false,
        steadfast: false,
        relentless: false,
        lurk: false,
        kind: CardKind::Spirit,
        rarity: String::new(),
        evolves_to: Vec::new(),
        evolves_from: None,
        imprints: Vec::new(),
    }
}

/// A small catalog: 22 plain Lorekeeper spirits (ids 0..22), a base→form line (ids
/// 100/101) and an off-faction Solace creature (id 200).
fn mini() -> Vec<CardDef> {
    let mut v: Vec<CardDef> = (0..22u16).map(|i| spirit(i, &format!("Spirit{i}"))).collect();
    let mut base = spirit(100, "Cub");
    base.evolves_to = vec!["Direwolf".to_string()];
    v.push(base);
    let mut form = spirit(101, "Direwolf");
    form.cost = 2;
    form.attack = 40;
    form.defense = 10;
    form.hp = 50;
    form.kind = CardKind::Evolution;
    form.rarity = "Primal".to_string();
    form.evolves_from = Some("Cub".to_string());
    v.push(form);
    let mut spite = spirit(200, "Spite");
    spite.kind = CardKind::Unwritten;
    v.push(spite);
    v
}

/// A singleton run of `n` distinct plain spirits (ids 0..n).
fn distinct(n: u16) -> Vec<CardId> {
    (0..n).map(CardId).collect()
}

#[test]
fn validate_deck_pins_the_size_boundary() {
    let cat = mini();
    assert!(validate_deck(&distinct(20), &cat).is_ok(), "20 cards is legal");
    assert!(validate_deck(&distinct(19), &cat).is_err(), "19 cards is too few");
    assert!(validate_deck(&distinct(21), &cat).is_err(), "21 cards is too many");
}

#[test]
fn validate_deck_pins_the_two_copy_singleton_boundary() {
    let cat = mini();
    let mut two: Vec<CardId> = vec![CardId(0), CardId(0)];
    two.extend((1..19u16).map(CardId));
    assert_eq!(two.len(), 20);
    assert!(validate_deck(&two, &cat).is_ok(), "exactly 2 copies is the singleton boundary — allowed");
    let mut three: Vec<CardId> = vec![CardId(0), CardId(0), CardId(0)];
    three.extend((1..18u16).map(CardId));
    assert_eq!(three.len(), 20);
    let err = validate_deck(&three, &cat).unwrap_err();
    assert!(err.contains("more than 2 copies"), "3 copies of a card is rejected, got: {err}");
}

#[test]
fn validate_deck_rejects_an_unknown_card_id() {
    let cat = mini();
    let mut deck = distinct(19);
    deck.push(CardId(9999));
    let err = validate_deck(&deck, &cat).unwrap_err();
    assert!(err.contains("unknown card id"), "an id absent from the catalog is rejected, got: {err}");
}

#[test]
fn validate_deck_for_pins_the_size_boundary() {
    let cat = mini();
    assert!(validate_deck_for(&distinct(20), &cat, Faction::Lorekeeper).is_ok(), "20 distinct Lorekeeper spirits is legal");
    assert!(validate_deck_for(&distinct(19), &cat, Faction::Lorekeeper).is_err());
    assert!(validate_deck_for(&distinct(21), &cat, Faction::Lorekeeper).is_err());
}

#[test]
fn validate_deck_for_is_strictly_singleton() {
    let cat = mini();
    let mut two: Vec<CardId> = vec![CardId(0), CardId(0)];
    two.extend((1..19u16).map(CardId));
    let err = validate_deck_for(&two, &cat, Faction::Lorekeeper).unwrap_err();
    assert!(err.contains("singleton"), "the deck standard rejects even a 2nd copy, got: {err}");
}

#[test]
fn validate_deck_for_enforces_faction_purity() {
    let cat = mini();
    let mut deck = distinct(19);
    deck.push(CardId(200));
    let err = validate_deck_for(&deck, &cat, Faction::Lorekeeper).unwrap_err();
    assert!(err.contains("not deck-playable"), "a Solace creature is off-faction for a Lorekeeper, got: {err}");
}

#[test]
fn validate_deck_for_rejects_an_orphan_evolution() {
    let cat = mini();
    let mut orphan = distinct(19);
    orphan.push(CardId(101));
    let err = validate_deck_for(&orphan, &cat, Faction::Lorekeeper).unwrap_err();
    assert!(err.contains("orphan evolution"), "a form with no base that reaches it is rejected, got: {err}");
    let mut paired = distinct(18);
    paired.push(CardId(100));
    paired.push(CardId(101));
    assert_eq!(paired.len(), 20);
    assert!(validate_deck_for(&paired, &cat, Faction::Lorekeeper).is_ok(), "the base↔form pair is no longer an orphan");
}

#[test]
fn validate_deck_for_orphan_check_keys_on_the_exact_form_name() {
    let mut cat = mini();
    let mut decoy = cat[0].clone();
    decoy.id = CardId(150);
    decoy.name = "Decoy".to_string();
    decoy.kind = CardKind::Spirit;
    decoy.evolves_to = vec!["Elsewhere".to_string()];
    cat.push(decoy);
    let mut deck = distinct(18);
    deck.push(CardId(150));
    deck.push(CardId(101));
    assert_eq!(deck.len(), 20);
    let err = validate_deck_for(&deck, &cat, Faction::Lorekeeper).unwrap_err();
    assert!(err.contains("orphan evolution"), "a base that reaches a DIFFERENT form does not satisfy this form, got: {err}");
}

#[test]
fn deck_verdicts_read_exactly() {
    let cat = mini();
    assert_eq!(validate_deck(&distinct(19), &cat).unwrap_err(), "deck must be 20 cards, got 19");
    let mut deck = distinct(19);
    deck.push(CardId(9999));
    assert_eq!(validate_deck(&deck, &cat).unwrap_err(), "unknown card id CardId(9999)");
    let mut three: Vec<CardId> = vec![CardId(7), CardId(7), CardId(7)];
    three.extend((8..25u16).map(|i| CardId(i % 22)));
    assert_eq!(validate_deck(&three, &cat).unwrap_err(), "more than 2 copies of CardId(7)");
    let mut off = distinct(19);
    off.push(CardId(200));
    assert_eq!(validate_deck_for(&off, &cat, Faction::Lorekeeper).unwrap_err(), "Spite is not deck-playable for Lorekeeper");
    let mut dup = distinct(19);
    dup.push(CardId(3));
    assert_eq!(validate_deck_for(&dup, &cat, Faction::Lorekeeper).unwrap_err(), "duplicate card Spirit3 — decks are singleton");
    let mut orphan = distinct(19);
    orphan.push(CardId(101));
    assert_eq!(
        validate_deck_for(&orphan, &cat, Faction::Lorekeeper).unwrap_err(),
        "Direwolf is an orphan evolution — no base in the deck reaches it"
    );
}

#[test]
fn a_solace_deck_takes_primal_forms_only() {
    let mut cat = mini();
    // Solace creatures 300..318 and a Solace base 400 reaching a Fabled form 401.
    for i in 0..18u16 {
        let mut c = spirit(300 + i, &format!("Shade{i}"));
        c.kind = CardKind::Unwritten;
        cat.push(c);
    }
    let mut base = spirit(400, "Hollow");
    base.kind = CardKind::Unwritten;
    base.evolves_to = vec!["Hollow Crowned".to_string()];
    cat.push(base);
    let mut form = spirit(401, "Hollow Crowned");
    form.kind = CardKind::Evolution;
    form.rarity = "Fabled".to_string();
    form.evolves_from = Some("Hollow".to_string());
    cat.push(form);
    let mut deck: Vec<CardId> = (300..318u16).map(CardId).collect();
    deck.push(CardId(400));
    deck.push(CardId(401));
    assert_eq!(
        validate_deck_for(&deck, &cat, Faction::Solace).unwrap_err(),
        "Hollow Crowned is a Fabled form — the Solace deepens to Primal only, never Fabled"
    );
    // The same cards are off-faction for a Lorekeeper.
    assert!(validate_deck_for(&deck, &cat, Faction::Lorekeeper).is_err());
    // With the form made Primal the deck is legal, and it passes the loose check too.
    cat.last_mut().unwrap().rarity = "Primal".to_string();
    assert!(validate_deck_for(&deck, &cat, Faction::Solace).is_ok());
    assert!(validate_deck(&deck, &cat).is_ok());
}

#[test]
fn typed_deck_verdicts_name_the_first_broken_rule() {
    let cat = mini();
    assert!(matches!(check_deck(&distinct(21), &cat), Err(DeckIssue::WrongSize { got: 21 })));
    assert!(matches!(check_deck_for(&distinct(DECK_SIZE as u16), &cat, Faction::Solace),
        Err(DeckIssue::NotDeckPlayable { faction: Faction::Solace, .. })));
    assert!(check_deck(&distinct(20), &cat).is_ok());
}

#[test]
fn key_of_maps_names_to_keys() {
    let mut canon = mini();
    canon[3].key = "spirit-three".to_string();
    assert_eq!(key_of(&canon, "Spirit3"), "spirit-three");
    assert_eq!(key_of(&canon, "Nobody"), "");
    // A later card of the same name wins.
    let mut again = spirit(500, "Spirit3");
    again.key = "renamed-three".to_string();
    canon.push(again);
    assert_eq!(key_of(&canon, "Spirit3"), "renamed-three");
}

#[test]
fn the_test_catalog_lists_eighteen_plain_spirits() {
    let cat = test_catalog();
    assert_eq!(cat.len(), 18);
    for (i, c) in cat.iter().enumerate() {
        assert_eq!(c.id, CardId(i as u16));
        assert_eq!(c.kind, CardKind::Spirit);
    }
    assert_eq!(cat[1].name, "Stargazer Heron");
    assert!(cat[1].arcane);
    assert!(cat[7].warded && cat[11].warded);
    assert!(cat[14].mobile && cat[15].steadfast && cat[16].relentless);
    assert_eq!((cat[17].cost, cat[17].attack, cat[17].defense, cat[17].hp), (5, 60, 30, 70));
    assert_eq!(cat[9].reach, Reach::Lance);
    assert_eq!(cat[3].resonance, Resonance::Fear);
}

/// A hand-made catalog in the shape of the canon: Lorekeeper spirits, a Lorekeeper Fabled
/// form, a run of Solace creatures and events, and the Solace line Spite → Spite, Made
/// Whole (a Primal Deepening).
fn solace_catalog() -> Vec<CardDef> {
    let mut cat = mini();
    let mut fabled = spirit(120, "Direwolf Ascendant");
    fabled.kind = CardKind::Evolution;
    fabled.rarity = "Fabled".to_string();
    fabled.evolves_from = Some("Cub".to_string());
    cat.push(fabled);
    for i in 0..24u16 {
        let mut c = spirit(500 + i, &format!("Solace{i}"));
        c.kind = if i % 3 == 0 { CardKind::Unwriting } else { CardKind::Unwritten };
        cat.push(c);
    }
    cat.retain(|c| c.name != "Spite");
    let mut spite = spirit(200, "Spite");
    spite.kind = CardKind::Unwritten;
    spite.evolves_to = vec!["Spite, Made Whole".to_string()];
    cat.push(spite);
    let mut whole = spirit(201, "Spite, Made Whole");
    whole.kind = CardKind::Evolution;
    whole.rarity = "Primal".to_string();
    whole.evolves_from = Some("Spite".to_string());
    cat.push(whole);
    cat
}

#[test]
fn singleton_faction_pure_decks_validate() {
    let cat = solace_catalog();
    let solace: Vec<CardId> = cat
        .iter()
        .filter(|c| c.kind.deck_playable_for(Faction::Solace) && c.kind != CardKind::Evolution)
        .take(DECK_SIZE)
        .map(|c| c.id)
        .collect();
    assert_eq!(solace.len(), DECK_SIZE, "the Solace creature/event pool covers a full deck");
    assert!(validate_deck_for(&solace, &cat, Faction::Solace).is_ok());
    assert!(validate_deck_for(&solace, &cat, Faction::Lorekeeper).is_err());
    let mut dup = solace.clone();
    dup[1] = dup[0];
    assert!(validate_deck_for(&dup, &cat, Faction::Solace).is_err());

    let mut paired = solace.clone();
    let spite = cat.iter().find(|c| c.name == "Spite").unwrap().id;
    let spite_form = cat.iter().find(|c| c.name == "Spite, Made Whole").unwrap().id;
    paired.retain(|&id| id != spite && id != spite_form);
    paired.truncate(DECK_SIZE - 2);
    paired.push(spite);
    paired.push(spite_form);
    assert!(validate_deck_for(&paired, &cat, Faction::Solace).is_ok(), "a Solace deck with a base↔Deepening pair is legal");
    let fabled = cat.iter().find(|c| c.kind == CardKind::Evolution && c.rarity == "Fabled").unwrap().id;
    let mut with_fabled = paired.clone();
    *with_fabled.last_mut().unwrap() = fabled;
    assert!(
        validate_deck_for(&with_fabled, &cat, Faction::Solace).is_err(),
        "a Fabled form is illegal in a Solace deck — the Solace deepens to Primal only"
    );
}
