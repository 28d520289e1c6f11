//! Card resolution over a catalog, the name → key bridge, and constructed-deck legality.
use vstd::prelude::*;

use crate::text::{push_nat, push_text, spec_digits};
use crate::types::{CardDef, CardId, CardKind, Faction, Reach, Resonance};

verus! {

/// Constructed-deck size.
pub const DECK_SIZE: usize = 20;

/// The first catalog index at or after `i` holding `id`.
pub open spec fn spec_find_from(cat: Seq<CardDef>, id: CardId, i: int) -> Option<int>
    decreases cat.len() - i,
{
    if i < 0 || i >= cat.len() {
        None
    } else if cat[i].id == id {
        Some(i)
    } else {
        spec_find_from(cat, id, i + 1)
    }
}

/// The first catalog index holding `id`.
pub open spec fn spec_find_index(cat: Seq<CardDef>, id: CardId) -> Option<int> {
    spec_find_from(cat, id, 0)
}

/// Whether the catalog holds a card with this id.
pub open spec fn catalog_has(cat: Seq<CardDef>, id: CardId) -> bool {
    exists|i: int| 0 <= i < cat.len() && (#[trigger] cat[i]).id == id
}

/// Where `id` resolves: the dense slot `id` when it holds that card, else the first
/// match in catalog order.
pub open spec fn spec_card_index(cat: Seq<CardDef>, id: CardId) -> Option<int> {
    if (id.0 as int) < cat.len() && cat[id.0 as int].id == id {
        Some(id.0 as int)
    } else {
        spec_find_index(cat, id)
    }
}

/// The card `id` resolves to (meaningful when the catalog holds it).
pub open spec fn spec_card(cat: Seq<CardDef>, id: CardId) -> CardDef {
    cat[spec_card_index(cat, id)->0]
}

pub proof fn lemma_find_from(cat: Seq<CardDef>, id: CardId, i: int)
    requires
        0 <= i,
    ensures
        spec_find_from(cat, id, i) matches Some(k) ==> i <= k < cat.len() && cat[k].id == id
            && forall|j: int| i <= j < k ==> (#[trigger] cat[j]).id != id,
        spec_find_from(cat, id, i) is None ==> forall|j: int| i <= j < cat.len() ==> (#[trigger] cat[j]).id != id,
    decreases cat.len() - i,
{
    if i < cat.len() && cat[i].id != id {
        lemma_find_from(cat, id, i + 1);
    }
}

pub proof fn lemma_find_index_props(cat: Seq<CardDef>, id: CardId)
    ensures
        catalog_has(cat, id) <==> spec_find_index(cat, id) is Some,
        spec_find_index(cat, id) matches Some(i) ==> 0 <= i < cat.len() && cat[i].id == id
            && forall|j: int| 0 <= j < i ==> (#[trigger] cat[j]).id != id,
        spec_card_index(cat, id) matches Some(i) ==> 0 <= i < cat.len() && cat[i].id == id,
        catalog_has(cat, id) <==> spec_card_index(cat, id) is Some,
{
    lemma_find_from(cat, id, 0);
}

/// The first card with this id, if any.
pub fn find_card(catalog: &[CardDef], id: CardId) -> (r: Option<&CardDef>)
    ensures
        match r {
            Some(c) => spec_find_index(catalog@, id) matches Some(i) && *c == catalog@[i],
            None => spec_find_index(catalog@, id) is None,
        },
{
    let n = catalog.len();
    for i in 0..n
        invariant
            n == catalog@.len(),
            spec_find_index(catalog@, id) == spec_find_from(catalog@, id, i as int),
    {
        if catalog[i].id.0 == id.0 {
            return Some(&catalog[i]);
        }
    }
    None
}

/// Resolve a card by id: the O(1) dense slot first, the catalog scan as the fallback.
pub fn lookup_card(catalog: &[CardDef], id: CardId) -> (r: Option<&CardDef>)
    ensures
        match r {
            Some(c) => spec_card_index(catalog@, id) matches Some(i) && *c == catalog@[i],
            None => spec_card_index(catalog@, id) is None,
        },
{
    let i = id.0 as usize;
    if i < catalog.len() && catalog[i].id.0 == id.0 {
        return Some(&catalog[i]);
    }
    find_card(catalog, id)
}

/// Resolve a card the catalog is known to hold.
pub fn card(catalog: &[CardDef], id: CardId) -> (r: &CardDef)
    requires
        catalog_has(catalog@, id),
    ensures
        *r == spec_card(catalog@, id),
        r.id == id,
{
    proof {
        lemma_find_index_props(catalog@, id);
    }
    lookup_card(catalog, id).unwrap()
}

/// The last index below `n` whose card carries this name.
pub open spec fn spec_last_below(cat: Seq<CardDef>, name: Seq<char>, n: int) -> Option<int>
    decreases n,
{
    if n <= 0 || n > cat.len() {
        None
    } else if cat[n - 1].name@ == name {
        Some(n - 1)
    } else {
        spec_last_below(cat, name, n - 1)
    }
}

/// The last catalog index whose card carries this name.
pub open spec fn spec_last_with_name(cat: Seq<CardDef>, name: Seq<char>) -> Option<int> {
    spec_last_below(cat, name, cat.len() as int)
}

/// The key a display name maps to in `canon`: the key of the last card carrying that
/// name (a later card of the same name overrides an earlier one), or empty.
pub open spec fn spec_key_of(canon: Seq<CardDef>, name: Seq<char>) -> Seq<char> {
    match spec_last_with_name(canon, name) {
        Some(i) => canon[i].key@,
        None => Seq::empty(),
    }
}

/// Resolve a card's display `name` to its stable `key` over the canon catalog. Unknown
/// names map to `""` (no spec). Survives renames: the catalog carries both name and key.
pub fn key_of(canon: &[CardDef], name: &str) -> (r: String)
    ensures
        r@ == spec_key_of(canon@, name@),
{
    let target = name.to_string();
    proof {
        vstd::string::to_string_from_display_ensures_for_str(name, target);
    }
    let n = canon.len();
    let mut i = n;
    while i > 0
        invariant
            i <= n == canon@.len(),
            target@ == name@,
            spec_last_with_name(canon@, name@) == spec_last_below(canon@, name@, i as int),
        decreases i,
    {
        if canon[i - 1].name == target {
            return canon[i - 1].key.clone();
        }
        i = i - 1;
    }
    String::new()
}

// ---------------------------------------------------------------------------
// Deck legality
// ---------------------------------------------------------------------------

/// Why a deck is illegal.
#[derive(Debug, Clone)]
pub enum DeckIssue {
    /// Not exactly `DECK_SIZE` cards.
    WrongSize { got: usize },
    /// An id absent from the catalog.
    UnknownCard { id: CardId },
    /// A third copy of a card (the loose ≤2 check).
    TooManyCopies { id: CardId },
    /// A card its faction may not build with.
    NotDeckPlayable { name: String, faction: Faction },
    /// A second copy (the singleton standard).
    Duplicate { name: String },
    /// A non-Primal evolution form in a Solace deck.
    NotPrimal { name: String, rarity: String },
    /// An evolution form no base in the deck reaches.
    OrphanEvolution { name: String },
}

/// How many of the first `n` deck slots hold `x`.
pub open spec fn spec_count(deck: Seq<CardId>, x: CardId, n: int) -> nat
    decreases n,
{
    if n <= 0 {
        0
    } else {
        spec_count(deck, x, n - 1) + if deck[n - 1] == x { 1nat } else { 0nat }
    }
}

/// Slot `i` breaks the loose check: an unknown id, or the third copy of an id.
pub open spec fn loose_bad_at(deck: Seq<CardId>, cat: Seq<CardDef>, i: int) -> bool {
    !catalog_has(cat, deck[i]) || spec_count(deck, deck[i], i + 1) > 2
}

/// The first slot at or after `i` breaking the loose check.
pub open spec fn spec_loose_bad_from(deck: Seq<CardId>, cat: Seq<CardDef>, i: int) -> Option<int>
    decreases deck.len() - i,
{
    if i < 0 || i >= deck.len() {
        None
    } else if loose_bad_at(deck, cat, i) {
        Some(i)
    } else {
        spec_loose_bad_from(deck, cat, i + 1)
    }
}

/// The first slot breaking the loose check.
pub open spec fn spec_first_loose_bad(deck: Seq<CardId>, cat: Seq<CardDef>) -> Option<int> {
    spec_loose_bad_from(deck, cat, 0)
}

/// The verdict of the loose check: exactly `DECK_SIZE` cards, every id in the catalog,
/// no card more than twice — reported at the first slot that breaks a rule.
pub open spec fn spec_loose_issue(deck: Seq<CardId>, cat: Seq<CardDef>) -> Option<DeckIssue> {
    if deck.len() != DECK_SIZE {
        Some(DeckIssue::WrongSize { got: deck.len() as usize })
    } else {
        match spec_first_loose_bad(deck, cat) {
            None => None,
            Some(i) => if !catalog_has(cat, deck[i]) {
                Some(DeckIssue::UnknownCard { id: deck[i] })
            } else {
                Some(DeckIssue::TooManyCopies { id: deck[i] })
            },
        }
    }
}

/// Count the copies of `x` among the first `n` slots.
fn count_prefix(deck: &[CardId], x: CardId, n: usize) -> (r: usize)
    requires
        n <= deck@.len(),
    ensures
        r == spec_count(deck@, x, n as int),
{
    let mut c: usize = 0;
    let mut k: usize = 0;
    while k < n
        invariant
            k <= n <= deck@.len(),
            c == spec_count(deck@, x, k as int),
            c <= k,
        decreases n - k,
    {
        if deck[k].0 == x.0 {
            c = c + 1;
        }
        k = k + 1;
    }
    c
}

/// The loose deck check with a typed verdict.
pub fn check_deck(deck: &[CardId], catalog: &[CardDef]) -> (r: Result<(), DeckIssue>)
    ensures
        match r {
            Ok(()) => spec_loose_issue(deck@, catalog@) is None,
            Err(e) => spec_loose_issue(deck@, catalog@) == Some(e),
        },
{
    if deck.len() != DECK_SIZE {
        return Err(DeckIssue::WrongSize { got: deck.len() });
    }
    let n = deck.len();
    for i in 0..n
        invariant
            n == deck@.len() == DECK_SIZE,
            spec_first_loose_bad(deck@, catalog@) == spec_loose_bad_from(deck@, catalog@, i as int),
    {
        let id = deck[i];
        let found = find_card(catalog, id);
        proof {
            lemma_find_index_props(catalog@, id);
        }
        if found.is_none() {
            return Err(DeckIssue::UnknownCard { id });
        }
        let c = count_prefix(deck, id, i + 1);
        if c > 2 {
            return Err(DeckIssue::TooManyCopies { id });
        }
    }
    Ok(())
}

/// Slot `i` breaks the singleton standard: an unknown id, a card its faction may not
/// build with, or a second copy.
pub open spec fn strict_bad_at(deck: Seq<CardId>, cat: Seq<CardDef>, faction: Faction, i: int) -> bool {
    !catalog_has(cat, deck[i])
        || !cat[spec_find_index(cat, deck[i])->0].kind.spec_deck_playable_for(faction)
        || spec_count(deck, deck[i], i) > 0
}

pub open spec fn spec_strict_bad_from(deck: Seq<CardId>, cat: Seq<CardDef>, faction: Faction, i: int) -> Option<int>
    decreases deck.len() - i,
{
    if i < 0 || i >= deck.len() {
        None
    } else if strict_bad_at(deck, cat, faction, i) {
        Some(i)
    } else {
        spec_strict_bad_from(deck, cat, faction, i + 1)
    }
}

/// Whether some deck card (resolved in the catalog) carries this name.
pub open spec fn name_in_deck(deck: Seq<CardId>, cat: Seq<CardDef>, name: Seq<char>) -> bool {
    exists|j: int| 0 <= j < deck.len() && catalog_has(cat, deck[j])
        && #[trigger] cat[spec_find_index(cat, deck[j])->0].name@ == name
}

/// Whether the catalog holds a base in the deck whose `evolves_to` names this form.
pub open spec fn has_base_in_deck(deck: Seq<CardId>, cat: Seq<CardDef>, form: Seq<char>) -> bool {
    exists|b: int| 0 <= b < cat.len() && name_in_deck(deck, cat, (#[trigger] cat[b]).name@)
        && exists|f: int| 0 <= f < cat[b].evolves_to@.len() && (#[trigger] cat[b].evolves_to@[f])@ == form
}

/// Slot `i` holds an evolution form the deck may not carry: a non-Primal form in a Solace
/// deck, or an orphan no base in the deck reaches.
pub open spec fn form_bad_at(deck: Seq<CardId>, cat: Seq<CardDef>, faction: Faction, i: int) -> bool {
    let c = cat[spec_find_index(cat, deck[i])->0];
    c.kind == CardKind::Evolution && (
        (faction == Faction::Solace && c.rarity@ != "Primal"@)
        || !has_base_in_deck(deck, cat, c.name@))
}

pub open spec fn spec_form_bad_from(deck: Seq<CardId>, cat: Seq<CardDef>, faction: Faction, i: int) -> Option<int>
    decreases deck.len() - i,
{
    if i < 0 || i >= deck.len() {
        None
    } else if form_bad_at(deck, cat, faction, i) {
        Some(i)
    } else {
        spec_form_bad_from(deck, cat, faction, i + 1)
    }
}

/// The verdict of the deck standard: exactly `DECK_SIZE` cards; each slot in order known,
/// deck-playable for the faction, and not a repeat; then each evolution form in order
/// Primal (for the Solace) and reached by a base in the deck.
pub open spec fn spec_strict_issue(deck: Seq<CardId>, cat: Seq<CardDef>, faction: Faction) -> Option<DeckIssue> {
    if deck.len() != DECK_SIZE {
        Some(DeckIssue::WrongSize { got: deck.len() as usize })
    } else {
        match spec_strict_bad_from(deck, cat, faction, 0) {
            Some(i) => {
                if !catalog_has(cat, deck[i]) {
                    Some(DeckIssue::UnknownCard { id: deck[i] })
                } else {
                    let c = cat[spec_find_index(cat, deck[i])->0];
                    if !c.kind.spec_deck_playable_for(faction) {
                        Some(DeckIssue::NotDeckPlayable { name: c.name, faction })
                    } else {
                        Some(DeckIssue::Duplicate { name: c.name })
                    }
                }
            },
            None => match spec_form_bad_from(deck, cat, faction, 0) {
                None => None,
                Some(i) => {
                    let c = cat[spec_find_index(cat, deck[i])->0];
                    if faction == Faction::Solace && c.rarity@ != "Primal"@ {
                        Some(DeckIssue::NotPrimal { name: c.name, rarity: c.rarity })
                    } else {
                        Some(DeckIssue::OrphanEvolution { name: c.name })
                    }
                }
            },
        }
    }
}

/// Whether some deck card resolves to a card named `name`.
fn deck_has_name(deck: &[CardId], catalog: &[CardDef], name: &String) -> (r: bool)
    ensures
        r == name_in_deck(deck@, catalog@, name@),
{
    let n = deck.len();
    for j in 0..n
        invariant
            n == deck@.len(),
            forall|k: int| 0 <= k < j ==> !(catalog_has(catalog@, deck@[k])
                && #[trigger] catalog@[spec_find_index(catalog@, deck@[k])->0].name@ == name@),
    {
        proof {
            lemma_find_index_props(catalog@, deck@[j as int]);
        }
        match find_card(catalog, deck[j]) {
            Some(c) => {
                if c.name == *name {
                    return true;
                }
            },
            None => {},
        }
    }
    false
}

/// Whether a name appears in a list of names.
fn names_contain(names: &Vec<String>, name: &String) -> (r: bool)
    ensures
        r == exists|f: int| 0 <= f < names@.len() && (#[trigger] names@[f])@ == name@,
{
    let n = names.len();
    for f in 0..n
        invariant
            n == names@.len(),
            forall|k: int| 0 <= k < f ==> (#[trigger] names@[k])@ != name@,
    {
        if names[f] == *name {
            return true;
        }
    }
    false
}

/// Whether a base in the deck reaches the form named `form`.
fn has_base(deck: &[CardId], catalog: &[CardDef], form: &String) -> (r: bool)
    ensures
        r == has_base_in_deck(deck@, catalog@, form@),
{
    let n = catalog.len();
    for b in 0..n
        invariant
            n == catalog@.len(),
            forall|k: int| 0 <= k < b ==> !(name_in_deck(deck@, catalog@, (#[trigger] catalog@[k]).name@)
                && exists|f: int| 0 <= f < catalog@[k].evolves_to@.len() && (#[trigger] catalog@[k].evolves_to@[f])@ == form@),
    {
        if deck_has_name(deck, catalog, &catalog[b].name) && names_contain(&catalog[b].evolves_to, form) {
            return true;
        }
    }
    false
}

/// The deck standard with a typed verdict.
pub fn check_deck_for(deck: &[CardId], catalog: &[CardDef], faction: Faction) -> (r: Result<(), DeckIssue>)
    ensures
        match r {
            Ok(()) => spec_strict_issue(deck@, catalog@, faction) is None,
            Err(e) => spec_strict_issue(deck@, catalog@, faction) == Some(e),
        },
{
    if deck.len() != DECK_SIZE {
        return Err(DeckIssue::WrongSize { got: deck.len() });
    }
    let n = deck.len();
    for i in 0..n
        invariant
            n == deck@.len() == DECK_SIZE,
            spec_strict_bad_from(deck@, catalog@, faction, 0) == spec_strict_bad_from(deck@, catalog@, faction, i as int),
    {
        let id = deck[i];
        proof {
            lemma_find_index_props(catalog@, id);
        }
        let c = match find_card(catalog, id) {
            Some(c) => c,
            None => return Err(DeckIssue::UnknownCard { id }),
        };
        if !c.kind.deck_playable_for(faction) {
            return Err(DeckIssue::NotDeckPlayable { name: c.name.clone(), faction });
        }
        if count_prefix(deck, id, i) > 0 {
            return Err(DeckIssue::Duplicate { name: c.name.clone() });
        }
    }
    assert(spec_strict_bad_from(deck@, catalog@, faction, 0) is None);
    let primal = "Primal".to_string();
    proof {
        vstd::string::to_string_from_display_ensures_for_str("Primal", primal);
    }
    for i in 0..n
        invariant
            n == deck@.len() == DECK_SIZE,
            primal@ == "Primal"@,
            spec_strict_bad_from(deck@, catalog@, faction, 0) is None,
            spec_form_bad_from(deck@, catalog@, faction, 0) == spec_form_bad_from(deck@, catalog@, faction, i as int),
    {
        let id = deck[i];
        proof {
            lemma_find_index_props(catalog@, id);
            lemma_strict_prefix_known(deck@, catalog@, faction, 0, i as int);
        }
        let c = find_card(catalog, id).unwrap();
        if matches!(c.kind, CardKind::Evolution) {
            let solace = matches!(faction, Faction::Solace);
            if solace && !(c.rarity == primal) {
                return Err(DeckIssue::NotPrimal { name: c.name.clone(), rarity: c.rarity.clone() });
            }
            if !has_base(deck, catalog, &c.name) {
                return Err(DeckIssue::OrphanEvolution { name: c.name.clone() });
            }
        }
    }
    Ok(())
}

/// When no slot from `from` on breaks the standard, every such slot is a known card.
proof fn lemma_strict_prefix_known(deck: Seq<CardId>, cat: Seq<CardDef>, faction: Faction, from: int, i: int)
    requires
        0 <= from <= i < deck.len(),
        spec_strict_bad_from(deck, cat, faction, from) is None,
    ensures
        !strict_bad_at(deck, cat, faction, i),
    decreases i - from,
{
    if from < i {
        lemma_strict_prefix_known(deck, cat, faction, from + 1, i);
    }
}

// ---------------------------------------------------------------------------
// Deck verdict messages
// ---------------------------------------------------------------------------

/// A card id as the deck verdicts print it.
pub open spec fn card_id_text(id: CardId) -> Seq<char> {
    "CardId("@ + spec_digits(id.0 as nat) + ")"@
}

/// A faction as the deck verdicts print it.
pub open spec fn faction_text(f: Faction) -> Seq<char> {
    match f {
        Faction::Lorekeeper => "Lorekeeper"@,
        Faction::Solace => "Solace"@,
    }
}

/// The message a deck issue is reported with.
pub open spec fn spec_issue_message(e: DeckIssue) -> Seq<char> {
    match e {
        DeckIssue::WrongSize { got } => "deck must be "@ + spec_digits(DECK_SIZE as nat) + " cards, got "@ + spec_digits(got as nat),
        DeckIssue::UnknownCard { id } => "unknown card id "@ + card_id_text(id),
        DeckIssue::TooManyCopies { id } => "more than 2 copies of "@ + card_id_text(id),
        DeckIssue::NotDeckPlayable { name, faction } => name@ + " is not deck-playable for "@ + faction_text(faction),
        DeckIssue::Duplicate { name } => "duplicate card "@ + name@ + " — decks are singleton"@,
        DeckIssue::NotPrimal { name, rarity } =>
            name@ + " is a "@ + rarity@ + " form — the Solace deepens to Primal only, never Fabled"@,
        DeckIssue::OrphanEvolution { name } => name@ + " is an orphan evolution — no base in the deck reaches it"@,
    }
}

fn push_card_id(s: &mut String, id: CardId)
    ensures
        final(s)@ == old(s)@ + card_id_text(id),
{
    push_text(s, "CardId(");
    push_nat(s, id.0 as u64);
    push_text(s, ")");
    assert(s@ =~= old(s)@ + card_id_text(id));
}

impl DeckIssue {
    /// The human-readable reason.
    pub fn message(&self) -> (r: String)
        ensures
            r@ == spec_issue_message(*self),
    {
        let mut s = String::new();
        match self {
            DeckIssue::WrongSize { got } => {
                push_text(&mut s, "deck must be ");
                push_nat(&mut s, DECK_SIZE as u64);
                push_text(&mut s, " cards, got ");
                push_nat(&mut s, *got as u64);
            },
            DeckIssue::UnknownCard { id } => {
                push_text(&mut s, "unknown card id ");
                push_card_id(&mut s, *id);
            },
            DeckIssue::TooManyCopies { id } => {
                push_text(&mut s, "more than 2 copies of ");
                push_card_id(&mut s, *id);
            },
            DeckIssue::NotDeckPlayable { name, faction } => {
                push_text(&mut s, name.as_str());
                push_text(&mut s, " is not deck-playable for ");
                match faction {
                    Faction::Lorekeeper => push_text(&mut s, "Lorekeeper"),
                    Faction::Solace => push_text(&mut s, "Solace"),
                }
            },
            DeckIssue::Duplicate { name } => {
                push_text(&mut s, "duplicate card ");
                push_text(&mut s, name.as_str());
                push_text(&mut s, " — decks are singleton");
            },
            DeckIssue::NotPrimal { name, rarity } => {
                push_text(&mut s, name.as_str());
                push_text(&mut s, " is a ");
                push_text(&mut s, rarity.as_str());
                push_text(&mut s, " form — the Solace deepens to Primal only, never Fabled");
            },
            DeckIssue::OrphanEvolution { name } => {
                push_text(&mut s, name.as_str());
                push_text(&mut s, " is an orphan evolution — no base in the deck reaches it");
            },
        }
        assert(s@ =~= spec_issue_message(*self));
        s
    }
}

/// Constructed-deck legality, the loose check: exactly `DECK_SIZE` cards, every id in the
/// catalog, at most 2 copies of any card. `Err` names the first rule broken.
pub fn validate_deck(deck: &[CardId], catalog: &[CardDef]) -> (r: Result<(), String>)
    ensures
        r is Ok <==> spec_loose_issue(deck@, catalog@) is None,
        r matches Err(m) ==> m@ == spec_issue_message(spec_loose_issue(deck@, catalog@)->0),
{
    match check_deck(deck, catalog) {
        Ok(()) => Ok(()),
        Err(e) => Err(e.message()),
    }
}

/// The deck standard: a faction-pure, singleton deck of exactly `DECK_SIZE` cards in which
/// every evolution form is reached by a base in the deck (and, for the Solace, is Primal).
/// `Err` names the first rule broken.
pub fn validate_deck_for(deck: &[CardId], catalog: &[CardDef], faction: Faction) -> (r: Result<(), String>)
    ensures
        r is Ok <==> spec_strict_issue(deck@, catalog@, faction) is None,
        r matches Err(m) ==> m@ == spec_issue_message(spec_strict_issue(deck@, catalog@, faction)->0),
{
    match check_deck_for(deck, catalog, faction) {
        Ok(()) => Ok(()),
        Err(e) => Err(e.message()),
    }
}

proof fn lemma_count_zero_means_one(deck: Seq<CardId>, x: CardId, i: int)
    requires
        0 <= i < deck.len(),
        deck[i] == x,
        spec_count(deck, x, i) == 0,
    ensures
        spec_count(deck, x, i + 1) == 1,
{
}

proof fn lemma_strict_clean_implies_loose_clean(deck: Seq<CardId>, cat: Seq<CardDef>, faction: Faction, i: int)
    requires
        0 <= i,
        spec_strict_bad_from(deck, cat, faction, i) is None,
    ensures
        spec_loose_bad_from(deck, cat, i) is None,
    decreases deck.len() - i,
{
    if i < deck.len() {
        lemma_count_zero_means_one(deck, deck[i], i);
        lemma_strict_clean_implies_loose_clean(deck, cat, faction, i + 1);
    }
}

/// The deck standard is stricter than the loose check: every deck `validate_deck_for`
/// accepts (for either faction), `validate_deck` accepts too.
pub proof fn law_standard_deck_passes_loose_check(deck: Seq<CardId>, cat: Seq<CardDef>, faction: Faction)
    requires
        spec_strict_issue(deck, cat, faction) is None,
    ensures
        spec_loose_issue(deck, cat) is None,
        deck.len() == DECK_SIZE,
{
    lemma_strict_clean_implies_loose_clean(deck, cat, faction, 0);
}


// ---------------------------------------------------------------------------
// The hand-built catalog scenarios play with
// ---------------------------------------------------------------------------

/// Printed keyword flags: (arcane, warded, mobile, steadfast, relentless).
pub type KeywordFlags = (bool, bool, bool, bool, bool);

/// A hand-built spirit card: the given identity, cost, numbers, Reach, Resonance and
/// keyword flags; no key, rarity, evolution line, Imprints or Lurk.
pub open spec fn is_plain_card(c: CardDef, id: u16, name: Seq<char>, cost: u8, attack: i16, defense: i16, hp: i16, reach: Reach, resonance: Resonance, k: KeywordFlags) -> bool {
    &&& c.id == CardId(id)
    &&& c.name@ == name
    &&& c.key@.len() == 0
    &&& c.cost == cost && c.attack == attack && c.defense == defense && c.hp == hp
    &&& c.reach == reach && c.resonance == resonance
    &&& c.arcane == k.0 && c.warded == k.1 && c.mobile == k.2 && c.steadfast == k.3 && c.relentless == k.4
    &&& !c.lurk
    &&& c.kind == CardKind::Spirit
    &&& c.rarity@.len() == 0
    &&& c.evolves_to@.len() == 0
    &&& c.evolves_from is None
    &&& c.imprints@.len() == 0
}

fn plain_card(id: u16, name: &str, cost: u8, attack: i16, defense: i16, hp: i16, reach: Reach, resonance: Resonance, k: KeywordFlags) -> (c: CardDef)
    ensures
        is_plain_card(c, id, name@, cost, attack, defense, hp, reach, resonance, k),
{
    let key = String::new();
    let rarity = String::new();
    CardDef {
        id: CardId(id),
        key,
        name: crate::text::text_of(name),
        cost,
        attack,
        defense,
        hp,
        reach,
        resonance,
        arcane: k.0,
        warded: k.1,
        mobile: k.2,
        steadfast: k.3,
        relentless: k.4,
        lurk: false,
        kind: CardKind::Spirit,
        rarity,
        evolves_to: Vec::new(),
        evolves_from: None,
        imprints: Vec::new(),
    }
}

/// No printed keyword.
pub open spec fn plain() -> KeywordFlags {
    (false, false, false, false, false)
}

/// The eighteen-card catalog scenarios play with: ids 0 to 17 in order, each a plain
/// spirit card with the listed numbers.
pub open spec fn is_test_catalog(r: Seq<CardDef>) -> bool {
    &&& r.len() == 18
    &&& is_plain_card(r[0], 0, "Dawnling"@, 1, 10, 20, 30, Reach::Cross, Resonance::Wonder, plain())
    &&& is_plain_card(r[1], 1, "Stargazer Heron"@, 3, 40, 20, 40, Reach::Cross, Resonance::Wonder, (true, false, false, false, false))
    &&& is_plain_card(r[2], 2, "Hushling"@, 1, 10, 20, 30, Reach::Cross, Resonance::Fear, plain())
    &&& is_plain_card(r[3], 3, "Pale Stalker"@, 3, 40, 20, 40, Reach::Slant, Resonance::Fear, plain())
    &&& is_plain_card(r[4], 4, "Tearling"@, 1, 10, 20, 30, Reach::Cross, Resonance::Sorrow, plain())
    &&& is_plain_card(r[5], 5, "Greyfin Seal"@, 2, 20, 30, 40, Reach::Cross, Resonance::Sorrow, plain())
    &&& is_plain_card(r[6], 6, "Sproutling"@, 1, 10, 20, 30, Reach::Cross, Resonance::Harmony, plain())
    &&& is_plain_card(r[7], 7, "Hymnal Hart"@, 3, 20, 30, 50, Reach::Cross, Resonance::Harmony, (false, true, false, false, false))
    &&& is_plain_card(r[8], 8, "Cinderling"@, 1, 20, 20, 20, Reach::Cross, Resonance::Fury, plain())
    &&& is_plain_card(r[9], 9, "Bristleboar"@, 2, 40, 10, 40, Reach::Lance, Resonance::Fury, plain())
    &&& is_plain_card(r[10], 10, "Pebbling"@, 1, 0, 30, 30, Reach::Cross, Resonance::Resolve, plain())
    &&& is_plain_card(r[11], 11, "Warded Ram"@, 3, 30, 20, 50, Reach::Cross, Resonance::Resolve, (false, true, false, false, false))
    &&& is_plain_card(r[12], 12, "Charging Auroch"@, 3, 40, 20, 50, Reach::Lance, Resonance::Fury, plain())
    &&& is_plain_card(r[13], 13, "Aurora Elk"@, 4, 30, 40, 70, Reach::Cross, Resonance::Wonder, plain())
    &&& is_plain_card(r[14], 14, "Spark Shrew"@, 1, 20, 10, 20, Reach::Cross, Resonance::Fury, (false, false, true, false, false))
    &&& is_plain_card(r[15], 15, "Watchful Marmot"@, 1, 10, 30, 20, Reach::Cross, Resonance::Resolve, (false, false, false, true, false))
    &&& is_plain_card(r[16], 16, "Brand-Bearer Macaque"@, 3, 40, 10, 40, Reach::Lance, Resonance::Fury, (false, false, false, false, true))
    &&& is_plain_card(r[17], 17, "Kilnhorn Rhino"@, 5, 60, 30, 70, Reach::Lance, Resonance::Fury, plain())
}

/// The small hand-built catalog scenarios play with.
pub fn test_catalog() -> (r: Vec<CardDef>)
    ensures
        is_test_catalog(r@),
{
    let none: KeywordFlags = (false, false, false, false, false);
    let mut v: Vec<CardDef> = Vec::new();
    v.push(plain_card(0, "Dawnling", 1, 10, 20, 30, Reach::Cross, Resonance::Wonder, none));
    v.push(plain_card(1, "Stargazer Heron", 3, 40, 20, 40, Reach::Cross, Resonance::Wonder, (true, false, false, false, false)));
    v.push(plain_card(2, "Hushling", 1, 10, 20, 30, Reach::Cross, Resonance::Fear, none));
    v.push(plain_card(3, "Pale Stalker", 3, 40, 20, 40, Reach::Slant, Resonance::Fear, none));
    v.push(plain_card(4, "Tearling", 1, 10, 20, 30, Reach::Cross, Resonance::Sorrow, none));
    v.push(plain_card(5, "Greyfin Seal", 2, 20, 30, 40, Reach::Cross, Resonance::Sorrow, none));
    v.push(plain_card(6, "Sproutling", 1, 10, 20, 30, Reach::Cross, Resonance::Harmony, none));
    v.push(plain_card(7, "Hymnal Hart", 3, 20, 30, 50, Reach::Cross, Resonance::Harmony, (false, true, false, false, false)));
    v.push(plain_card(8, "Cinderling", 1, 20, 20, 20, Reach::Cross, Resonance::Fury, none));
    v.push(plain_card(9, "Bristleboar", 2, 40, 10, 40, Reach::Lance, Resonance::Fury, none));
    v.push(plain_card(10, "Pebbling", 1, 0, 30, 30, Reach::Cross, Resonance::Resolve, none));
    v.push(plain_card(11, "Warded Ram", 3, 30, 20, 50, Reach::Cross, Resonance::Resolve, (false, true, false, false, false)));
    v.push(plain_card(12, "Charging Auroch", 3, 40, 20, 50, Reach::Lance, Resonance::Fury, none));
    v.push(plain_card(13, "Aurora Elk", 4, 30, 40, 70, Reach::Cross, Resonance::Wonder, none));
    v.push(plain_card(14, "Spark Shrew", 1, 20, 10, 20, Reach::Cross, Resonance::Fury, (false, false, true, false, false)));
    v.push(plain_card(15, "Watchful Marmot", 1, 10, 30, 20, Reach::Cross, Resonance::Resolve, (false, false, false, true, false)));
    v.push(plain_card(16, "Brand-Bearer Macaque", 3, 40, 10, 40, Reach::Lance, Resonance::Fury, (false, false, false, false, true)));
    v.push(plain_card(17, "Kilnhorn Rhino", 5, 60, 30, 70, Reach::Lance, Resonance::Fury, none));
    v
}

} // verus!
