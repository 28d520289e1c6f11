//! Upkeep between plays: Kindred whose caller has left fade away, and a played card's
//! promise of Anima "at your next Flow" is put on the books.
use vstd::prelude::*;

use crate::auras::lemma_wf_small;
use crate::cards::{card, key_of, spec_card, spec_key_of};
use crate::effects::{spec_specs_for, spec_specs_get, specs_for, Canon, Clause, Condition, Effect, EffectSpec, Selector, Trigger};
use crate::events::Event;
use crate::flow::{applicable, applies, push_all};
use crate::projection::cards_known;
use crate::state::GameState;
use crate::types::{CardDef, Seat};

verus! {

// ---------------------------------------------------------------------------
// Orphaned Kindred
// ---------------------------------------------------------------------------

/// The card a clause among the first `k` of `cls` summons, the first such.
pub open spec fn summon_in(cls: Seq<Clause>, k: int) -> Option<Seq<char>>
    decreases k,
{
    if k <= 0 {
        None
    } else {
        match summon_in(cls, k - 1) {
            Some(n) => Some(n),
            None => match cls[k - 1].effect {
                Effect::Summon { card_name } => Some(card_name@),
                _ => None,
            },
        }
    }
}

/// The first card any clause of the first `i` specs summons.
pub open spec fn summon_of(specs: Seq<EffectSpec>, i: int) -> Option<Seq<char>>
    decreases i,
{
    if i <= 0 {
        None
    } else {
        match summon_of(specs, i - 1) {
            Some(n) => Some(n),
            None => summon_in(specs[i - 1].clauses@, specs[i - 1].clauses@.len() as int),
        }
    }
}

/// The standing spirit on tile `i` is a caller: its owner and the Kindred it calls.
pub open spec fn caller_at(st: GameState, canon: Canon, catalog: Seq<CardDef>, i: int) -> Option<(Seat, Seq<char>)> {
    match st.board@[i].spirit {
        Some(s) => if s.fading {
            None
        } else {
            match spec_specs_for(canon, catalog, s.card) {
                Some(specs) => match summon_of(specs, specs.len() as int) {
                    Some(n) => Some((s.owner, n)),
                    None => None,
                },
                None => None,
            }
        },
        None => None,
    }
}

/// The callers standing on the first `n` tiles, in board order.
pub open spec fn callers(st: GameState, canon: Canon, catalog: Seq<CardDef>, n: int) -> Seq<(Seat, Seq<char>)>
    decreases n,
{
    if n <= 0 {
        Seq::empty()
    } else {
        callers(st, canon, catalog, n - 1) + match caller_at(st, canon, catalog, n - 1) {
            Some(c) => seq![c],
            None => Seq::empty(),
        }
    }
}

/// The spirit on tile `i` is a standing Kindred (not an Unwritten) no standing caller of
/// its owner calls by name.
pub open spec fn orphan_at(st: GameState, canon: Canon, catalog: Seq<CardDef>, i: int) -> bool {
    &&& st.board@[i].spirit matches Some(s)
    &&& s.is_token
    &&& !s.fading
    &&& !spec_card(catalog, s.card).spec_is_unwritten()
    &&& !callers(st, canon, catalog, st.board@.len() as int).contains((s.owner, spec_card(catalog, s.card).name@))
}

/// The orphans among the first `n` tiles, in board order.
pub open spec fn orphans(st: GameState, canon: Canon, catalog: Seq<CardDef>, n: int) -> Seq<u8>
    decreases n,
{
    if n <= 0 {
        Seq::empty()
    } else {
        orphans(st, canon, catalog, n - 1) + if orphan_at(st, canon, catalog, n - 1) { seq![(n - 1) as u8] } else { Seq::empty() }
    }
}

/// Every orphan fades, leaving nothing.
pub open spec fn sweep_events(st: GameState, canon: Canon, catalog: Seq<CardDef>) -> Seq<Event> {
    orphans(st, canon, catalog, st.board@.len() as int).map_values(|t: u8| Event::TokenDissolved { tile: t })
}

fn summon_of_exec(specs: &[EffectSpec]) -> (r: Option<String>)
    ensures
        match r {
            Some(n) => summon_of(specs@, specs@.len() as int) == Some(n@),
            None => summon_of(specs@, specs@.len() as int) is None,
        },
{
    let n = specs.len();
    for i in 0..n
        invariant
            n == specs@.len(),
            summon_of(specs@, i as int) is None,
    {
        let cls = &specs[i].clauses;
        let m = cls.len();
        for k in 0..m
            invariant
                m == cls@.len(),
                i < n == specs@.len(),
                cls@ == specs@[i as int].clauses@,
                summon_of(specs@, i as int) is None,
                summon_in(cls@, k as int) is None,
        {
            match &cls[k].effect {
                Effect::Summon { card_name } => {
                    proof {
                        lemma_summon_in_stays(cls@, k + 1, m as int);
                        lemma_summon_of_stays(specs@, i + 1, n as int);
                    }
                    return Some(card_name.clone());
                },
                _ => {},
            }
        }
    }
    None
}

proof fn lemma_summon_in_stays(cls: Seq<Clause>, k: int, m: int)
    requires
        0 <= k <= m,
        summon_in(cls, k) is Some,
    ensures
        summon_in(cls, m) == summon_in(cls, k),
    decreases m - k,
{
    if k < m {
        lemma_summon_in_stays(cls, k, m - 1);
    }
}

proof fn lemma_summon_of_stays(specs: Seq<EffectSpec>, i: int, n: int)
    requires
        0 <= i <= n,
        summon_of(specs, i) is Some,
    ensures
        summon_of(specs, n) == summon_of(specs, i),
    decreases n - i,
{
    if i < n {
        lemma_summon_of_stays(specs, i, n - 1);
    }
}

/// The callers with their Kindred's names as text.
pub open spec fn named(cs: Seq<(Seat, String)>) -> Seq<(Seat, Seq<char>)> {
    cs.map_values(|c: (Seat, String)| (c.0, c.1@))
}

proof fn lemma_named_push(cs: Seq<(Seat, String)>, x: (Seat, String))
    ensures
        named(cs.push(x)) == named(cs).push((x.0, x.1@)),
{
    assert(named(cs.push(x)) =~= named(cs).push((x.0, x.1@)));
}

fn caller_of(st: &GameState, canon: &Canon, catalog: &[CardDef], i: usize) -> (r: Option<(Seat, String)>)
    requires
        i < st.board@.len(),
    ensures
        match r {
            Some(c) => caller_at(*st, *canon, catalog@, i as int) == Some((c.0, c.1@)),
            None => caller_at(*st, *canon, catalog@, i as int) is None,
        },
{
    match &st.board[i].spirit {
        Some(s) => {
            if s.fading {
                return None;
            }
            match specs_for(canon, catalog, s.card) {
                Some(specs) => match summon_of_exec(specs) {
                    Some(name) => Some((s.owner, name)),
                    None => None,
                },
                None => None,
            }
        },
        None => None,
    }
}

fn callers_exec(st: &GameState, canon: &Canon, catalog: &[CardDef]) -> (r: Vec<(Seat, String)>)
    ensures
        named(r@) == callers(*st, *canon, catalog@, st.board@.len() as int),
{
    let n = st.board.len();
    let mut out: Vec<(Seat, String)> = Vec::new();
    assert(named(out@) =~= Seq::<(Seat, Seq<char>)>::empty());
    for i in 0..n
        invariant
            n == st.board@.len(),
            named(out@) == callers(*st, *canon, catalog@, i as int),
    {
        match caller_of(st, canon, catalog, i) {
            Some(c) => {
                proof {
                    lemma_named_push(out@, c);
                }
                out.push(c);
            },
            None => {
                assert(callers(*st, *canon, catalog@, i + 1) =~= callers(*st, *canon, catalog@, i as int));
            },
        }
    }
    out
}

fn called(cs: &Vec<(Seat, String)>, owner: Seat, name: &String) -> (r: bool)
    ensures
        r == named(cs@).contains((owner, name@)),
{
    let n = cs.len();
    for k in 0..n
        invariant
            n == cs@.len(),
            forall|j: int| 0 <= j < k ==> named(cs@)[j] != (owner, name@),
    {
        if cs[k].0 == owner && cs[k].1 == *name {
            assert(named(cs@)[k as int] == (owner, name@));
            return true;
        }
    }
    false
}

/// The Kindred whose caller has left play (or was never there) fade, to no impression.
/// Unwritten, which stand alone, are never swept.
pub fn sweep_orphan_tokens(sim: &mut GameState, evs: &mut Vec<Event>, canon: &Canon, catalog: &[CardDef])
    requires
        old(sim).wf(),
        cards_known(*old(sim), catalog@),
        applicable(*old(sim), sweep_events(*old(sim), *canon, catalog@)),
    ensures
        final(evs)@ == old(evs)@ + sweep_events(*old(sim), *canon, catalog@),
        applies(*old(sim), sweep_events(*old(sim), *canon, catalog@), *final(sim)),
{
    proof {
        lemma_wf_small(*sim);
    }
    let cs = callers_exec(sim, canon, catalog);
    let n = sim.board.len();
    let mut tiles: Vec<u8> = Vec::new();
    for i in 0..n
        invariant
            n == sim.board@.len() <= 64,
            cards_known(*sim, catalog@),
            named(cs@) == callers(*sim, *canon, catalog@, n as int),
            tiles@ == orphans(*sim, *canon, catalog@, i as int),
    {
        let hit = match &sim.board[i].spirit {
            Some(s) => {
                if s.is_token && !s.fading {
                    let def = card(catalog, s.card);
                    !def.is_unwritten() && !called(&cs, s.owner, &def.name)
                } else {
                    false
                }
            },
            None => false,
        };
        if hit {
            tiles.push(i as u8);
        }
    }
    let mut list: Vec<Event> = Vec::new();
    let m = tiles.len();
    for k in 0..m
        invariant
            m == tiles@.len(),
            list@ == tiles@.take(k as int).map_values(|t: u8| Event::TokenDissolved { tile: t }),
    {
        list.push(Event::TokenDissolved { tile: tiles[k] });
        assert(tiles@.take(k + 1) == tiles@.take(k as int).push(tiles@[k as int]));
    }
    assert(tiles@.take(m as int) == tiles@);
    push_all(sim, evs, list);
}

// ---------------------------------------------------------------------------
// Anima promised at the next Flow
// ---------------------------------------------------------------------------

/// The Anima the first `k` clauses promise: each Owner / positive AnimaDelta.
pub open spec fn promised_in(cls: Seq<Clause>, k: int) -> int
    decreases k,
{
    if k <= 0 {
        0
    } else {
        promised_in(cls, k - 1) + match (cls[k - 1].selector, cls[k - 1].effect) {
            (Selector::Owner, Effect::AnimaDelta { amount }) => if amount > 0 { amount as int } else { 0 },
            _ => 0,
        }
    }
}

/// The Anima the first `i` specs promise: their once-a-match `AtFlow` clauses.
pub open spec fn promised(specs: Seq<EffectSpec>, i: int) -> int
    decreases i,
{
    if i <= 0 {
        0
    } else {
        promised(specs, i - 1) + if specs[i - 1].trigger is AtFlow && specs[i - 1].condition is OncePerMatch {
            promised_in(specs[i - 1].clauses@, specs[i - 1].clauses@.len() as int)
        } else {
            0
        }
    }
}

/// The Anima the named card promises.
pub open spec fn card_promise(canon: Canon, name: Seq<char>) -> int {
    match spec_specs_get(canon.effects, spec_key_of(canon.catalog@, name)) {
        Some(specs) => promised(specs, specs.len() as int),
        None => 0,
    }
}

/// Every running sum of promises stays in `i16`.
pub open spec fn promise_fits(canon: Canon, name: Seq<char>) -> bool {
    match spec_specs_get(canon.effects, spec_key_of(canon.catalog@, name)) {
        Some(specs) => forall|i: int, k: int| 0 <= i < specs.len() && 0 <= k <= specs[i].clauses@.len()
            ==> #[trigger] promised(specs, i) + #[trigger] promised_in(specs[i].clauses@, k) <= i16::MAX,
        None => true,
    }
}

/// The promise recorded at play time, if there is one.
pub open spec fn schedule_events(canon: Canon, name: Seq<char>, owner: Seat) -> Seq<Event> {
    let amount = card_promise(canon, name);
    if amount > 0 {
        seq![Event::FlowAnimaScheduled { seat: owner, amount: amount as u8 }]
    } else {
        Seq::empty()
    }
}

proof fn lemma_promised_in_nonneg(cls: Seq<Clause>, k: int)
    ensures
        promised_in(cls, k) >= 0,
    decreases k,
{
    if k > 0 {
        lemma_promised_in_nonneg(cls, k - 1);
    }
}

proof fn lemma_promised_nonneg(specs: Seq<EffectSpec>, i: int)
    ensures
        promised(specs, i) >= 0,
    decreases i,
{
    if i > 0 {
        lemma_promised_nonneg(specs, i - 1);
        lemma_promised_in_nonneg(specs[i - 1].clauses@, specs[i - 1].clauses@.len() as int);
    }
}

/// Patience: a played card may promise Anima "at your next Flow" (its once-a-match
/// `AtFlow` Owner / AnimaDelta clauses, which the Flow's own board scan never sees). The
/// promise is put on the books now and paid at the owner's next income step.
pub fn schedule_flow_anima(sim: &mut GameState, evs: &mut Vec<Event>, canon: &Canon, card_name: &str, owner: Seat)
    requires
        promise_fits(*canon, card_name@),
        applicable(*old(sim), schedule_events(*canon, card_name@, owner)),
    ensures
        final(evs)@ == old(evs)@ + schedule_events(*canon, card_name@, owner),
        applies(*old(sim), schedule_events(*canon, card_name@, owner), *final(sim)),
{
    let key = key_of(canon.catalog.as_slice(), card_name);
    let mut amount: i16 = 0;
    match canon.effects.get(&key) {
        Some(specs) => {
            let n = specs.len();
            for i in 0..n
                invariant
                    n == specs@.len(),
                    spec_specs_get(canon.effects, spec_key_of(canon.catalog@, card_name@)) == Some(specs@),
                    promise_fits(*canon, card_name@),
                    amount as int == promised(specs@, i as int),
            {
                let s = &specs[i];
                if matches!(s.trigger, Trigger::AtFlow) && matches!(s.condition, Condition::OncePerMatch) {
                    let cls = &s.clauses;
                    let m = cls.len();
                    let ghost base = amount as int;
                    for k in 0..m
                        invariant
                            m == cls@.len(),
                            cls@ == specs@[i as int].clauses@,
                            i < n == specs@.len(),
                            spec_specs_get(canon.effects, spec_key_of(canon.catalog@, card_name@)) == Some(specs@),
                            promise_fits(*canon, card_name@),
                            base == promised(specs@, i as int),
                            amount as int == base + promised_in(cls@, k as int),
                    {
                        proof {
                            lemma_promised_nonneg(specs@, i as int);
                            lemma_promised_in_nonneg(cls@, k + 1);
                            assert(promised(specs@, i as int) + promised_in(specs@[i as int].clauses@, k + 1) <= i16::MAX);
                        }
                        match (&cls[k].selector, &cls[k].effect) {
                            (Selector::Owner, Effect::AnimaDelta { amount: a }) => {
                                if *a > 0 {
                                    amount = amount + *a as i16;
                                }
                            },
                            _ => {},
                        }
                    }
                }
            }
        },
        None => {},
    }
    let mut list: Vec<Event> = Vec::new();
    if amount > 0 {
        list.push(Event::FlowAnimaScheduled { seat: owner, amount: amount as u8 });
    }
    push_all(sim, evs, list);
}

} // verus!
