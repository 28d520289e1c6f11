//! Evolution legality: the forms a fading base may become under the shared-Imprint rule
//! and the exceptions that lift it.
use vstd::prelude::*;

use crate::auras::{exception_active, shrine_fading_fuel, spec_exception_active, spec_shrine_fading_fuel};
use crate::effects::{Canon, RuleException};
use crate::state::GameState;
use crate::types::{CardDef, CardId, Seat};

verus! {

/// The shared-Imprint rule is lifted for `owner`: an `EvolveIgnoresSharedImprint` or
/// `AllImprintsShared` carrier stands for it, a Parting freed this turn's evolutions, or a
/// fading spirit of its rests on its Shrine.
pub open spec fn spec_ignore_imprint(st: GameState, canon: Canon, catalog: Seq<CardDef>, owner: Seat) -> bool {
    spec_exception_active(st, canon, catalog, owner, RuleException::EvolveIgnoresSharedImprint)
        || spec_exception_active(st, canon, catalog, owner, RuleException::AllImprintsShared)
        || st.ignore_imprint_this_turn[owner.spec_index()]
        || spec_shrine_fading_fuel(st, canon, catalog, owner)
}

/// The first catalog index at or after `i` whose card carries this name.
pub open spec fn spec_name_from(cat: Seq<CardDef>, name: Seq<char>, i: int) -> Option<int>
    decreases cat.len() - i,
{
    if i < 0 || i >= cat.len() {
        None
    } else if cat[i].name@ == name {
        Some(i)
    } else {
        spec_name_from(cat, name, i + 1)
    }
}

/// The two Imprint lists share a name.
pub open spec fn shares_imprint(a: Seq<String>, b: Seq<String>) -> bool {
    exists|i: int, j: int| 0 <= i < a.len() && 0 <= j < b.len() && (#[trigger] a[i])@ == (#[trigger] b[j])@
}

/// The form named `form_name`, if the catalog holds it and it may evolve from `base`: the
/// first card of that name, sharing an Imprint with the base unless either carries none or
/// the rule is lifted.
pub open spec fn evolution_for(catalog: Seq<CardDef>, base: CardDef, ignore: bool, form_name: Seq<char>) -> Option<CardId> {
    match spec_name_from(catalog, form_name, 0) {
        Some(k) => {
            let form = catalog[k];
            if ignore || form.imprints@.len() == 0 || base.imprints@.len() == 0 || shares_imprint(form.imprints@, base.imprints@) {
                Some(form.id)
            } else {
                None
            }
        },
        None => None,
    }
}

/// The legal forms among the base's first `n` listed forms, in listed order.
pub open spec fn evolutions_prefix(catalog: Seq<CardDef>, base: CardDef, ignore: bool, n: int) -> Seq<CardId>
    decreases n,
{
    if n <= 0 {
        Seq::empty()
    } else {
        let prev = evolutions_prefix(catalog, base, ignore, n - 1);
        match evolution_for(catalog, base, ignore, base.evolves_to@[n - 1]@) {
            Some(id) => prev.push(id),
            None => prev,
        }
    }
}

/// The forms `base` may become for `owner`: none for a card that is itself a form (only a
/// true base evolves), else each listed form the catalog holds that passes the
/// shared-Imprint rule (or its exceptions), in listed order.
pub open spec fn spec_legal_evolutions(st: GameState, canon: Canon, catalog: Seq<CardDef>, base: CardDef, owner: Seat) -> Seq<CardId> {
    if base.evolves_from is Some {
        Seq::empty()
    } else {
        evolutions_prefix(catalog, base, spec_ignore_imprint(st, canon, catalog, owner), base.evolves_to@.len() as int)
    }
}

fn find_by_name<'a>(catalog: &'a [CardDef], name: &String) -> (r: Option<&'a CardDef>)
    ensures
        match r {
            Some(c) => spec_name_from(catalog@, name@, 0) matches Some(k) && *c == catalog@[k],
            None => spec_name_from(catalog@, name@, 0) is None,
        },
{
    let n = catalog.len();
    for i in 0..n
        invariant
            n == catalog@.len(),
            spec_name_from(catalog@, name@, 0) == spec_name_from(catalog@, name@, i as int),
    {
        if catalog[i].name == *name {
            return Some(&catalog[i]);
        }
    }
    None
}

pub(crate) fn share_any(a: &Vec<String>, b: &Vec<String>) -> (r: bool)
    ensures
        r == shares_imprint(a@, b@),
{
    let n = a.len();
    let m = b.len();
    for i in 0..n
        invariant
            n == a@.len(),
            m == b@.len(),
            forall|x: int, y: int| 0 <= x < i && 0 <= y < m ==> (#[trigger] a@[x])@ != (#[trigger] b@[y])@,
    {
        for j in 0..m
            invariant
                n == a@.len(),
                m == b@.len(),
                0 <= i < n,
                forall|x: int, y: int| 0 <= x < i && 0 <= y < m ==> (#[trigger] a@[x])@ != (#[trigger] b@[y])@,
                forall|y: int| 0 <= y < j ==> a@[i as int]@ != (#[trigger] b@[y])@,
        {
            if a[i] == b[j] {
                assert(a@[i as int]@ == b@[j as int]@);
                return true;
            }
        }
    }
    false
}

/// The forms a fading `base` may become for `owner` — the shared-Imprint rule, with the
/// authored exception carriers (and this turn's and the Shrine's lifts) honored.
pub fn legal_evolutions(st: &GameState, canon: &Canon, catalog: &[CardDef], base: &CardDef, owner: Seat) -> (r: Vec<CardId>)
    requires
        st.wf(),
    ensures
        r@ == spec_legal_evolutions(*st, *canon, catalog@, *base, owner),
{
    if base.evolves_from.is_some() {
        return Vec::new();
    }
    let ignore = exception_active(st, canon, catalog, owner, RuleException::EvolveIgnoresSharedImprint)
        || exception_active(st, canon, catalog, owner, RuleException::AllImprintsShared)
        || st.ignore_imprint_this_turn[owner.index()]
        || shrine_fading_fuel(st, canon, catalog, owner);
    let mut out: Vec<CardId> = Vec::new();
    let n = base.evolves_to.len();
    for i in 0..n
        invariant
            n == base.evolves_to@.len(),
            ignore == spec_ignore_imprint(*st, *canon, catalog@, owner),
            out@ == evolutions_prefix(catalog@, *base, ignore, i as int),
    {
        match find_by_name(catalog, &base.evolves_to[i]) {
            Some(form) => {
                if ignore || form.imprints.len() == 0 || base.imprints.len() == 0 || share_any(&form.imprints, &base.imprints) {
                    out.push(form.id);
                }
            },
            None => {},
        }
    }
    out
}

/// The forms a fading `base` may become for `owner`.
pub fn legal_evolutions_for_test(st: &GameState, canon: &Canon, catalog: &[CardDef], base: &CardDef, owner: Seat) -> (r: Vec<CardId>)
    requires
        st.wf(),
    ensures
        r@ == spec_legal_evolutions(*st, *canon, catalog@, *base, owner),
{
    legal_evolutions(st, canon, catalog, base, owner)
}

} // verus!
