# recollect_core

The rules core of Recollect, a tactics card game on a small square board, written in
Verus: every function in `src/` carries a contract over spec functions and is proved.

A match is a `GameState`. A seat's command is decided against the state (`decide_*`),
which either refuses it with a `Reject` or answers with the events it records; applying
an event (`evolve::apply_event`) is how the state changes, and its contract fixes every
part of the new state (each list by its contents) from the old state and the event:
`replay::law_event_application_is_deterministic` proves that applying the same event to the
same state gives alike states.
Random draws (shuffles, Echo rolls) are arguments of the functions that need them; the
core draws nothing itself.

## Layout

- `types`, `cards`, `state`, `effects`: the vocabulary: cards, the board, the effect IR.
- `projection`, `targeting`, `conditions`, `keywords`, `auras`, `tally`, `combat`,
  `throughline`, `evolution`: the rules queries the decisions read.
- `command`, `menu`: the commands a seat plays and the legal-move menu
  (`menu::legal_commands`).
- `arrival`, `overwrite`, `evolving`, `board_commands`, `commands`, `spellbook`: the command
  decisions (playing a spirit, overwriting, evolving, stepping, revealing, devolving,
  reclaiming, striking a trap, the spellbook, the smaller commands). `menu` proves that
  every offer with a decision here is accepted by it; the Glimpse, a choice's answer, a
  release and the end of the turn have no decision here.
- `strike`, `momentum`, `direct`, `at_flow`, `flow`, `upkeep`, `strays`, `turn`,
  `exchange`, `targets`: the combat numbers, the choice-free effect clauses, the Flow and
  the turn's upkeep.
- `engage`: banishment — a once-per-match Replace survival, a Kindred token's dissolve, or
  a fade under the banisher's mark.
- `erasure`: the board-wide clauses of the Solace's Unwritings (the eater's forgetting, the
  rim's release, the silenced Landmark, the Unwritten on the rim, dormant impressions, calm
  tiles) and the deck mill.
- `events`, `evolve`, `replay`: the event log, how each event changes the state, and that
  it does so deterministically.
- `invariants`, `laws`: properties kept across events and stated over whole operations.
- `app/`: parsing the JSON catalog and effect table into a `Canon`.
- `tests/`: scenarios on concrete boards.

## Not in this crate

The decisions stop where a match hands over to effect firing: the arrival sequence after a
play, an evolution or an Overwrite (the engage's exchange as one step, with its reveal,
redirects and OnDefeat/engaged firings; interception, Momentum, the Throughline, OnPlay
effects), the Unwritten's inward shift, a Parting, the choice clauses and the choice events, and the driver that
runs a match. Where a function stops short, its doc comment says so.
