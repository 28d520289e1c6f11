//! Recollect's rules core: the card vocabulary, the effect IR and its support
//! ratchet, deck legality, reach geometry, the board queries, the legal-move menu, the
//! command decisions, and the events that change a match.
pub mod types;
pub mod effects;
pub mod cards;
pub mod support;
pub mod state;
pub mod projection;
pub mod auras;
pub mod conditions;
pub mod keywords;
pub mod tally;
pub mod throughline;
pub mod combat;
pub mod targeting;
pub mod evolution;
pub mod rules;
pub mod text;
pub mod invariants;
pub mod test_support;
pub mod exchange;
pub mod targets;
pub mod laws;
pub mod events;
pub mod evolve;
pub mod flow;
pub mod strays;
pub mod at_flow;
pub mod direct;
pub mod upkeep;
pub mod strike;
pub mod momentum;
pub mod turn;
pub mod spellbook;
pub mod commands;
pub mod command;
pub mod menu;
pub mod board_commands;
pub mod arrival;
pub mod overwrite;
pub mod evolving;
pub mod replay;
pub mod engage;
pub mod erasure;
pub mod blow_laws;
