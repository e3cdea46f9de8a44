//! A decomposable folding scheme: an accumulation engine that combines two
//! instance/witness pairs for a constraint system into one pair asserting
//! satisfaction of both, together with the cross-term data needed to keep the
//! combination sound.  Constraint groups ("gates") are selected per row by
//! boolean indicator columns, so that folding fresh pairs only evaluates the
//! constraints of whichever gate each pair actually uses.

pub mod alphas;
pub mod checker;
pub mod commit;
pub mod env;
pub mod errors;
pub mod expr;
pub mod field;
pub mod mips;
pub mod pair;
pub mod poly;
pub mod scheme;
pub mod transcript;
