//! Core identity and simulation contracts for an agent playing a
//! multi-participant, turn-synchronous grid survival game.
//!
//! The crate establishes a stable, dense integer identity scheme for the
//! participants of one game ([`ids`]), a closed vocabulary of the four
//! cardinal moves with their geometric semantics ([`moves`]), and the
//! capability contracts a concrete board representation must satisfy so that
//! a generic search algorithm can enumerate future states ([`sim`]).

pub mod ids;
pub mod moves;
pub mod sim;
