//! A rules engine for the five-player trick-taking card game Napoleon,
//! with machine-checked contracts: the card model and its canonical
//! [1, 52] identifier bijection, dealing as a proved partition of the
//! deck, declaration validation and role assignment, the layered
//! trick-winner precedence rules, and the round and game state machines
//! with their scoring and win conditions.

pub mod card;
pub mod cards;
pub mod declaration;
pub mod error;
pub mod game;
pub mod player;
pub mod round;
pub mod trick;
pub mod trick_result;
pub mod trump;
pub mod user;
