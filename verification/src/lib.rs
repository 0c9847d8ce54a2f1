//! A quadratic-funding round.
//!
//! Proposers submit funding requests during a proposal window, voters pledge
//! value to proposals during a voting window, and once voting has closed a
//! fixed budget of matching funds is split among the proposals so that broad
//! support counts for more than the raw size of the pledges.
//!
//! Every function here is a function of plain values: the round is an explicit
//! [`state::State`] handed to each operation, and whatever the host has to
//! supply (the block time, the caller in canonical form, the funds the round
//! holds) arrives as an argument.

pub mod contract;
pub mod error;
pub mod funding;
pub mod msg;
pub mod normalizer;
pub mod round;
pub mod sqrt;
pub mod state;
