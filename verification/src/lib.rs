//! A governance and treasury engine for a member-invited investment
//! collective: it admits members by invitation, pools deposits in a chosen
//! currency, lets members propose and vote on fund withdrawals or
//! reinvestment with vesting, and executes approved proposals by moving
//! funds into escrows that members later claim against.
//!
//! Every record lives under a create-if-absent keyed store, which is the
//! sole mutual-exclusion primitive: invitation uniqueness, one vote per
//! member and one claim per member all come from record creation failing
//! on an occupied key. Each operation is atomic: it either applies every
//! mutation it describes or fails with an error and changes nothing.

pub mod addresses;
pub mod dao_state;
pub mod errors;
pub mod investment_dao;
pub mod proposal;
pub mod record_map;
pub mod registry;
pub mod utils;
pub mod vesting;
