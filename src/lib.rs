//! Translates stored submissions into canonical outbound messages.
//!
//! A submission pairs a wire tag with an opaque length-delimited payload. At
//! settlement time each submission is decoded field by field, its monetary
//! amounts are scaled by a fraction (rounded down, failing on overflow), and
//! the action is re-encoded in the exact layout its destination expects.
//!
//! - `wire`: the field reader and field writer of the binary format.
//! - `amount` and `coin`: fractions, scaling by a fraction, coins.
//! - `bank`, `distribution`, `staking`, `authz`, `gov`, `wasm`: one
//!   translator per destination family.
//! - `router`: dispatch by tag, and all-or-nothing settlement of a batch.
//! - `registry`: the rules for creating submissions and returning deposits.
//! - `entry_judging`: voting strategies, tallies and choices of proposals.

pub mod amount;
pub mod authz;
pub mod bank;
pub mod coin;
pub mod distribution;
pub mod entry_judging;
pub mod error;
pub mod gov;
pub mod msg;
pub mod registry;
pub mod router;
pub mod staking;
pub mod wasm;
pub mod wire;
