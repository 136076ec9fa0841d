//! A verified credit ledger with a single-step wagering game.
//!
//! The library tracks per-account credit balances, accepts deposits, and runs
//! the `play` transition: one `ONE_UNIT` wager is debited and, when the
//! host-supplied random byte falls below `PROB`, ten units are credited back.
//! Every host-granted input (caller identity, attached amount, random byte) is
//! an explicit parameter, so the core is pure sequential logic; an adapter may
//! wire it to a real execution host.

pub mod account;
pub mod errors;
pub mod machine;
pub mod state;

pub use account::is_valid_account_id;
pub use errors::Error;
pub use machine::SlotMachine;
pub use machine::ONE_UNIT;
pub use machine::PROB;
pub use state::StateSlot;
