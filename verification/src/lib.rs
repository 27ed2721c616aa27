//! A time-locked value vault.
//!
//! A depositor locks an amount of native currency or of a fungible token
//! under a caller-chosen identifier and an unlock timestamp. The funds become
//! withdrawable, in full, only once the current time reaches that timestamp,
//! and only by the original depositor. Each vault lives at a storage address
//! derived deterministically from the owner and the identifier.

pub mod keys;
pub mod table;
pub mod vault;
pub mod pda;
pub mod state;
pub mod registry;
pub mod laws;
