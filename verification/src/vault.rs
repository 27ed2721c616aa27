//! The vault record and the error taxonomy of the state machine.

use vstd::prelude::*;
use crate::keys::AccountKey;

verus! {

/// Serialized size of a vault record: discriminator, length-prefixed id
/// (at most one seed's worth of bytes), owner, optional mint, amount,
/// unlock time, creation time, derivation salt.
pub const VAULT_SIZE: usize = 8 + 4 + 32 + 32 + 1 + 32 + 8 + 8 + 8;

/// The sole persistent entity: one locked deposit.
///
/// Every field is fixed at creation. A release never mutates a record; it
/// erases it, so the `Released` state is the absence of the record.
pub struct Vault {
    /// Caller-chosen identifier, unique per owner; a derivation input.
    pub id: Vec<u8>,
    /// The only identity authorized to withdraw.
    pub owner: AccountKey,
    /// Absent for native-currency vaults; the mint of the locked asset
    /// for token vaults.
    pub mint: Option<AccountKey>,
    /// Quantity locked; released in full or not at all.
    pub amount: u64,
    /// Earliest time (epoch seconds) at which withdrawal is permitted.
    pub unlock_time: i64,
    /// Time of creation (epoch seconds), informational only.
    pub created_at: i64,
    /// Derivation salt proving the vault's address is canonical, so the
    /// address itself can act as authority over the token sub-account.
    pub bump: u8,
}

/// The mathematical image of a `Vault`.
pub struct VaultView {
    pub id: Seq<u8>,
    pub owner: Seq<u8>,
    pub mint: Option<Seq<u8>>,
    pub amount: u64,
    pub unlock_time: i64,
    pub created_at: i64,
    pub bump: u8,
}

impl View for Vault {
    type V = VaultView;

    open spec fn view(&self) -> VaultView {
        VaultView {
            id: self.id@,
            owner: self.owner@,
            mint: match self.mint {
                Some(m) => Some(m@),
                None => None,
            },
            amount: self.amount,
            unlock_time: self.unlock_time,
            created_at: self.created_at,
            bump: self.bump,
        }
    }
}

/// Everything a transition can refuse with.
///
/// A release attempted by a caller who is not the recorded owner reports
/// `VaultDoesNotExist`, the same error as for an absent record, so that
/// probing cannot reveal which addresses are owned by whom.
#[derive(Clone, Copy, Debug, PartialEq, Eq, Structural)]
pub enum ErrorCode {
    /// Creation attempted at an already-occupied derived address.
    VaultAlreadyExists,
    /// Release attempted on an absent record, or by a non-owner.
    VaultDoesNotExist,
    /// Release attempted before the unlock time.
    VaultNotUnlocked,
    /// Token release attempted on a native-only vault.
    VaultIsNotSplToken,
    /// No usable derivation salt exists for the owner and identifier.
    DerivationFailed,
    /// A value transfer asked for more than the source holds.
    InsufficientFunds,
    /// The declared precision differs from the mint's actual precision.
    DecimalMismatch,
    /// The referenced mint is not known to the registry.
    UnknownMint,
    /// A credit would push the destination past the largest balance.
    BalanceOverflow,
    /// The vault's token sub-account would be closed while still funded.
    TokenAccountNotEmpty,
}

} // verus!
