//! The abstract state of the vault system and its transition functions.
//!
//! Every executable transition of the registry is pinned to one of the spec
//! transitions here: the executable result and post-state equal the spec
//! function of the pre-state and the arguments. The laws of the system are
//! proved about these functions.
//!
//! Each transition validates every precondition first and commits all of its
//! effects at once: an error leaves the state exactly as it was.

use vstd::prelude::*;
use crate::vault::{ErrorCode, VaultView};
use crate::pda::spec_vault_address;

verus! {

/// Storage deposit held by a vault record, refunded in full on release.
pub const VAULT_RENT: u64 = 1_816_560;

/// Storage deposit held by a vault's token sub-account.
pub const TOKEN_RENT: u64 = 2_039_280;

/// The whole system: vault records by derived address, native balances by
/// account, token balances by holder-and-mint, and mint precisions.
///
/// A token holding's key is the holder's 32-byte address followed by the
/// mint's; a released state is the absence of an entry.
pub struct State {
    pub vaults: Map<Seq<u8>, VaultView>,
    pub native: Map<Seq<u8>, u64>,
    pub tokens: Map<Seq<u8>, u64>,
    pub mints: Map<Seq<u8>, u8>,
}

/// One transition's outcome: the state after it and what the caller is told.
pub struct Step {
    pub state: State,
    pub result: Result<(), ErrorCode>,
}

/// An absent ledger entry holds nothing.
pub open spec fn bal(m: Map<Seq<u8>, u64>, k: Seq<u8>) -> u64 {
    if m.contains_key(k) {
        m[k]
    } else {
        0
    }
}

/// Move `v` into `k`, refusing to pass the largest representable balance.
pub open spec fn credit(m: Map<Seq<u8>, u64>, k: Seq<u8>, v: u64) -> Option<Map<Seq<u8>, u64>> {
    if bal(m, k) + v <= u64::MAX {
        Some(m.insert(k, (bal(m, k) + v) as u64))
    } else {
        None
    }
}

/// Take `v` out of `k`, refusing when the balance is insufficient.
pub open spec fn debit(m: Map<Seq<u8>, u64>, k: Seq<u8>, v: u64) -> Option<Map<Seq<u8>, u64>> {
    if v <= bal(m, k) {
        Some(m.insert(k, (bal(m, k) - v) as u64))
    } else {
        None
    }
}

pub open spec fn failed(s: State, e: ErrorCode) -> Step {
    Step { state: s, result: Err(e) }
}

/// Lock `amount` of native currency for `owner` under `id`.
///
/// On success the record exists at the derived address, every field set from
/// the arguments and the clock, and the locked amount plus the storage
/// deposit has moved from the owner to that address.
pub open spec fn spec_initialize_lock(
    s: State,
    owner: Seq<u8>,
    id: Seq<u8>,
    amount: u64,
    unlock_time: i64,
    now: i64,
) -> Step {
    match spec_vault_address(owner, id) {
        None => failed(s, ErrorCode::DerivationFailed),
        Some((addr, bump)) => if s.vaults.contains_key(addr) {
            failed(s, ErrorCode::VaultAlreadyExists)
        } else if bal(s.native, owner) < amount + VAULT_RENT {
            failed(s, ErrorCode::InsufficientFunds)
        } else {
            let total = (amount + VAULT_RENT) as u64;
            let n1 = debit(s.native, owner, total).unwrap();
            match credit(n1, addr, total) {
                None => failed(s, ErrorCode::BalanceOverflow),
                Some(n2) => Step {
                    state: State {
                        vaults: s.vaults.insert(
                            addr,
                            VaultView {
                                id: id,
                                owner: owner,
                                mint: None,
                                amount: amount,
                                unlock_time: unlock_time,
                                created_at: now,
                                bump: bump,
                            },
                        ),
                        native: n2,
                        tokens: s.tokens,
                        mints: s.mints,
                    },
                    result: Ok(()),
                },
            }
        },
    }
}

/// Lock `amount` of the token `mint` for `owner` under `id`.
///
/// The declared precision must match the mint's; the locked tokens move from
/// the owner's holding into a sub-account held by the vault's own derived
/// address, and the owner funds both storage deposits.
pub open spec fn spec_spl_initialize(
    s: State,
    owner: Seq<u8>,
    id: Seq<u8>,
    amount: u64,
    unlock_time: i64,
    mint: Seq<u8>,
    decimals: u8,
    now: i64,
) -> Step {
    match spec_vault_address(owner, id) {
        None => failed(s, ErrorCode::DerivationFailed),
        Some((addr, bump)) => if s.vaults.contains_key(addr) {
            failed(s, ErrorCode::VaultAlreadyExists)
        } else if !s.mints.contains_key(mint) {
            failed(s, ErrorCode::UnknownMint)
        } else if s.mints[mint] != decimals {
            failed(s, ErrorCode::DecimalMismatch)
        } else if bal(s.tokens, owner + mint) < amount {
            failed(s, ErrorCode::InsufficientFunds)
        } else if bal(s.native, owner) < VAULT_RENT + TOKEN_RENT {
            failed(s, ErrorCode::InsufficientFunds)
        } else {
            let n1 = debit(s.native, owner, (VAULT_RENT + TOKEN_RENT) as u64).unwrap();
            let t1 = debit(s.tokens, owner + mint, amount).unwrap();
            match credit(n1, addr, VAULT_RENT) {
                None => failed(s, ErrorCode::BalanceOverflow),
                Some(n2) => match credit(n2, addr + mint, TOKEN_RENT) {
                    None => failed(s, ErrorCode::BalanceOverflow),
                    Some(n3) => match credit(t1, addr + mint, amount) {
                        None => failed(s, ErrorCode::BalanceOverflow),
                        Some(t2) => Step {
                            state: State {
                                vaults: s.vaults.insert(
                                    addr,
                                    VaultView {
                                        id: id,
                                        owner: owner,
                                        mint: Some(mint),
                                        amount: amount,
                                        unlock_time: unlock_time,
                                        created_at: now,
                                        bump: bump,
                                    },
                                ),
                                native: n3,
                                tokens: t2,
                                mints: s.mints,
                            },
                            result: Ok(()),
                        },
                    },
                },
            }
        },
    }
}

/// Who may release the vault `v`, and when: only the recorded owner, and
/// only once the clock has reached the unlock time. A non-owner is told the
/// vault does not exist.
pub open spec fn spec_withdraw_gate(v: VaultView, caller: Seq<u8>, now: i64) -> Result<
    (),
    ErrorCode,
> {
    if v.owner != caller {
        Err(ErrorCode::VaultDoesNotExist)
    } else if v.unlock_time > now {
        Err(ErrorCode::VaultNotUnlocked)
    } else {
        Ok(())
    }
}

/// As `spec_withdraw_gate`, for a token release: the vault must also hold a
/// token, and that is checked between the ownership and time gates.
pub open spec fn spec_spl_withdraw_gate(v: VaultView, caller: Seq<u8>, now: i64) -> Result<
    (),
    ErrorCode,
> {
    if v.owner != caller {
        Err(ErrorCode::VaultDoesNotExist)
    } else if v.mint is None {
        Err(ErrorCode::VaultIsNotSplToken)
    } else if v.unlock_time > now {
        Err(ErrorCode::VaultNotUnlocked)
    } else {
        Ok(())
    }
}

/// Release the native vault at `addr` to `caller`.
///
/// On success the record is erased and its address's whole native balance —
/// the locked amount together with the storage deposit — moves to the
/// caller, atomically.
pub open spec fn spec_withdraw(s: State, caller: Seq<u8>, addr: Seq<u8>, now: i64) -> Step {
    if !s.vaults.contains_key(addr) {
        failed(s, ErrorCode::VaultDoesNotExist)
    } else {
        match spec_withdraw_gate(s.vaults[addr], caller, now) {
            Err(e) => failed(s, e),
            Ok(()) => {
                let held = bal(s.native, addr);
                let n1 = s.native.remove(addr);
                match credit(n1, caller, held) {
                    None => failed(s, ErrorCode::BalanceOverflow),
                    Some(n2) => Step {
                        state: State {
                            vaults: s.vaults.remove(addr),
                            native: n2,
                            tokens: s.tokens,
                            mints: s.mints,
                        },
                        result: Ok(()),
                    },
                }
            },
        }
    }
}

/// Release the token vault at `addr` to `caller`.
///
/// Three effects as one unit: the full locked amount moves from the vault's
/// token sub-account to the caller's holding, the emptied sub-account closes
/// and its deposit moves to the caller, and the record closes likewise. Any
/// failure leaves all of it untouched.
pub open spec fn spec_spl_withdraw(
    s: State,
    caller: Seq<u8>,
    addr: Seq<u8>,
    decimals: u8,
    now: i64,
) -> Step {
    if !s.vaults.contains_key(addr) {
        failed(s, ErrorCode::VaultDoesNotExist)
    } else {
        let v = s.vaults[addr];
        match spec_spl_withdraw_gate(v, caller, now) {
            Err(e) => failed(s, e),
            Ok(()) => {
                let mint = v.mint.unwrap();
                if !s.mints.contains_key(mint) {
                    failed(s, ErrorCode::UnknownMint)
                } else if s.mints[mint] != decimals {
                    failed(s, ErrorCode::DecimalMismatch)
                } else if bal(s.tokens, addr + mint) < v.amount {
                    failed(s, ErrorCode::InsufficientFunds)
                } else {
                    let t1 = debit(s.tokens, addr + mint, v.amount).unwrap();
                    match credit(t1, caller + mint, v.amount) {
                        None => failed(s, ErrorCode::BalanceOverflow),
                        Some(t2) => if bal(t2, addr + mint) != 0 {
                            failed(s, ErrorCode::TokenAccountNotEmpty)
                        } else {
                            let sub_rent = bal(s.native, addr + mint);
                            let n1 = s.native.remove(addr + mint);
                            match credit(n1, caller, sub_rent) {
                                None => failed(s, ErrorCode::BalanceOverflow),
                                Some(n2) => {
                                    let held = bal(n2, addr);
                                    let n3 = n2.remove(addr);
                                    match credit(n3, caller, held) {
                                        None => failed(s, ErrorCode::BalanceOverflow),
                                        Some(n4) => Step {
                                            state: State {
                                                vaults: s.vaults.remove(addr),
                                                native: n4,
                                                tokens: t2.remove(addr + mint),
                                                mints: s.mints,
                                            },
                                            result: Ok(()),
                                        },
                                    }
                                },
                            }
                        },
                    }
                }
            },
        }
    }
}

} // verus!
