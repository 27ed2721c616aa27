//! The laws of the vault lifecycle, proved over the spec transitions of
//! `crate::state`. Every executable transition is pinned to its spec
//! transition by its contract, so these laws carry over to the running code.

use vstd::prelude::*;
use crate::vault::ErrorCode;
use crate::pda::spec_vault_address;
use crate::state::{
    bal, failed, spec_initialize_lock, spec_spl_initialize, spec_spl_withdraw, spec_withdraw,
    State, VAULT_RENT,
};

verus! {

/// Address determinism: derivation is a pure function of the owner and the
/// identifier, so any two derivations from the same inputs agree.
pub proof fn lemma_derive_deterministic(
    owner: Seq<u8>,
    id: Seq<u8>,
    r1: Option<(Seq<u8>, u8)>,
    r2: Option<(Seq<u8>, u8)>,
)
    requires
        r1 == spec_vault_address(owner, id),
        r2 == spec_vault_address(owner, id),
    ensures
        r1 == r2,
{
}

/// While a vault occupies the derived address of `(owner, id)`, creating
/// another vault there — native or token — fails with `VaultAlreadyExists`
/// and changes nothing.
pub proof fn lemma_create_fails_when_present(
    s: State,
    owner: Seq<u8>,
    id: Seq<u8>,
    amount: u64,
    unlock_time: i64,
    now: i64,
    mint: Seq<u8>,
    decimals: u8,
)
    requires
        spec_vault_address(owner, id) is Some,
        s.vaults.contains_key(spec_vault_address(owner, id).unwrap().0),
    ensures
        spec_initialize_lock(s, owner, id, amount, unlock_time, now) == failed(
            s,
            ErrorCode::VaultAlreadyExists,
        ),
        spec_spl_initialize(s, owner, id, amount, unlock_time, mint, decimals, now) == failed(
            s,
            ErrorCode::VaultAlreadyExists,
        ),
{
}

/// No double-create: once `initialize_lock` has succeeded for `(owner, id)`,
/// any further creation under the same owner and identifier fails with
/// `VaultAlreadyExists`, whatever its amount, unlock time or mint.
pub proof fn lemma_no_double_create(
    s: State,
    owner: Seq<u8>,
    id: Seq<u8>,
    amount1: u64,
    unlock1: i64,
    now1: i64,
    amount2: u64,
    unlock2: i64,
    now2: i64,
    mint: Seq<u8>,
    decimals: u8,
)
    requires
        spec_initialize_lock(s, owner, id, amount1, unlock1, now1).result is Ok,
    ensures
        ({
            let s1 = spec_initialize_lock(s, owner, id, amount1, unlock1, now1).state;
            &&& spec_initialize_lock(s1, owner, id, amount2, unlock2, now2) == failed(
                s1,
                ErrorCode::VaultAlreadyExists,
            )
            &&& spec_spl_initialize(s1, owner, id, amount2, unlock2, mint, decimals, now2)
                == failed(s1, ErrorCode::VaultAlreadyExists)
        }),
{
    let s1 = spec_initialize_lock(s, owner, id, amount1, unlock1, now1).state;
    let addr = spec_vault_address(owner, id).unwrap().0;
    assert(s1.vaults.contains_key(addr));
    lemma_create_fails_when_present(
        s1,
        owner,
        id,
        amount2,
        unlock2,
        now2,
        mint,
        decimals,
    );
}

/// Time gate, closed half: the recorded owner asking before the unlock time
/// is refused with `VaultNotUnlocked`, and nothing changes.
pub proof fn lemma_time_gate_blocks(s: State, caller: Seq<u8>, addr: Seq<u8>, now: i64)
    requires
        s.vaults.contains_key(addr),
        s.vaults[addr].owner == caller,
        now < s.vaults[addr].unlock_time,
    ensures
        spec_withdraw(s, caller, addr, now) == failed(s, ErrorCode::VaultNotUnlocked),
{
}

/// Time gate, open half: once `now` reaches the unlock time — inclusively —
/// the owner's release succeeds, provided only that the refund fits in the
/// owner's balance.
pub proof fn lemma_time_gate_releases(s: State, caller: Seq<u8>, addr: Seq<u8>, now: i64)
    requires
        s.vaults.contains_key(addr),
        s.vaults[addr].owner == caller,
        now >= s.vaults[addr].unlock_time,
        bal(s.native.remove(addr), caller) + bal(s.native, addr) <= u64::MAX,
    ensures
        spec_withdraw(s, caller, addr, now).result is Ok,
{
}

/// Ownership gate: a caller who is not the recorded owner is told
/// `VaultDoesNotExist` — the same answer as for an absent record, and
/// regardless of the clock — and nothing changes.
pub proof fn lemma_ownership_gate(
    s: State,
    caller: Seq<u8>,
    addr: Seq<u8>,
    decimals: u8,
    now: i64,
)
    requires
        !s.vaults.contains_key(addr) || s.vaults[addr].owner != caller,
    ensures
        spec_withdraw(s, caller, addr, now) == failed(s, ErrorCode::VaultDoesNotExist),
        spec_spl_withdraw(s, caller, addr, decimals, now) == failed(
            s,
            ErrorCode::VaultDoesNotExist,
        ),
{
}

/// Conservation of a native release: on success the caller's balance grows
/// by exactly what the vault's address held — the locked amount together
/// with the storage deposit — the record is gone, the address is empty, and
/// no other balance moves.
pub proof fn lemma_native_release_conserves(s: State, caller: Seq<u8>, addr: Seq<u8>, now: i64)
    requires
        spec_withdraw(s, caller, addr, now).result is Ok,
        caller != addr,
    ensures
        ({
            let s2 = spec_withdraw(s, caller, addr, now).state;
            &&& bal(s2.native, caller) == bal(s.native, caller) + bal(s.native, addr)
            &&& !s2.vaults.contains_key(addr)
            &&& bal(s2.native, addr) == 0
            &&& forall|k: Seq<u8>| k != caller && k != addr ==> bal(s2.native, k) == bal(
                s.native,
                k,
            )
            &&& s2.vaults == s.vaults.remove(addr)
            &&& s2.tokens == s.tokens
            &&& s2.mints == s.mints
        }),
{
}

/// Conservation of a token release: on success the caller's token holding
/// grows by exactly the locked amount, the vault's sub-account is closed,
/// the caller receives both storage deposits together with whatever else the
/// record's address held, and the record is gone.
pub proof fn lemma_token_release_conserves(
    s: State,
    caller: Seq<u8>,
    addr: Seq<u8>,
    decimals: u8,
    now: i64,
)
    requires
        spec_spl_withdraw(s, caller, addr, decimals, now).result is Ok,
        caller != addr,
        ({
            let m = s.vaults[addr].mint.unwrap();
            &&& caller + m != addr + m
            &&& caller != addr + m
            &&& addr != addr + m
        }),
    ensures
        ({
            let m = s.vaults[addr].mint.unwrap();
            let v = s.vaults[addr];
            let s2 = spec_spl_withdraw(s, caller, addr, decimals, now).state;
            &&& bal(s2.tokens, caller + m) == bal(s.tokens, caller + m) + v.amount
            &&& !s2.tokens.contains_key(addr + m)
            &&& bal(s2.native, caller) == bal(s.native, caller) + bal(s.native, addr + m) + bal(
                s.native,
                addr,
            )
            &&& bal(s2.native, addr) == 0
            &&& bal(s2.native, addr + m) == 0
            &&& !s2.vaults.contains_key(addr)
        }),
{
}

/// A created vault holds exactly its amount plus the deposit, and releasing
/// it after the unlock time gives all of it back: across the round trip the
/// owner's balance is unchanged and the address is free again.
pub proof fn lemma_create_then_release(
    s: State,
    owner: Seq<u8>,
    id: Seq<u8>,
    amount: u64,
    unlock_time: i64,
    now1: i64,
    now2: i64,
)
    requires
        spec_initialize_lock(s, owner, id, amount, unlock_time, now1).result is Ok,
        bal(s.native, spec_vault_address(owner, id).unwrap().0) == 0,
        now2 >= unlock_time,
    ensures
        ({
            let addr = spec_vault_address(owner, id).unwrap().0;
            let s1 = spec_initialize_lock(s, owner, id, amount, unlock_time, now1).state;
            let step2 = spec_withdraw(s1, owner, addr, now2);
            &&& bal(s1.native, addr) == amount + VAULT_RENT
            &&& step2.result is Ok
            &&& bal(step2.state.native, owner) == bal(s.native, owner)
            &&& bal(step2.state.native, addr) == 0
            &&& !step2.state.vaults.contains_key(addr)
        }),
{
    let addr = spec_vault_address(owner, id).unwrap().0;
    let s1 = spec_initialize_lock(s, owner, id, amount, unlock_time, now1).state;
    assert(bal(s.native, owner) >= amount + VAULT_RENT);
    assert(owner != addr);
    assert(bal(s1.native, addr) == amount + VAULT_RENT);
    assert(bal(s1.native.remove(addr), owner) == bal(s.native, owner) - (amount + VAULT_RENT));
}

/// Re-creation after release: once a release has erased the vault of
/// `(owner, id)`, a fresh creation under the same owner and identifier
/// succeeds again — given funds and room — and records the new terms.
pub proof fn lemma_recreate_after_release(
    s: State,
    owner: Seq<u8>,
    id: Seq<u8>,
    now: i64,
    amount2: u64,
    unlock2: i64,
    now2: i64,
)
    requires
        spec_vault_address(owner, id) is Some,
        spec_withdraw(s, owner, spec_vault_address(owner, id).unwrap().0, now).result is Ok,
        ({
            let addr = spec_vault_address(owner, id).unwrap().0;
            let s1 = spec_withdraw(s, owner, addr, now).state;
            &&& bal(s1.native, owner) >= amount2 + VAULT_RENT
            &&& bal(s1.native, addr) + amount2 + VAULT_RENT <= u64::MAX
        }),
    ensures
        ({
            let addr = spec_vault_address(owner, id).unwrap().0;
            let s1 = spec_withdraw(s, owner, addr, now).state;
            let step2 = spec_initialize_lock(s1, owner, id, amount2, unlock2, now2);
            &&& step2.result is Ok
            &&& step2.state.vaults.contains_key(addr)
            &&& step2.state.vaults[addr].amount == amount2
            &&& step2.state.vaults[addr].unlock_time == unlock2
            &&& step2.state.vaults[addr].created_at == now2
            &&& step2.state.vaults[addr].owner == owner
        }),
{
    let addr = spec_vault_address(owner, id).unwrap().0;
    let s1 = spec_withdraw(s, owner, addr, now).state;
    assert(!s1.vaults.contains_key(addr));
    if owner == addr {
        assert(bal(s1.native.remove(owner), addr) == 0);
    }
}

/// Full-or-nothing: a refused transition — any of the four — leaves the
/// state exactly as it was. In particular a token release that fails at the
/// asset-transfer step (a precision mismatch, say) leaves the vault still
/// locked and still funded.
pub proof fn lemma_failure_changes_nothing(
    s: State,
    owner: Seq<u8>,
    id: Seq<u8>,
    amount: u64,
    unlock_time: i64,
    mint: Seq<u8>,
    decimals: u8,
    caller: Seq<u8>,
    addr: Seq<u8>,
    now: i64,
)
    ensures
        spec_initialize_lock(s, owner, id, amount, unlock_time, now).result is Err
            ==> spec_initialize_lock(s, owner, id, amount, unlock_time, now).state == s,
        spec_spl_initialize(s, owner, id, amount, unlock_time, mint, decimals, now).result is Err
            ==> spec_spl_initialize(s, owner, id, amount, unlock_time, mint, decimals, now).state
            == s,
        spec_withdraw(s, caller, addr, now).result is Err ==> spec_withdraw(
            s,
            caller,
            addr,
            now,
        ).state == s,
        spec_spl_withdraw(s, caller, addr, decimals, now).result is Err ==> spec_spl_withdraw(
            s,
            caller,
            addr,
            decimals,
            now,
        ).state == s,
{
}

/// The precision gate of a token release: the recorded owner asking in time
/// but declaring the wrong precision is refused with `DecimalMismatch`, and
/// the vault remains exactly as it was.
pub proof fn lemma_decimal_mismatch_refused(
    s: State,
    caller: Seq<u8>,
    addr: Seq<u8>,
    decimals: u8,
    now: i64,
)
    requires
        s.vaults.contains_key(addr),
        s.vaults[addr].owner == caller,
        s.vaults[addr].mint is Some,
        now >= s.vaults[addr].unlock_time,
        s.mints.contains_key(s.vaults[addr].mint.unwrap()),
        s.mints[s.vaults[addr].mint.unwrap()] != decimals,
    ensures
        spec_spl_withdraw(s, caller, addr, decimals, now) == failed(
            s,
            ErrorCode::DecimalMismatch,
        ),
{
}

} // verus!

