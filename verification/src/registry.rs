//! The vault registry: executable storage and the four transitions.
//!
//! Each transition validates every precondition before its first mutation
//! and then commits all effects; its contract pins the result and the whole
//! post-state to the corresponding spec transition of `crate::state`.

use vstd::prelude::*;
use crate::keys::{AccountKey, bytes_eq, clone_bytes, concat_keys};
use crate::table::Table;
use crate::vault::{ErrorCode, Vault, VaultView};
use crate::state::{
    bal, credit, debit, spec_initialize_lock, spec_spl_initialize, spec_spl_withdraw,
    spec_spl_withdraw_gate, spec_withdraw, spec_withdraw_gate, State, TOKEN_RENT, VAULT_RENT,
};
use crate::pda::derive_address;

verus! {

/// The record store and ledgers, keyed as in `State`.
pub struct Registry {
    vaults: Table<Vault>,
    native: Table<u64>,
    tokens: Table<u64>,
    mints: Table<u8>,
}

/// The abstract image of the record store.
pub open spec fn vmap(m: Map<Seq<u8>, Vault>) -> Map<Seq<u8>, VaultView> {
    Map::new(|k: Seq<u8>| m.contains_key(k), |k: Seq<u8>| m[k]@)
}

proof fn lemma_vmap_insert(m: Map<Seq<u8>, Vault>, a: Seq<u8>, v: Vault)
    ensures
        vmap(m.insert(a, v)) == vmap(m).insert(a, v@),
{
    assert(vmap(m.insert(a, v)) =~= vmap(m).insert(a, v@));
}

proof fn lemma_vmap_remove(m: Map<Seq<u8>, Vault>, a: Seq<u8>)
    ensures
        vmap(m.remove(a)) == vmap(m).remove(a),
{
    assert(vmap(m.remove(a)) =~= vmap(m).remove(a));
}

impl View for Registry {
    type V = State;

    closed spec fn view(&self) -> State {
        State {
            vaults: vmap(self.vaults@),
            native: self.native@,
            tokens: self.tokens@,
            mints: self.mints@,
        }
    }
}

fn get_bal(t: &Table<u64>, k: &Vec<u8>) -> (r: u64)
    requires
        t.wf(),
    ensures
        r == bal(t@, k@),
{
    match t.read(k) {
        Some(v) => *v,
        None => 0,
    }
}

fn credit_exec(t: &mut Table<u64>, k: &Vec<u8>, v: u64) -> (r: bool)
    requires
        old(t).wf(),
    ensures
        final(t).wf(),
        r ==> credit(old(t)@, k@, v) == Some(final(t)@),
        !r ==> credit(old(t)@, k@, v) is None && final(t)@ == old(t)@,
{
    let cur = get_bal(t, k);
    if v <= u64::MAX - cur {
        t.put(clone_bytes(k), cur + v);
        true
    } else {
        false
    }
}

fn debit_exec(t: &mut Table<u64>, k: &Vec<u8>, v: u64) -> (r: bool)
    requires
        old(t).wf(),
    ensures
        final(t).wf(),
        r ==> debit(old(t)@, k@, v) == Some(final(t)@),
        !r ==> debit(old(t)@, k@, v) is None && final(t)@ == old(t)@,
{
    let cur = get_bal(t, k);
    if v <= cur {
        t.put(clone_bytes(k), cur - v);
        true
    } else {
        false
    }
}

/// The release gates for a native withdrawal, in the order the record is
/// interrogated: ownership (a mismatch is reported as absence), then time.
pub fn withdraw_gate(v: &Vault, caller: &AccountKey, now: i64) -> (r: Result<(), ErrorCode>)
    ensures
        r == spec_withdraw_gate(v@, caller@, now),
{
    if !v.owner.eq_key(caller) {
        Err(ErrorCode::VaultDoesNotExist)
    } else if v.unlock_time > now {
        Err(ErrorCode::VaultNotUnlocked)
    } else {
        Ok(())
    }
}

/// The release gates for a token withdrawal: ownership, then the presence
/// of a locked token, then time.
pub fn spl_withdraw_gate(v: &Vault, caller: &AccountKey, now: i64) -> (r: Result<(), ErrorCode>)
    ensures
        r == spec_spl_withdraw_gate(v@, caller@, now),
{
    if !v.owner.eq_key(caller) {
        Err(ErrorCode::VaultDoesNotExist)
    } else if v.mint.is_none() {
        Err(ErrorCode::VaultIsNotSplToken)
    } else if v.unlock_time > now {
        Err(ErrorCode::VaultNotUnlocked)
    } else {
        Ok(())
    }
}

impl Registry {
    pub closed spec fn wf(&self) -> bool {
        &&& self.vaults.wf()
        &&& self.native.wf()
        &&& self.tokens.wf()
        &&& self.mints.wf()
    }

    /// An empty system: no records, no balances, no known mints.
    pub fn new() -> (r: Registry)
        ensures
            r.wf(),
            r@.vaults == Map::<Seq<u8>, VaultView>::empty(),
            r@.native == Map::<Seq<u8>, u64>::empty(),
            r@.tokens == Map::<Seq<u8>, u64>::empty(),
            r@.mints == Map::<Seq<u8>, u8>::empty(),
    {
        let r = Registry {
            vaults: Table::new(),
            native: Table::new(),
            tokens: Table::new(),
            mints: Table::new(),
        };
        proof {
            assert(vmap(r.vaults@) =~= Map::<Seq<u8>, VaultView>::empty());
        }
        r
    }

    /// The platform's endowment of an account with native currency.
    pub fn fund_native(&mut self, who: &AccountKey, v: u64) -> (r: bool)
        requires
            old(self).wf(),
        ensures
            final(self).wf(),
            r ==> credit(old(self)@.native, who@, v) == Some(final(self)@.native),
            !r ==> credit(old(self)@.native, who@, v) is None && final(self)@.native == old(
                self,
            )@.native,
            final(self)@.vaults == old(self)@.vaults,
            final(self)@.tokens == old(self)@.tokens,
            final(self)@.mints == old(self)@.mints,
    {
        credit_exec(&mut self.native, who.bytes(), v)
    }

    /// The platform's record of a mint's precision.
    pub fn register_mint(&mut self, mint: &AccountKey, decimals: u8)
        requires
            old(self).wf(),
        ensures
            final(self).wf(),
            final(self)@.mints == old(self)@.mints.insert(mint@, decimals),
            final(self)@.vaults == old(self)@.vaults,
            final(self)@.native == old(self)@.native,
            final(self)@.tokens == old(self)@.tokens,
    {
        self.mints.put(clone_bytes(mint.bytes()), decimals);
    }

    /// The platform's endowment of a holder with tokens of a mint.
    pub fn fund_token(&mut self, holder: &AccountKey, mint: &AccountKey, v: u64) -> (r: bool)
        requires
            old(self).wf(),
        ensures
            final(self).wf(),
            r ==> credit(old(self)@.tokens, holder@ + mint@, v) == Some(final(self)@.tokens),
            !r ==> credit(old(self)@.tokens, holder@ + mint@, v) is None && final(self)@.tokens
                == old(self)@.tokens,
            final(self)@.vaults == old(self)@.vaults,
            final(self)@.native == old(self)@.native,
            final(self)@.mints == old(self)@.mints,
    {
        let k = concat_keys(holder, mint);
        credit_exec(&mut self.tokens, &k, v)
    }

    pub fn native_balance(&self, who: &AccountKey) -> (r: u64)
        requires
            self.wf(),
        ensures
            r == bal(self@.native, who@),
    {
        get_bal(&self.native, who.bytes())
    }

    pub fn token_balance(&self, holder: &AccountKey, mint: &AccountKey) -> (r: u64)
        requires
            self.wf(),
        ensures
            r == bal(self@.tokens, holder@ + mint@),
    {
        let k = concat_keys(holder, mint);
        get_bal(&self.tokens, &k)
    }

    /// The record at a derived address, if the vault exists.
    pub fn vault_at(&self, addr: &AccountKey) -> (r: Option<&Vault>)
        requires
            self.wf(),
        ensures
            match r {
                Some(v) => self@.vaults.contains_key(addr@) && v@ == self@.vaults[addr@],
                None => !self@.vaults.contains_key(addr@),
            },
    {
        self.vaults.read(addr.bytes())
    }

    /// Create a native-currency vault for `owner` under `id`.
    pub fn initialize_lock(
        &mut self,
        owner: &AccountKey,
        id: Vec<u8>,
        amount: u64,
        unlock_time: i64,
        now: i64,
    ) -> (r: Result<(), ErrorCode>)
        requires
            old(self).wf(),
        ensures
            final(self).wf(),
            final(self)@ == spec_initialize_lock(
                old(self)@,
                owner@,
                id@,
                amount,
                unlock_time,
                now,
            ).state,
            r == spec_initialize_lock(old(self)@, owner@, id@, amount, unlock_time, now).result,
    {
        let ghost s0 = self@;
        match derive_address(owner, &id) {
            None => Err(ErrorCode::DerivationFailed),
            Some((addr, bump)) => {
                if self.vaults.contains(addr.bytes()) {
                    return Err(ErrorCode::VaultAlreadyExists);
                }
                let owner_bal = get_bal(&self.native, owner.bytes());
                if amount > u64::MAX - VAULT_RENT {
                    return Err(ErrorCode::InsufficientFunds);
                }
                let total: u64 = amount + VAULT_RENT;
                if owner_bal < total {
                    return Err(ErrorCode::InsufficientFunds);
                }
                let addr_bal = if bytes_eq(addr.bytes(), owner.bytes()) {
                    owner_bal - total
                } else {
                    get_bal(&self.native, addr.bytes())
                };
                if total > u64::MAX - addr_bal {
                    return Err(ErrorCode::BalanceOverflow);
                }
                let ok1 = debit_exec(&mut self.native, owner.bytes(), total);
                let ok2 = credit_exec(&mut self.native, addr.bytes(), total);
                proof {
                    assert(ok1 && ok2);
                }
                let record = Vault {
                    id,
                    owner: owner.clone_key(),
                    mint: None,
                    amount,
                    unlock_time,
                    created_at: now,
                    bump,
                };
                let ghost pre_vaults = self.vaults@;
                self.vaults.put(clone_bytes(addr.bytes()), record);
                proof {
                    lemma_vmap_insert(pre_vaults, addr@, record);
                    assert(self@ == spec_initialize_lock(
                        s0,
                        owner@,
                        id@,
                        amount,
                        unlock_time,
                        now,
                    ).state);
                }
                Ok(())
            },
        }
    }

    /// Create a token vault for `owner` under `id`, locking `amount` of
    /// `mint`, whose precision the caller declares as `decimals`.
    pub fn spl_initialize(
        &mut self,
        owner: &AccountKey,
        id: Vec<u8>,
        amount: u64,
        unlock_time: i64,
        mint: &AccountKey,
        decimals: u8,
        now: i64,
    ) -> (r: Result<(), ErrorCode>)
        requires
            old(self).wf(),
        ensures
            final(self).wf(),
            final(self)@ == spec_spl_initialize(
                old(self)@,
                owner@,
                id@,
                amount,
                unlock_time,
                mint@,
                decimals,
                now,
            ).state,
            r == spec_spl_initialize(
                old(self)@,
                owner@,
                id@,
                amount,
                unlock_time,
                mint@,
                decimals,
                now,
            ).result,
    {
        let ghost s0 = self@;
        match derive_address(owner, &id) {
            None => Err(ErrorCode::DerivationFailed),
            Some((addr, bump)) => {
                if self.vaults.contains(addr.bytes()) {
                    return Err(ErrorCode::VaultAlreadyExists);
                }
                let mdec = match self.mints.read(mint.bytes()) {
                    None => {
                        return Err(ErrorCode::UnknownMint);
                    },
                    Some(d) => *d,
                };
                if mdec != decimals {
                    return Err(ErrorCode::DecimalMismatch);
                }
                let src_tk = concat_keys(owner, mint);
                let tb = get_bal(&self.tokens, &src_tk);
                if tb < amount {
                    return Err(ErrorCode::InsufficientFunds);
                }
                let rent_total: u64 = VAULT_RENT + TOKEN_RENT;
                let owner_bal = get_bal(&self.native, owner.bytes());
                if owner_bal < rent_total {
                    return Err(ErrorCode::InsufficientFunds);
                }
                let dst_tk = concat_keys(&addr, mint);
                // Balances after the two debits, then after each credit, all
                // computed before any mutation so that a refusal changes nothing.
                let ab1 = if bytes_eq(addr.bytes(), owner.bytes()) {
                    owner_bal - rent_total
                } else {
                    get_bal(&self.native, addr.bytes())
                };
                if VAULT_RENT > u64::MAX - ab1 {
                    return Err(ErrorCode::BalanceOverflow);
                }
                let nb2 = if bytes_eq(&dst_tk, addr.bytes()) {
                    ab1 + VAULT_RENT
                } else if bytes_eq(&dst_tk, owner.bytes()) {
                    owner_bal - rent_total
                } else {
                    get_bal(&self.native, &dst_tk)
                };
                if TOKEN_RENT > u64::MAX - nb2 {
                    return Err(ErrorCode::BalanceOverflow);
                }
                let tdst = if bytes_eq(&dst_tk, &src_tk) {
                    tb - amount
                } else {
                    get_bal(&self.tokens, &dst_tk)
                };
                if amount > u64::MAX - tdst {
                    return Err(ErrorCode::BalanceOverflow);
                }
                let ok1 = debit_exec(&mut self.native, owner.bytes(), rent_total);
                let ok2 = debit_exec(&mut self.tokens, &src_tk, amount);
                let ok3 = credit_exec(&mut self.native, addr.bytes(), VAULT_RENT);
                let ok4 = credit_exec(&mut self.native, &dst_tk, TOKEN_RENT);
                let ok5 = credit_exec(&mut self.tokens, &dst_tk, amount);
                proof {
                    assert(ok1 && ok2 && ok3 && ok4 && ok5);
                }
                let record = Vault {
                    id,
                    owner: owner.clone_key(),
                    mint: Some(mint.clone_key()),
                    amount,
                    unlock_time,
                    created_at: now,
                    bump,
                };
                let ghost pre_vaults = self.vaults@;
                self.vaults.put(clone_bytes(addr.bytes()), record);
                proof {
                    lemma_vmap_insert(pre_vaults, addr@, record);
                    assert(self@ == spec_spl_initialize(
                        s0,
                        owner@,
                        id@,
                        amount,
                        unlock_time,
                        mint@,
                        decimals,
                        now,
                    ).state);
                }
                Ok(())
            },
        }
    }

    /// Release the native vault at `addr` to `caller`: erase the record and
    /// move the address's whole balance to the caller, as one unit.
    pub fn withdraw(&mut self, caller: &AccountKey, addr: &AccountKey, now: i64) -> (r: Result<
        (),
        ErrorCode,
    >)
        requires
            old(self).wf(),
        ensures
            final(self).wf(),
            final(self)@ == spec_withdraw(old(self)@, caller@, addr@, now).state,
            r == spec_withdraw(old(self)@, caller@, addr@, now).result,
    {
        let ghost s0 = self@;
        match self.vaults.read(addr.bytes()) {
            None => {
                return Err(ErrorCode::VaultDoesNotExist);
            },
            Some(v) => {
                match withdraw_gate(v, caller, now) {
                    Err(e) => {
                        return Err(e);
                    },
                    Ok(()) => {},
                }
            },
        }
        let held = get_bal(&self.native, addr.bytes());
        let caller_rest = if bytes_eq(caller.bytes(), addr.bytes()) {
            0
        } else {
            get_bal(&self.native, caller.bytes())
        };
        if held > u64::MAX - caller_rest {
            return Err(ErrorCode::BalanceOverflow);
        }
        self.native.delete(addr.bytes());
        let ok = credit_exec(&mut self.native, caller.bytes(), held);
        proof {
            assert(ok);
        }
        let ghost pre_vaults = self.vaults@;
        self.vaults.delete(addr.bytes());
        proof {
            lemma_vmap_remove(pre_vaults, addr@);
            assert(self@ == spec_withdraw(s0, caller@, addr@, now).state);
        }
        Ok(())
    }

    /// Release the token vault at `addr` to `caller`: move the full locked
    /// amount to the caller's holding, close the emptied sub-account, close
    /// the record, and refund both deposits — all as one unit.
    pub fn spl_withdraw(
        &mut self,
        caller: &AccountKey,
        addr: &AccountKey,
        decimals: u8,
        now: i64,
    ) -> (r: Result<(), ErrorCode>)
        requires
            old(self).wf(),
        ensures
            final(self).wf(),
            final(self)@ == spec_spl_withdraw(old(self)@, caller@, addr@, decimals, now).state,
            r == spec_spl_withdraw(old(self)@, caller@, addr@, decimals, now).result,
    {
        let ghost s0 = self@;
        let (amount, mint) = match self.vaults.read(addr.bytes()) {
            None => {
                return Err(ErrorCode::VaultDoesNotExist);
            },
            Some(v) => {
                match spl_withdraw_gate(v, caller, now) {
                    Err(e) => {
                        return Err(e);
                    },
                    Ok(()) => {},
                }
                match &v.mint {
                    Some(m) => (v.amount, m.clone_key()),
                    None => {
                        proof {
                            assert(false);
                        }
                        return Err(ErrorCode::VaultIsNotSplToken);
                    },
                }
            },
        };
        let mdec = match self.mints.read(mint.bytes()) {
            None => {
                return Err(ErrorCode::UnknownMint);
            },
            Some(d) => *d,
        };
        if mdec != decimals {
            return Err(ErrorCode::DecimalMismatch);
        }
        let vault_tk = concat_keys(addr, &mint);
        let caller_tk = concat_keys(caller, &mint);
        let tb = get_bal(&self.tokens, &vault_tk);
        if tb < amount {
            return Err(ErrorCode::InsufficientFunds);
        }
        let same_tk = bytes_eq(&vault_tk, &caller_tk);
        let ctb = if same_tk {
            tb - amount
        } else {
            get_bal(&self.tokens, &caller_tk)
        };
        if amount > u64::MAX - ctb {
            return Err(ErrorCode::BalanceOverflow);
        }
        let after_transfer = if same_tk {
            ctb + amount
        } else {
            tb - amount
        };
        if after_transfer != 0 {
            return Err(ErrorCode::TokenAccountNotEmpty);
        }
        let sub_rent = get_bal(&self.native, &vault_tk);
        let cb1 = if bytes_eq(caller.bytes(), &vault_tk) {
            0
        } else {
            get_bal(&self.native, caller.bytes())
        };
        if sub_rent > u64::MAX - cb1 {
            return Err(ErrorCode::BalanceOverflow);
        }
        let held = if bytes_eq(addr.bytes(), caller.bytes()) {
            cb1 + sub_rent
        } else if bytes_eq(addr.bytes(), &vault_tk) {
            0
        } else {
            get_bal(&self.native, addr.bytes())
        };
        let cb2 = if bytes_eq(caller.bytes(), addr.bytes()) {
            0
        } else {
            cb1 + sub_rent
        };
        if held > u64::MAX - cb2 {
            return Err(ErrorCode::BalanceOverflow);
        }
        let ok1 = debit_exec(&mut self.tokens, &vault_tk, amount);
        let ok2 = credit_exec(&mut self.tokens, &caller_tk, amount);
        proof {
            assert(ok1 && ok2);
        }
        self.tokens.delete(&vault_tk);
        self.native.delete(&vault_tk);
        let ok3 = credit_exec(&mut self.native, caller.bytes(), sub_rent);
        proof {
            assert(ok3);
        }
        self.native.delete(addr.bytes());
        let ok4 = credit_exec(&mut self.native, caller.bytes(), held);
        proof {
            assert(ok4);
        }
        let ghost pre_vaults = self.vaults@;
        self.vaults.delete(addr.bytes());
        proof {
            lemma_vmap_remove(pre_vaults, addr@);
            assert(self@ == spec_spl_withdraw(s0, caller@, addr@, decimals, now).state);
        }
        Ok(())
    }
}

} // verus!
