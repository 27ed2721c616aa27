//! 32-byte account identities and derived storage addresses.

use vstd::prelude::*;

verus! {

/// Number of bytes in an account identity or a derived address.
pub const KEY_LEN: usize = 32;

/// A 32-byte account identity: either a depositor's public key or a derived
/// storage address. Composite ledger keys (a token holding, keyed by holder
/// and mint together) are formed by concatenating two of these.
pub struct AccountKey {
    bytes: Vec<u8>,
}

impl View for AccountKey {
    type V = Seq<u8>;

    closed spec fn view(&self) -> Seq<u8> {
        self.bytes@
    }
}

impl AccountKey {
    pub open spec fn wf(&self) -> bool {
        self@.len() == KEY_LEN
    }

    pub fn new(bytes: Vec<u8>) -> (r: AccountKey)
        requires
            bytes@.len() == KEY_LEN,
        ensures
            r@ == bytes@,
            r.wf(),
    {
        AccountKey { bytes }
    }

    pub fn bytes(&self) -> (r: &Vec<u8>)
        ensures
            r@ == self@,
    {
        &self.bytes
    }

    pub fn clone_key(&self) -> (r: AccountKey)
        ensures
            r@ == self@,
    {
        AccountKey { bytes: clone_bytes(&self.bytes) }
    }

    /// Strict equality of identities: the ownership check delegates no
    /// authority and admits no tolerance.
    pub fn eq_key(&self, other: &AccountKey) -> (r: bool)
        ensures
            r == (self@ == other@),
    {
        bytes_eq(&self.bytes, &other.bytes)
    }
}

pub fn clone_bytes(v: &Vec<u8>) -> (r: Vec<u8>)
    ensures
        r@ == v@,
{
    let mut r: Vec<u8> = Vec::new();
    let mut i: usize = 0;
    while i < v.len()
        invariant
            i <= v@.len(),
            r@ == v@.subrange(0, i as int),
        decreases v@.len() - i,
    {
        r.push(v[i]);
        proof {
            assert(r@ =~= v@.subrange(0, i + 1));
        }
        i += 1;
    }
    proof {
        assert(v@.subrange(0, v@.len() as int) =~= v@);
    }
    r
}

pub fn bytes_eq(a: &Vec<u8>, b: &Vec<u8>) -> (r: bool)
    ensures
        r == (a@ == b@),
{
    if a.len() != b.len() {
        return false;
    }
    let mut i: usize = 0;
    while i < a.len()
        invariant
            i <= a@.len(),
            a@.len() == b@.len(),
            forall|j: int| 0 <= j < i ==> a@[j] == b@[j],
        decreases a@.len() - i,
    {
        if a[i] != b[i] {
            return false;
        }
        i += 1;
    }
    proof {
        assert(a@ =~= b@);
    }
    true
}

/// The key of a token holding: the holder's address followed by the mint's.
pub fn concat_keys(a: &AccountKey, b: &AccountKey) -> (r: Vec<u8>)
    ensures
        r@ == a@ + b@,
{
    let mut r = clone_bytes(&a.bytes);
    let mut i: usize = 0;
    while i < b.bytes.len()
        invariant
            i <= b@.len(),
            r@ == a@ + b@.subrange(0, i as int),
        decreases b@.len() - i,
    {
        r.push(b.bytes[i]);
        proof {
            assert(r@ =~= a@ + b@.subrange(0, i + 1));
        }
        i += 1;
    }
    proof {
        assert(a@ + b@.subrange(0, b@.len() as int) =~= a@ + b@);
    }
    r
}

/// Concatenation of two fixed-width keys loses nothing: both halves are
/// recoverable, so distinct (holder, mint) pairs name distinct holdings.
pub proof fn lemma_concat_keys_injective(a1: Seq<u8>, b1: Seq<u8>, a2: Seq<u8>, b2: Seq<u8>)
    requires
        a1.len() == a2.len(),
        a1 + b1 == a2 + b2,
    ensures
        a1 == a2,
        b1 == b2,
{
    assert forall|i: int| 0 <= i < a1.len() implies a1[i] == a2[i] by {
        assert((a1 + b1)[i] == a1[i]);
        assert((a2 + b2)[i] == a2[i]);
    }
    assert((a1 + b1).len() == a1.len() + b1.len());
    assert((a2 + b2).len() == a2.len() + b2.len());
    assert(b1.len() == b2.len());
    assert forall|i: int| 0 <= i < b1.len() implies b1[i] == b2[i] by {
        assert((a1 + b1)[a1.len() + i] == b1[i]);
        assert((a2 + b2)[a2.len() + i] == b2[i]);
    }
    assert(a1 =~= a2);
    assert(b1 =~= b2);
}

} // verus!
