//! Deterministic address derivation.
//!
//! A vault's storage address is derived from a fixed domain-separation tag,
//! the owner's key and the caller-chosen identifier, together with this
//! program's own identity. The derivation is the platform's program-derived
//! address scheme; the library calls it and names its result, proving
//! everything else against that name.

use vstd::prelude::*;
use crate::keys::{AccountKey, KEY_LEN};

verus! {

/// The derivation salt search may fail for at most `MAX_SEED_LEN`-byte
/// seeds, so an identifier longer than this never derives an address.
pub const MAX_ID_LEN: usize = 32;

/// The base58 spelling of this program's identity.
pub fn program_id_text() -> (r: &'static str)
    ensures
        r@ == spec_program_id_text(),
{
    "G2Eu2D46kTMw4tbQ9HeoLvh3DeA6d4k1XUA6JfLbsY6Z"
}

pub open spec fn spec_program_id_text() -> Seq<char> {
    "G2Eu2D46kTMw4tbQ9HeoLvh3DeA6d4k1XUA6JfLbsY6Z"@
}

/// The domain-separation tag: the bytes of "vault".
pub open spec fn spec_seed_tag() -> Seq<u8> {
    seq![118u8, 97u8, 117u8, 108u8, 116u8]
}

pub fn seed_tag() -> (r: Vec<u8>)
    ensures
        r@ == spec_seed_tag(),
{
    let mut r: Vec<u8> = Vec::new();
    r.push(118);
    r.push(97);
    r.push(117);
    r.push(108);
    r.push(116);
    proof {
        assert(r@ =~= spec_seed_tag());
    }
    r
}

/// What base58 parsing of an identity yields: a pure function of the text.
pub uninterp spec fn parsed_key_of(s: Seq<char>) -> Option<Seq<u8>>;

/// Relies on solana_pubkey::Pubkey::from_str: base58 decoding into a 32-byte
/// key, a pure function of the text alone, failing on malformed text.
#[verifier::external_body]
fn parse_key(s: &str) -> (r: Option<Vec<u8>>)
    ensures
        match r {
            Some(b) => parsed_key_of(s@) == Some(b@) && b@.len() == KEY_LEN,
            None => parsed_key_of(s@) is None,
        },
{
    match <solana_pubkey::Pubkey as core::str::FromStr>::from_str(s) {
        Ok(k) => Some(k.to_bytes().to_vec()),
        Err(_) => None,
    }
}

/// What program-derived-address search returns for three seeds and a program
/// identity: a pure function of those inputs alone (a hash search), `None`
/// in the statistically improbable event that no salt yields an address.
pub uninterp spec fn pda_of(s1: Seq<u8>, s2: Seq<u8>, s3: Seq<u8>, program: Seq<u8>) -> Option<
    (Seq<u8>, u8),
>;

/// Relies on solana_pubkey::Pubkey::try_find_program_address: finds the
/// derived address and salt for the given seeds, deterministically from the
/// seeds and the program identity; the returned key is 32 bytes; returns
/// `None` instead of failing when no salt works or a seed is over-long.
#[verifier::external_body]
fn find_pda(s1: &Vec<u8>, s2: &Vec<u8>, s3: &Vec<u8>, program: &Vec<u8>) -> (r: Option<
    (Vec<u8>, u8),
>)
    requires
        program@.len() == KEY_LEN,
    ensures
        match r {
            Some((a, bump)) => pda_of(s1@, s2@, s3@, program@) == Some((a@, bump)) && a@.len()
                == KEY_LEN,
            None => pda_of(s1@, s2@, s3@, program@) is None,
        },
        s3@.len() > MAX_ID_LEN ==> r is None,
{
    let program_key = solana_pubkey::Pubkey::try_from(program.as_slice()).unwrap();
    let seeds: [&[u8]; 3] = [s1.as_slice(), s2.as_slice(), s3.as_slice()];
    match solana_pubkey::Pubkey::try_find_program_address(&seeds, &program_key) {
        Some((addr, bump)) => Some((addr.to_bytes().to_vec(), bump)),
        None => None,
    }
}

/// Where the vault for `owner` and `id` lives, if a derivation salt exists:
/// a pure function of the two inputs, so the registry needs no index.
pub open spec fn spec_vault_address(owner: Seq<u8>, id: Seq<u8>) -> Option<(Seq<u8>, u8)> {
    match parsed_key_of(spec_program_id_text()) {
        Some(program) => pda_of(spec_seed_tag(), owner, id, program),
        None => None,
    }
}

/// Derive the storage address and salt for a vault. Deterministic: the
/// result is fixed by `owner` and `id` alone.
pub fn derive_address(owner: &AccountKey, id: &Vec<u8>) -> (r: Option<(AccountKey, u8)>)
    ensures
        match r {
            Some((a, bump)) => spec_vault_address(owner@, id@) == Some((a@, bump)) && a.wf(),
            None => spec_vault_address(owner@, id@) is None,
        },
        id@.len() > MAX_ID_LEN ==> r is None,
{
    match parse_key(program_id_text()) {
        None => None,
        Some(program) => {
            let tag = seed_tag();
            match find_pda(&tag, owner.bytes(), id, &program) {
                None => None,
                Some((a, bump)) => Some((AccountKey::new(a), bump)),
            }
        },
    }
}

} // verus!
