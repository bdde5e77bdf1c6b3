use vstd::prelude::*;

use vstd::utf8::encode_utf8;

verus! {

/// The SHA-256 digest of a byte sequence.
pub uninterp spec fn sha256_of(data: Seq<u8>) -> Seq<u8>;

/// The program address and bump seed that the search finds for the seeds under
/// the program id, if any bump seed yields an address off the curve.
pub uninterp spec fn program_address_of(seeds: Seq<Seq<u8>>, program_id: Seq<u8>) -> Option<(Seq<u8>, u8)>;

/// Relies on solana_program::hash::hash: the SHA-256 digest of the bytes, which
/// depends on them alone.
#[verifier::external_body]
fn sha256(data: &[u8]) -> (r: [u8; 32])
    ensures
        r@ == sha256_of(data@),
{
    anchor_lang::solana_program::hash::hash(data).to_bytes()
}

/// Relies on Pubkey::try_find_program_address: the address and bump found for
/// two seeds of 32 bytes under the program id, a function of those alone, or
/// `None` where no bump seed gives an address off the curve.
#[verifier::external_body]
fn find_program_address(seed: &[u8; 32], owner: &[u8; 32], program_id: &[u8; 32]) -> (r: Option<([u8; 32], u8)>)
    ensures
        match r {
            Some((address, bump)) => program_address_of(seq![seed@, owner@], program_id@) == Some((address@, bump)),
            None => program_address_of(seq![seed@, owner@], program_id@) is None,
        },
{
    let id = anchor_lang::prelude::Pubkey::new_from_array(*program_id);
    anchor_lang::prelude::Pubkey::try_find_program_address(&[&seed[..], &owner[..]], &id)
        .map(|(key, bump)| (key.to_bytes(), bump))
}

/// The address of the entry with this title and owner: the program address whose
/// seeds are the digest of the title's bytes and the owner's identity. Hashing the
/// title keeps every seed at 32 bytes, so titles of any length have an address.
pub open spec fn address_for(program_id: Seq<u8>, title: Seq<char>, owner: Seq<u8>) -> Option<Seq<u8>> {
    match program_address_of(seq![sha256_of(encode_utf8(title)), owner], program_id) {
        Some((address, _bump)) => Some(address),
        None => None,
    }
}

/// Derives the address of the entry with this title and owner.
pub fn derive_address(program_id: &[u8; 32], title: &str, owner: &[u8; 32]) -> (r: Option<[u8; 32]>)
    ensures
        match r {
            Some(a) => address_for(program_id@, title@, owner@) == Some(a@),
            None => address_for(program_id@, title@, owner@) is None,
        },
{
    let seed = sha256(title.as_bytes());
    match find_program_address(&seed, owner, program_id) {
        Some((address, _bump)) => Some(address),
        None => None,
    }
}

} // verus!
