//! Derivation of the program's keyless mint authority.
//!
//! The turnstile signs privileged token operations with a program-derived
//! address: a 32-byte address computed from the mint's address (the seed)
//! and the program id, chosen so that it is *off* the ed25519 curve and can
//! therefore never have a private key. The search walks bump bytes 255 down
//! to 1 and keeps the first candidate the derivation accepts; if none is
//! accepted the search fails with `DerivationExhausted`, which callers treat
//! as fatal.

use vstd::prelude::*;
use crate::error::TurnstileError;
use crate::state::is_address;

verus! {

/// The candidate address that the ledger's derivation primitive computes
/// from a seed, a bump byte and a program id, or `None` when the candidate
/// lies on the ed25519 curve and is therefore rejected. The result is a
/// hash of the arguments alone, so the same inputs name the same candidate
/// on every call and every machine.
pub uninterp spec fn pda_of(seed: Seq<u8>, bump: u8, program_id: Seq<u8>) -> Option<Seq<u8>>;

/// Relies on solana_program's `Pubkey::create_program_address` with the two
/// seed slices `[seed, [bump]]`: it hashes the seeds, the program id and a
/// fixed domain marker, returns the hash as the derived address, and rejects
/// the candidate (`InvalidSeeds`) exactly when the hash is a valid curve
/// point. With two seeds of 32 and 1 bytes the seed-count and seed-length
/// limits cannot be hit, so no other error can come back.
#[verifier::external_body]
fn pda_candidate(seed: &Vec<u8>, bump: u8, program_id: &Vec<u8>) -> (r: Option<Vec<u8>>)
    requires
        is_address(seed@),
        is_address(program_id@),
    ensures
        r is None ==> pda_of(seed@, bump, program_id@) is None,
        r matches Some(a) ==> pda_of(seed@, bump, program_id@) == Some(a@) && is_address(a@),
{
    let pid = solana_program::pubkey::Pubkey::new_from_array(
        <[u8; 32]>::try_from(program_id.as_slice()).unwrap(),
    );
    match solana_program::pubkey::Pubkey::create_program_address(
        &[seed.as_slice(), &[bump]],
        &pid,
    ) {
        Ok(addr) => Some(addr.to_bytes().to_vec()),
        Err(_) => None,
    }
}

/// The bump search, as a function of the candidates alone: starting at
/// `bump`, walk downward and stop at the first accepted candidate; fail
/// once bump 1 has been rejected.
pub open spec fn spec_find_from(seed: Seq<u8>, program_id: Seq<u8>, bump: u8)
    -> Result<(Seq<u8>, u8), TurnstileError>
    decreases bump,
{
    match pda_of(seed, bump, program_id) {
        Some(a) => Ok((a, bump)),
        None => if bump <= 1 {
            Err(TurnstileError::DerivationExhausted)
        } else {
            spec_find_from(seed, program_id, (bump - 1) as u8)
        },
    }
}

/// What the authority derivation returns: the bump search started at 255.
pub open spec fn spec_find(seed: Seq<u8>, program_id: Seq<u8>)
    -> Result<(Seq<u8>, u8), TurnstileError>
{
    spec_find_from(seed, program_id, 255)
}

/// Finds the derived authority for a seed under a program id: the first
/// off-curve candidate at bumps 255, 254, ..., 1.
pub fn find_program_address(seed: &Vec<u8>, program_id: &Vec<u8>)
    -> (r: Result<(Vec<u8>, u8), TurnstileError>)
    requires
        is_address(seed@),
        is_address(program_id@),
    ensures
        match r {
            Ok(p) => spec_find(seed@, program_id@) == Ok::<(Seq<u8>, u8), TurnstileError>((p.0@, p.1))
                && is_address(p.0@),
            Err(e) => spec_find(seed@, program_id@) == Err::<(Seq<u8>, u8), TurnstileError>(e),
        },
{
    let mut bump: u8 = 255;
    loop
        invariant
            1 <= bump <= 255,
            is_address(seed@),
            is_address(program_id@),
            spec_find(seed@, program_id@) == spec_find_from(seed@, program_id@, bump),
        decreases bump,
    {
        match pda_candidate(seed, bump, program_id) {
            Some(addr) => {
                return Ok((addr, bump));
            },
            None => {},
        }
        if bump == 1 {
            return Err(TurnstileError::DerivationExhausted);
        }
        bump = bump - 1;
    }
}

/// Law: the derivation is reproducible. Its outcome is a function of the
/// seed and the program id alone, so two runs over the same inputs return
/// the same address and bump.
pub proof fn lemma_derivation_deterministic(
    seed: Seq<u8>,
    program_id: Seq<u8>,
    r1: Result<(Seq<u8>, u8), TurnstileError>,
    r2: Result<(Seq<u8>, u8), TurnstileError>,
)
    requires
        r1 == spec_find(seed, program_id),
        r2 == spec_find(seed, program_id),
    ensures
        r1 == r2,
{
}

/// Law: the search returns the canonical (largest viable) bump. A found
/// pair is an accepted candidate and every larger bump was rejected; an
/// exhausted search means every bump from 1 to 255 was rejected.
pub proof fn lemma_bump_canonical(seed: Seq<u8>, program_id: Seq<u8>)
    ensures
        spec_find(seed, program_id) matches Ok(p) ==>
            1 <= p.1 <= 255
            && pda_of(seed, p.1, program_id) == Some(p.0)
            && (forall|b: u8| p.1 < b ==> pda_of(seed, b, program_id) is None),
        spec_find(seed, program_id) is Err ==>
            forall|b: u8| 1 <= b ==> pda_of(seed, b, program_id) is None,
{
    lemma_find_from_props(seed, program_id, 255);
}

proof fn lemma_find_from_props(seed: Seq<u8>, program_id: Seq<u8>, start: u8)
    requires
        1 <= start,
    ensures
        spec_find_from(seed, program_id, start) matches Ok(p) ==>
            1 <= p.1 <= start
            && pda_of(seed, p.1, program_id) == Some(p.0)
            && (forall|b: u8| p.1 < b <= start ==> pda_of(seed, b, program_id) is None),
        spec_find_from(seed, program_id, start) is Err ==>
            forall|b: u8| 1 <= b <= start ==> pda_of(seed, b, program_id) is None,
    decreases start,
{
    if pda_of(seed, start, program_id) is None && start > 1 {
        lemma_find_from_props(seed, program_id, (start - 1) as u8);
    }
}

} // verus!
