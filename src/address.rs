//! Deterministic addresses for the records of the ledger.
//!
//! A record's address is the program derived address of a fixed namespace tag
//! followed by the record's key parts, under the ledger's program id.
use vstd::prelude::*;

use crate::error::VotingError;

verus! {

/// The program derived address, with its bump seed, that Solana's
/// `Pubkey::try_find_program_address` finds for `seeds` under `program_id`;
/// `None` where it finds none.
pub uninterp spec fn program_address(seeds: Seq<Seq<u8>>, program_id: Seq<u8>) -> Option<(Seq<u8>, u8)>;

/// The most seeds a derivation may take: the runtime allows sixteen, one of
/// which is the bump seed.
pub const MAX_SEEDS: usize = 15;

/// The longest seed the runtime accepts, in bytes.
pub const MAX_SEED_LEN: usize = 32;

/// The bytes of each seed.
pub open spec fn seeds_view(seeds: Seq<Vec<u8>>) -> Seq<Seq<u8>> {
    seeds.map_values(|s: Vec<u8>| s@)
}

/// A found address and bump seed, as plain values.
pub open spec fn found_view(r: Option<([u8; 32], u8)>) -> Option<(Seq<u8>, u8)> {
    match r {
        Some(p) => Some((p.0@, p.1)),
        None => None,
    }
}

/// More seeds, or a longer seed, than a derivation accepts.
pub open spec fn seeds_too_long(seeds: Seq<Seq<u8>>) -> bool {
    seeds.len() > MAX_SEEDS || exists|i: int| 0 <= i < seeds.len() && #[trigger] seeds[i].len() > MAX_SEED_LEN
}

/// Relies on `Pubkey::try_find_program_address` (solana-program, re-exported
/// by anchor-lang): a deterministic search for an off-curve address, which
/// gives up on more than sixteen seeds (bump included) or a seed over 32 bytes.
#[verifier::external_body]
fn try_find_program_address(seeds: &Vec<Vec<u8>>, program_id: &[u8; 32]) -> (r: Option<([u8; 32], u8)>)
    ensures
        found_view(r) == program_address(seeds_view(seeds@), program_id@),
        seeds_too_long(seeds_view(seeds@)) ==> r.is_none(),
{
    let program = anchor_lang::prelude::Pubkey::new_from_array(*program_id);
    let parts: Vec<&[u8]> = seeds.iter().map(|s| s.as_slice()).collect();
    anchor_lang::prelude::Pubkey::try_find_program_address(&parts, &program).map(|(k, b)| (k.to_bytes(), b))
}

/// The little-endian encoding of `x` in `n` bytes.
pub open spec fn le_bytes_n(x: nat, n: nat) -> Seq<u8>
    decreases n,
{
    if n == 0 {
        Seq::empty()
    } else {
        seq![(x % 256) as u8] + le_bytes_n(x / 256, (n - 1) as nat)
    }
}

/// The eight-byte little-endian encoding of a `u64`.
pub open spec fn le_bytes(x: u64) -> Seq<u8> {
    le_bytes_n(x as nat, 8)
}

/// The eight little-endian bytes of `x`.
pub fn u64_le_bytes(x: u64) -> (r: Vec<u8>)
    ensures
        r@ == le_bytes(x),
{
    let mut out: Vec<u8> = Vec::new();
    let mut rest: u64 = x;
    let mut i: usize = 0;
    while i < 8
        invariant
            i <= 8,
            out@ + le_bytes_n(rest as nat, (8 - i) as nat) == le_bytes(x),
        decreases 8 - i,
    {
        let ghost before = out@;
        assert(le_bytes_n(rest as nat, (8 - i) as nat) == seq![(rest as nat % 256) as u8] + le_bytes_n(
            rest as nat / 256,
            (8 - i - 1) as nat,
        ));
        out.push((rest % 256) as u8);
        rest = rest / 256;
        i = i + 1;
        assert(before + (seq![out@.last()] + le_bytes_n(rest as nat, (8 - i) as nat)) == out@ + le_bytes_n(
            rest as nat,
            (8 - i) as nat,
        ));
    }
    assert(le_bytes_n(rest as nat, 0) == Seq::<u8>::empty());
    assert(out@ + Seq::<u8>::empty() == out@);
    out
}

/// The bytes of a 32-byte key, as a vector.
pub fn key_bytes(k: &[u8; 32]) -> (r: Vec<u8>)
    ensures
        r@ == k@,
{
    let mut out: Vec<u8> = Vec::new();
    let mut i: usize = 0;
    while i < 32
        invariant
            i <= 32,
            out@ == k@.subrange(0, i as int),
        decreases 32 - i,
    {
        out.push(k[i]);
        i = i + 1;
        assert(out@ == k@.subrange(0, i as int));
    }
    assert(k@.subrange(0, 32) == k@);
    out
}

/// Whether two 32-byte keys are equal.
pub fn same_key(a: &[u8; 32], b: &[u8; 32]) -> (r: bool)
    ensures
        r == (a@ == b@),
{
    let mut i: usize = 0;
    while i < 32
        invariant
            i <= 32,
            a@.subrange(0, i as int) == b@.subrange(0, i as int),
        decreases 32 - i,
    {
        if a[i] != b[i] {
            assert(a@[i as int] != b@[i as int]);
            return false;
        }
        i = i + 1;
        assert(a@.subrange(0, i as int) == b@.subrange(0, i as int));
    }
    assert(a@.subrange(0, 32) == a@);
    assert(b@.subrange(0, 32) == b@);
    true
}

/// The namespace tag of topic records: the bytes of "voting".
pub open spec fn voting_tag() -> Seq<u8> {
    seq![118u8, 111u8, 116u8, 105u8, 110u8, 103u8]
}

/// The namespace tag of vote records: the bytes of "vote".
pub open spec fn vote_tag() -> Seq<u8> {
    seq![118u8, 111u8, 116u8, 101u8]
}

/// The seeds of the topic identified by `company_id` and `voting_id`.
pub open spec fn voting_seeds(company_id: u64, voting_id: u64) -> Seq<Seq<u8>> {
    seq![voting_tag(), le_bytes(company_id), le_bytes(voting_id)]
}

/// The seeds of the vote of `voter` on the topic stored at `voting`.
pub open spec fn vote_seeds(voting: Seq<u8>, voter: Seq<u8>) -> Seq<Seq<u8>> {
    seq![vote_tag(), voting, voter]
}

/// What a derivation returns for the found address `found`.
pub open spec fn derived(found: Option<(Seq<u8>, u8)>, r: Result<([u8; 32], u8), VotingError>) -> bool {
    match found {
        Some(p) => r is Ok && r->Ok_0.0@ == p.0 && r->Ok_0.1 == p.1,
        None => r == Err::<([u8; 32], u8), VotingError>(VotingError::MalformedKey),
    }
}

fn find_address(seeds: &Vec<Vec<u8>>, program_id: &[u8; 32]) -> (r: Result<([u8; 32], u8), VotingError>)
    ensures
        derived(program_address(seeds_view(seeds@), program_id@), r),
{
    match try_find_program_address(seeds, program_id) {
        Some(p) => Ok(p),
        None => Err(VotingError::MalformedKey),
    }
}

/// The address, and bump seed, of the topic identified by `company_id` and
/// `voting_id` under `program_id`.
pub fn derive_voting_address(program_id: &[u8; 32], company_id: u64, voting_id: u64) -> (r: Result<([u8; 32], u8), VotingError>)
    ensures
        derived(program_address(voting_seeds(company_id, voting_id), program_id@), r),
{
    let mut seeds: Vec<Vec<u8>> = Vec::new();
    seeds.push(vec![118u8, 111u8, 116u8, 105u8, 110u8, 103u8]);
    seeds.push(u64_le_bytes(company_id));
    seeds.push(u64_le_bytes(voting_id));
    assert(seeds_view(seeds@) == voting_seeds(company_id, voting_id));
    find_address(&seeds, program_id)
}

/// The address, and bump seed, of the vote of `voter` on the topic stored at
/// `voting`, under `program_id`.
pub fn derive_vote_address(program_id: &[u8; 32], voting: &[u8; 32], voter: &[u8; 32]) -> (r: Result<([u8; 32], u8), VotingError>)
    ensures
        derived(program_address(vote_seeds(voting@, voter@), program_id@), r),
{
    let mut seeds: Vec<Vec<u8>> = Vec::new();
    seeds.push(vec![118u8, 111u8, 116u8, 101u8]);
    seeds.push(key_bytes(voting));
    seeds.push(key_bytes(voter));
    assert(seeds_view(seeds@) == vote_seeds(voting@, voter@));
    find_address(&seeds, program_id)
}

} // verus!
