//! Program-derived addresses.  The derivation itself is a hash search done
//! by the ledger SDK; this module names its result and gives the well-known
//! seeds the tip programs are addressed under.

use vstd::prelude::*;
use crate::keys::Pubkey;
use crate::net::text_bytes;

verus! {

/// The address and bump that the ledger SDK derives from these seeds under
/// this program, when a valid bump exists.  The derivation depends on the
/// seeds and the program id alone.
pub uninterp spec fn program_address_of(seeds: Seq<Seq<u8>>, program_id: Seq<u8>) -> Option<
    (Seq<u8>, u8),
>;

/// Relies on solana_sdk's `Pubkey::try_find_program_address`: the derived
/// address is a pure function of the seeds and the program id; `None` when
/// the search yields no valid address (no workable bump, too many seeds, or
/// an over-long seed).
#[verifier::external_body]
pub fn find_program_address(seeds: &Vec<Vec<u8>>, program_id: &Pubkey) -> (r: Option<(Pubkey, u8)>)
    requires
        program_id.wf(),
    ensures
        r is Some <==> program_address_of(
            seeds@.map_values(|s: Vec<u8>| s@),
            program_id@,
        ) is Some,
        r matches Some(p) ==> program_address_of(seeds@.map_values(|s: Vec<u8>| s@), program_id@)
            == Some((p.0@, p.1)) && p.0.wf(),
{
    let pid = solana_sdk::pubkey::Pubkey::new_from_array(
        program_id.bytes.as_slice().try_into().unwrap(),
    );
    let seed_slices: Vec<&[u8]> = seeds.iter().map(|s| s.as_slice()).collect();
    solana_sdk::pubkey::Pubkey::try_find_program_address(&seed_slices, &pid).map(
        |(key, bump)| (Pubkey { bytes: key.to_bytes().to_vec() }, bump),
    )
}

/// The seed of the singleton config account, in both tip programs.
pub open spec fn seed_config() -> Seq<u8> {
    text_bytes("CONFIG_ACCOUNT"@)
}

/// The seed of tip account `k` (eight of them, `0` through `7`).
pub open spec fn seed_tip_account(k: u8) -> Seq<u8> {
    text_bytes("TIP_ACCOUNT_"@) + seq![(48 + k) as u8]
}

/// The leading seed of a validator's per-epoch tip-distribution account.
pub open spec fn seed_tip_distribution() -> Seq<u8> {
    text_bytes("TIP_DISTRIBUTION_ACCOUNT"@)
}

/// The epoch as it enters the derivation: eight little-endian bytes.
pub open spec fn le8(x: u64) -> Seq<u8> {
    Seq::new(8, |i: int| ((x as int / crate::layout::pow256(i as nat)) % 256) as u8)
}

/// Builds the byte string of an ASCII seed.
fn ascii_seed(s: &str) -> (r: Vec<u8>)
    ensures
        r@ == text_bytes(s@),
{
    let slice = s.as_bytes();
    let n = slice.len();
    let mut r: Vec<u8> = Vec::new();
    let mut i: usize = 0;
    while i < n
        invariant
            i <= n,
            n == slice@.len(),
            r@.len() == i,
            forall|j: int| 0 <= j < i ==> r@[j] == slice@[j],
        decreases n - i,
    {
        r.push(slice[i]);
        i += 1;
    }
    assert(r@ =~= slice@);
    r
}

/// The seed vector `[CONFIG_ACCOUNT]`.
pub fn config_seeds() -> (r: Vec<Vec<u8>>)
    ensures
        r@.map_values(|s: Vec<u8>| s@) =~= seq![seed_config()],
{
    let mut r: Vec<Vec<u8>> = Vec::new();
    r.push(ascii_seed("CONFIG_ACCOUNT"));
    r
}

/// The seed vector `[TIP_ACCOUNT_k]` for `k` in `0..8`.
pub fn tip_account_seeds(k: u8) -> (r: Vec<Vec<u8>>)
    requires
        k < 10,
    ensures
        r@.map_values(|s: Vec<u8>| s@) =~= seq![seed_tip_account(k)],
{
    let mut seed = ascii_seed("TIP_ACCOUNT_");
    seed.push(48 + k);
    assert(seed@ =~= seed_tip_account(k));
    let mut r: Vec<Vec<u8>> = Vec::new();
    r.push(seed);
    r
}

/// Little-endian bytes of a `u64`.
pub fn u64_le_bytes(x: u64) -> (r: Vec<u8>)
    ensures
        r@ =~= le8(x),
{
    let mut r: Vec<u8> = Vec::new();
    let mut v: u64 = x;
    let mut i: usize = 0;
    while i < 8
        invariant
            i <= 8,
            r@.len() == i,
            v == x as int / crate::layout::pow256(i as nat),
            forall|j: int| 0 <= j < i ==> r@[j] == le8(x)[j],
        decreases 8 - i,
    {
        proof {
            crate::layout::lemma_pow256_next(i as nat);
            crate::layout::lemma_pow256_pos(i as nat);
            vstd::arithmetic::div_mod::lemma_div_denominator(
                x as int,
                crate::layout::pow256(i as nat),
                256,
            );
        }
        r.push((v % 256) as u8);
        v = v / 256;
        i += 1;
    }
    r
}

/// The seed vector of a validator's tip-distribution account for an epoch:
/// `[TIP_DISTRIBUTION_ACCOUNT, vote_account, epoch_le]`.
pub fn tip_distribution_seeds(vote_account: &Pubkey, epoch: u64) -> (r: Vec<Vec<u8>>)
    ensures
        r@.map_values(|s: Vec<u8>| s@) =~= seq![seed_tip_distribution(), vote_account@, le8(epoch)],
{
    let mut r: Vec<Vec<u8>> = Vec::new();
    r.push(ascii_seed("TIP_DISTRIBUTION_ACCOUNT"));
    r.push(vote_account.clone().bytes);
    r.push(u64_le_bytes(epoch));
    r
}

/// The derivation of a tip-distribution account, as a single name.
pub open spec fn spec_tip_distribution_pda(
    program_id: Seq<u8>,
    vote_account: Seq<u8>,
    epoch: u64,
) -> Option<(Seq<u8>, u8)> {
    program_address_of(
        seq![seed_tip_distribution(), vote_account, le8(epoch)],
        program_id,
    )
}

/// Derives a validator's tip-distribution account for an epoch.
pub fn derive_tip_distribution_account_address(
    tip_distribution_program_id: &Pubkey,
    vote_account: &Pubkey,
    epoch: u64,
) -> (r: Option<(Pubkey, u8)>)
    requires
        tip_distribution_program_id.wf(),
    ensures
        r is Some <==> spec_tip_distribution_pda(
            tip_distribution_program_id@,
            vote_account@,
            epoch,
        ) is Some,
        r matches Some(p) ==> spec_tip_distribution_pda(
            tip_distribution_program_id@,
            vote_account@,
            epoch,
        ) == Some((p.0@, p.1)) && p.0.wf(),
{
    let seeds = tip_distribution_seeds(vote_account, epoch);
    find_program_address(&seeds, tip_distribution_program_id)
}

} // verus!
