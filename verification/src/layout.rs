//! The on-chain account layouts the generator reads: little-endian integers
//! behind an eight-byte type tag, addresses as raw 32-byte fields.

use vstd::prelude::*;
use crate::keys::{Pubkey, PUBKEY_BYTES};

verus! {

/// Bytes of type tag in front of every program account.
pub const ACCOUNT_TAG_BYTES: usize = 8;

/// The value of a little-endian byte string.
pub open spec fn le_val(s: Seq<u8>) -> int
    decreases s.len(),
{
    if s.len() == 0 {
        0
    } else {
        s[0] + 256 * le_val(s.drop_first())
    }
}

/// Reads a little-endian `u16` at `at`.
pub fn read_u16_le(bytes: &Vec<u8>, at: usize) -> (r: u16)
    requires
        at + 2 <= bytes@.len(),
    ensures
        r == le_val(bytes@.subrange(at as int, at + 2)),
{
    let n = bytes.len();
    let b0 = bytes[at];
    let b1 = bytes[at + 1];
    let r: u16 = b0 as u16 + 256 * (b1 as u16);
    proof {
        let s = bytes@.subrange(at as int, at + 2);
        let s1 = s.drop_first();
        assert(s1 =~= bytes@.subrange(at + 1, at + 2));
        assert(s1.drop_first() =~= Seq::<u8>::empty());
        assert(le_val(s1.drop_first()) == 0);
        assert(le_val(s1) == s1[0] + 256 * le_val(s1.drop_first()));
        assert(le_val(s) == s[0] + 256 * le_val(s1));
    }
    r
}

/// Reads a little-endian `u64` at `at`.
pub fn read_u64_le(bytes: &Vec<u8>, at: usize) -> (r: u64)
    requires
        at + 8 <= bytes@.len(),
    ensures
        r == le_val(bytes@.subrange(at as int, at + 8)),
{
    let n = bytes.len();
    let v7: u64 = bytes[at + 7] as u64;
    let v6: u64 = bytes[at + 6] as u64 + 256 * v7;
    let v5: u64 = bytes[at + 5] as u64 + 256 * v6;
    let v4: u64 = bytes[at + 4] as u64 + 256 * v5;
    let v3: u64 = bytes[at + 3] as u64 + 256 * v4;
    let v2: u64 = bytes[at + 2] as u64 + 256 * v3;
    let v1: u64 = bytes[at + 1] as u64 + 256 * v2;
    let v0: u64 = bytes[at] as u64 + 256 * v1;
    proof {
        let a = at as int;
        let s0 = bytes@.subrange(a, a + 8);
        let s1 = bytes@.subrange(a + 1, a + 8);
        let s2 = bytes@.subrange(a + 2, a + 8);
        let s3 = bytes@.subrange(a + 3, a + 8);
        let s4 = bytes@.subrange(a + 4, a + 8);
        let s5 = bytes@.subrange(a + 5, a + 8);
        let s6 = bytes@.subrange(a + 6, a + 8);
        let s7 = bytes@.subrange(a + 7, a + 8);
        assert(s7.drop_first() =~= Seq::<u8>::empty());
        assert(le_val(s7) == s7[0] + 256 * le_val(s7.drop_first()));
        assert(s6.drop_first() =~= s7);
        assert(le_val(s6) == s6[0] + 256 * le_val(s7));
        assert(s5.drop_first() =~= s6);
        assert(le_val(s5) == s5[0] + 256 * le_val(s6));
        assert(s4.drop_first() =~= s5);
        assert(le_val(s4) == s4[0] + 256 * le_val(s5));
        assert(s3.drop_first() =~= s4);
        assert(le_val(s3) == s3[0] + 256 * le_val(s4));
        assert(s2.drop_first() =~= s3);
        assert(le_val(s2) == s2[0] + 256 * le_val(s3));
        assert(s1.drop_first() =~= s2);
        assert(le_val(s1) == s1[0] + 256 * le_val(s2));
        assert(s0.drop_first() =~= s1);
        assert(le_val(s0) == s0[0] + 256 * le_val(s1));
    }
    v0
}

/// 256 to the `n`.
pub open spec fn pow256(n: nat) -> int
    decreases n,
{
    if n == 0 {
        1
    } else {
        256 * pow256((n - 1) as nat)
    }
}

/// One more byte multiplies the base power by 256.
pub proof fn lemma_pow256_next(n: nat)
    ensures
        pow256(n + 1) == 256 * pow256(n),
        pow256(n) * 256 == pow256(n + 1),
{
}

/// Base powers are positive.
pub proof fn lemma_pow256_pos(n: nat)
    ensures
        pow256(n) >= 1,
    decreases n,
{
    if n > 0 {
        lemma_pow256_pos((n - 1) as nat);
    }
}

/// A little-endian byte string reads below 256 to its length.
pub proof fn lemma_le_val_bound(s: Seq<u8>)
    ensures
        0 <= le_val(s) < pow256(s.len()),
    decreases s.len(),
{
    if s.len() == 0 {
    } else {
        lemma_le_val_bound(s.drop_first());
        assert(le_val(s) == s[0] + 256 * le_val(s.drop_first()));
        assert(256 * le_val(s.drop_first()) <= 256 * (pow256((s.len() - 1) as nat) - 1))
            by (nonlinear_arith)
            requires
                le_val(s.drop_first()) <= pow256((s.len() - 1) as nat) - 1,
        ;
    }
}

/// Copies `bytes[from..to]` out.
pub fn copy_range(bytes: &Vec<u8>, from: usize, to: usize) -> (r: Vec<u8>)
    requires
        from <= to <= bytes@.len(),
    ensures
        r@ == bytes@.subrange(from as int, to as int),
{
    let mut r: Vec<u8> = Vec::new();
    let mut i: usize = from;
    while i < to
        invariant
            from <= i <= to <= bytes@.len(),
            r@.len() == i - from,
            forall|j: int| 0 <= j < r@.len() ==> r@[j] == bytes@[from + j],
        decreases to - i,
    {
        r.push(bytes[i]);
        i += 1;
    }
    assert(r@ =~= bytes@.subrange(from as int, to as int));
    r
}

/// Reads the 32-byte address at `at`.
pub fn read_pubkey(bytes: &Vec<u8>, at: usize) -> (r: Pubkey)
    requires
        at + PUBKEY_BYTES <= bytes@.len(),
    ensures
        r@ == bytes@.subrange(at as int, at + PUBKEY_BYTES),
        r.wf(),
{
    let n = bytes.len();
    let bytes = copy_range(bytes, at, at + PUBKEY_BYTES);
    match Pubkey::from_bytes(bytes) {
        Some(p) => p,
        None => {
            proof {
                assert(false);
            }
            Pubkey::zeroed()
        },
    }
}

/// The tip-payment program's config account, reduced to what is read of it.
pub struct TipPaymentConfig {
    /// The account tips are periodically drained to.
    pub tip_receiver: Pubkey,
}

/// Where the receiver field sits in the config account: right after the tag.
pub open spec fn spec_config_receiver(data: Seq<u8>) -> Option<Seq<u8>> {
    if data.len() >= ACCOUNT_TAG_BYTES + PUBKEY_BYTES {
        Some(data.subrange(ACCOUNT_TAG_BYTES as int, ACCOUNT_TAG_BYTES + PUBKEY_BYTES))
    } else {
        None
    }
}

/// Parses the tip-payment config account: an eight-byte tag, then the
/// receiver address.  Data too short to hold them is rejected.
pub fn parse_tip_payment_config(data: &Vec<u8>) -> (r: Option<TipPaymentConfig>)
    ensures
        match r {
            Some(c) => spec_config_receiver(data@) == Some(c.tip_receiver@) && c.tip_receiver.wf(),
            None => spec_config_receiver(data@) is None,
        },
{
    if data.len() < ACCOUNT_TAG_BYTES + PUBKEY_BYTES {
        return None;
    }
    Some(TipPaymentConfig { tip_receiver: read_pubkey(data, ACCOUNT_TAG_BYTES) })
}

/// A tip-distribution account, reduced to what the generator reads of it.
pub struct TipDistributionAccountData {
    pub validator_vote_account: Pubkey,
    pub merkle_root_upload_authority: Pubkey,
    pub merkle_root_present: bool,
    pub epoch_created_at: u64,
    pub validator_commission_bps: u16,
}

/// Bytes of an uploaded merkle root record: the root hash and four counters.
pub const MERKLE_ROOT_BYTES: usize = 64;

/// Whether the data is long enough for its merkle-root tag.
pub open spec fn spec_tda_well_formed(data: Seq<u8>) -> bool {
    let tag_end = ACCOUNT_TAG_BYTES + 2 * PUBKEY_BYTES + 1;
    &&& data.len() >= tag_end
    &&& (data[tag_end - 1] == 0 || data[tag_end - 1] == 1)
    &&& data.len() >= tag_end + (if data[tag_end - 1] == 1 {
        MERKLE_ROOT_BYTES as int
    } else {
        0
    }) + 10
}

/// The offset of the fields behind the optional merkle root.
pub open spec fn spec_tda_tail(data: Seq<u8>) -> int {
    ACCOUNT_TAG_BYTES + 2 * PUBKEY_BYTES + 1 + (if data[
        ACCOUNT_TAG_BYTES + 2 * PUBKEY_BYTES as int
    ] == 1 {
        MERKLE_ROOT_BYTES as int
    } else {
        0
    })
}

/// Parses a tip-distribution account: an eight-byte tag, the vote account,
/// the root-upload authority, an optional merkle-root record behind a
/// one-byte marker, then the creation epoch and the commission.  Data that
/// is too short or has a marker other than zero or one is rejected.
pub fn parse_tip_distribution_account(data: &Vec<u8>) -> (r: Option<TipDistributionAccountData>)
    ensures
        r is Some <==> spec_tda_well_formed(data@),
        r matches Some(t) ==> {
            &&& t.validator_vote_account@ == data@.subrange(
                ACCOUNT_TAG_BYTES as int,
                ACCOUNT_TAG_BYTES + PUBKEY_BYTES,
            )
            &&& t.merkle_root_upload_authority@ == data@.subrange(
                ACCOUNT_TAG_BYTES + PUBKEY_BYTES as int,
                ACCOUNT_TAG_BYTES + 2 * PUBKEY_BYTES,
            )
            &&& t.merkle_root_present == (data@[ACCOUNT_TAG_BYTES + 2 * PUBKEY_BYTES as int] == 1)
            &&& t.epoch_created_at == le_val(
                data@.subrange(spec_tda_tail(data@), spec_tda_tail(data@) + 8),
            )
            &&& t.validator_commission_bps == le_val(
                data@.subrange(spec_tda_tail(data@) + 8, spec_tda_tail(data@) + 10),
            )
            &&& t.validator_vote_account.wf()
            &&& t.merkle_root_upload_authority.wf()
        },
{
    let tag_end = ACCOUNT_TAG_BYTES + 2 * PUBKEY_BYTES + 1;
    if data.len() < tag_end {
        return None;
    }
    let marker = data[tag_end - 1];
    if marker > 1 {
        return None;
    }
    let tail: usize = if marker == 1 {
        tag_end + MERKLE_ROOT_BYTES
    } else {
        tag_end
    };
    if data.len() < tail + 10 {
        return None;
    }
    Some(
        TipDistributionAccountData {
            validator_vote_account: read_pubkey(data, ACCOUNT_TAG_BYTES),
            merkle_root_upload_authority: read_pubkey(data, ACCOUNT_TAG_BYTES + PUBKEY_BYTES),
            merkle_root_present: marker == 1,
            epoch_created_at: read_u64_le(data, tail),
            validator_commission_bps: read_u16_le(data, tail + 8),
        },
    )
}

} // verus!
