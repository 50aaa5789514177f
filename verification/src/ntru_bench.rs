//! The NTRU Prime (ntrup761, `ntrulp`) block-encryption benchmark: the
//! message is cut into zero-padded blocks of the scheme's plaintext size
//! and every block is encrypted under one public key, the whole pass
//! timed. Key generation, which retries until it finds an invertible
//! polynomial, happens before, and the public key is handed in.
use vstd::prelude::*;
use std::collections::BTreeMap;
use ntrulp::ntru::cipher::static_bytes_encrypt;
use ntrulp::params::params::R3_BYTES;
use ntrulp::poly::rq::Rq;
use crate::bench::{message_blocks, record_elapsed, sample_count};
use crate::clock::instant_now;
use crate::stats::{lemma_entries_of, lists_in_order};

verus! {

#[verifier::external_type_specification]
#[verifier::external_body]
pub struct ExNtruRq(Rq);

/// Bytes of an NTRU Prime plaintext block (ntrup761: 761 coefficients in
/// {-1, 0, 1}, four to a byte).
pub const NTRU_R3_BYTES: usize = 191;

/// Bytes of an NTRU Prime ciphertext (ntrup761: 761 coefficients of two
/// bytes).
pub const NTRU_RQ_BYTES: usize = 1522;

/// Trusted: `ntrulp::ntru::cipher::static_bytes_encrypt` of one
/// plaintext block under the public key, the ciphertext as bytes. It
/// multiplies, rounds and encodes without checks that could fail, for any
/// public key; its value, which depends on the opaque key, is not stated.
#[verifier::external_body]
fn ntru_encrypt_block(block: &[u8], pub_key: &Rq) -> (r: Vec<u8>)
    requires
        block@.len() == NTRU_R3_BYTES,
    ensures
        r@.len() == NTRU_RQ_BYTES,
{
    match <&[u8; R3_BYTES]>::try_from(block) {
        Ok(b) => static_bytes_encrypt(b, pub_key).to_vec(),
        Err(_) => Vec::new(),
    }
}

/// The NTRU Prime block-encryption benchmark: `nkeys * nloops` timed
/// passes, each encrypting every block of `message` (see
/// `message_blocks`) under `pub_key`. Returns the histogram of the pass
/// times, in microseconds.
pub fn time_ntru_blocks(pub_key: &Rq, message: &[u8], nkeys: u32, nloops: u32) -> (hist: BTreeMap<u128, u32>)
    requires
        nkeys * nloops <= u32::MAX,
        message@.len() + NTRU_R3_BYTES <= usize::MAX,
    ensures
        sample_count(hist@) == nkeys * nloops,
{
    let blocks = message_blocks(message, NTRU_R3_BYTES);
    let mut hist: BTreeMap<u128, u32> = BTreeMap::new();
    proof {
        assert(lists_in_order(Map::<u128, u32>::empty(), Seq::<(u128, u32)>::empty()));
        lemma_entries_of(Map::<u128, u32>::empty(), Seq::<(u128, u32)>::empty());
    }
    let mut k: u32 = 0;
    while k < nkeys
        invariant
            k <= nkeys,
            nkeys * nloops <= u32::MAX,
            forall|i: int| 0 <= i < blocks@.len() ==> #[trigger] blocks@[i]@.len() == NTRU_R3_BYTES,
            sample_count(hist@) == k * nloops,
        decreases nkeys - k,
    {
        proof {
            assert(k * nloops + nloops <= nkeys * nloops) by (nonlinear_arith)
                requires
                    k < nkeys,
            ;
        }
        let mut j: u32 = 0;
        while j < nloops
            invariant
                j <= nloops,
                k * nloops + nloops <= nkeys * nloops,
                nkeys * nloops <= u32::MAX,
                forall|i: int| 0 <= i < blocks@.len() ==> #[trigger] blocks@[i]@.len() == NTRU_R3_BYTES,
                sample_count(hist@) == k * nloops + j,
            decreases nloops - j,
        {
            let start = instant_now();
            let mut b: usize = 0;
            while b < blocks.len()
                invariant
                    b <= blocks@.len(),
                    forall|i: int| 0 <= i < blocks@.len() ==> #[trigger] blocks@[i]@.len() == NTRU_R3_BYTES,
                decreases blocks@.len() - b,
            {
                let _ = ntru_encrypt_block(blocks[b].as_slice(), pub_key);
                b = b + 1;
            }
            record_elapsed(&mut hist, &start);
            j = j + 1;
        }
        k = k + 1;
        assert(sample_count(hist@) == k * nloops) by (nonlinear_arith)
            requires
                sample_count(hist@) == (k - 1) * nloops + nloops,
        ;
    }
    hist
}

} // verus!
