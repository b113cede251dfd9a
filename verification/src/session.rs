//! The session cores: what the server computes for an enrollment and for a
//! verification, between the boundary reads and writes. Everything here is
//! pure computation over values the boundary hands in: deserialization,
//! storage and transport stay outside.

use vstd::prelude::*;

verus! {

use vstd::arithmetic::power2::*;
use crate::fhe::{EBool, FheEvalKey, ebool_values, all_pair};
use crate::trivium_fhe::decrypt_homomorphic;
use crate::matching_fhe::{diff_bits, popcount, leq_constant};
use crate::bits::{
    bytes_to_bools,
    bools_to_bytes,
    unpack_bytes,
    pack_bits,
    hamming,
    xor_bits,
    bits_value,
    bit_width,
    lemma_bit_width_bound,
    lemma_bit_width_le,
};
use crate::trivium::trivium_keystream;
use crate::database::{Database, TemplateEntry};
use crate::protocol::RegisterResponse;

/// Why a verify session was rejected at the boundary.
#[derive(Clone, Copy, Debug, PartialEq, Eq, Structural)]
pub enum SessionError {
    /// An encrypted Trivium key is not 80 ciphertexts long.
    KeyLength,
    /// An encrypted Trivium IV is not 80 ciphertexts long.
    IvLength,
    /// Enrolled and probe ciphertexts differ in width.
    CiphertextMismatch,
    /// The threshold exceeds the feature width.
    ThresholdRange,
}

/// The boundary checks a verify session makes, in order; `None` means the
/// session runs.
pub open spec fn session_validation(
    e_key_len: nat,
    e_iv_len: nat,
    p_key_len: nat,
    p_iv_len: nat,
    n_enrolled: nat,
    n_probe: nat,
    threshold: nat,
) -> Option<SessionError> {
    if e_key_len != 80 || p_key_len != 80 {
        Some(SessionError::KeyLength)
    } else if e_iv_len != 80 || p_iv_len != 80 {
        Some(SessionError::IvLength)
    } else if n_enrolled != n_probe {
        Some(SessionError::CiphertextMismatch)
    } else if threshold > n_probe {
        Some(SessionError::ThresholdRange)
    } else {
        None
    }
}

/// The Hamming distance a session measures: each side is its public Trivium
/// ciphertext XORed with the keystream of its own key and IV — the enrolled
/// and probe plaintexts the client encrypted.
pub open spec fn session_distance(
    e_ct: Seq<bool>,
    e_key: Seq<bool>,
    e_iv: Seq<bool>,
    p_ct: Seq<bool>,
    p_key: Seq<bool>,
    p_iv: Seq<bool>,
) -> nat {
    hamming(
        xor_bits(e_ct, trivium_keystream(e_key, e_iv, e_ct.len())),
        xor_bits(p_ct, trivium_keystream(p_key, p_iv, p_ct.len())),
    )
}

/// A session's distance and verdict are functions of its own template and
/// request alone — no state shared between sessions enters them. Two
/// verifications given equal inputs, run concurrently under distinct
/// evaluation keys or one after the other, therefore decrypt to equal
/// results.
pub proof fn lemma_sessions_independent(
    e_ct1: Seq<bool>,
    e_key1: Seq<bool>,
    e_iv1: Seq<bool>,
    p_ct1: Seq<bool>,
    p_key1: Seq<bool>,
    p_iv1: Seq<bool>,
    t1: nat,
    e_ct2: Seq<bool>,
    e_key2: Seq<bool>,
    e_iv2: Seq<bool>,
    p_ct2: Seq<bool>,
    p_key2: Seq<bool>,
    p_iv2: Seq<bool>,
    t2: nat,
)
    requires
        e_ct1 == e_ct2,
        e_key1 == e_key2,
        e_iv1 == e_iv2,
        p_ct1 == p_ct2,
        p_key1 == p_key2,
        p_iv1 == p_iv2,
        t1 == t2,
    ensures
        session_distance(e_ct1, e_key1, e_iv1, p_ct1, p_key1, p_iv1) == session_distance(
            e_ct2,
            e_key2,
            e_iv2,
            p_ct2,
            p_key2,
            p_iv2,
        ),
        (session_distance(e_ct1, e_key1, e_iv1, p_ct1, p_key1, p_iv1) <= t1) == (session_distance(
            e_ct2,
            e_key2,
            e_iv2,
            p_ct2,
            p_key2,
            p_iv2,
        ) <= t2),
{
}

/// Enrolls (or re-enrolls) a user: packs the public Trivium ciphertext into
/// bytes, stores it with the encrypted key and IV, and reports success.
pub fn register_user(
    db: &mut Database,
    user_id: String,
    ciphertext: Vec<bool>,
    encrypted_key_bytes: Vec<u8>,
    encrypted_iv_bytes: Vec<u8>,
) -> (resp: RegisterResponse)
    requires
        old(db).wf(),
    ensures
        final(db).wf(),
        final(db).lookup(user_id@) matches Some(e) && e.user_id@ == user_id@ && e.ciphertext@
            == pack_bits(ciphertext@) && e.encrypted_key_bytes == encrypted_key_bytes
            && e.encrypted_iv_bytes == encrypted_iv_bytes,
        forall|uid: Seq<char>| uid != user_id@ ==> final(db).lookup(uid) == old(db).lookup(uid),
        resp.success == true,
        resp.user_id@ == user_id@,
        resp.message@ == "Fingerprint registered successfully"@,
{
    let packed = bools_to_bytes(ciphertext.as_slice());
    let entry = TemplateEntry::new(
        user_id.clone(),
        packed,
        encrypted_key_bytes,
        encrypted_iv_bytes,
    );
    db.insert(entry);
    RegisterResponse::success(user_id)
}

/// Verifies a probe against an enrolled template, entirely under FHE: both
/// ciphertexts are transciphered to encrypted plaintext bits, the Hamming
/// distance is accumulated, and the verdict `distance <= threshold` is
/// computed homomorphically. Returns the encrypted verdict and the encrypted
/// LSB-first distance counter, or says which boundary check failed.
pub fn verify_session(
    enrolled: &TemplateEntry,
    probe_ciphertext: &[bool],
    enrolled_key: &[EBool],
    enrolled_iv: &[EBool],
    probe_key: &[EBool],
    probe_iv: &[EBool],
    encrypted_true: &EBool,
    threshold: usize,
    eval_key: &FheEvalKey,
) -> (r: Result<(EBool, Vec<EBool>), SessionError>)
    requires
        all_pair(enrolled_key@, eval_key.pair()),
        all_pair(enrolled_iv@, eval_key.pair()),
        all_pair(probe_key@, eval_key.pair()),
        all_pair(probe_iv@, eval_key.pair()),
        encrypted_true.pair() == eval_key.pair(),
        encrypted_true.value(),
        probe_ciphertext@.len() < pow2((usize::BITS - 1) as nat),
    ensures
        (match r {
            Ok(_) => session_validation(
                enrolled_key@.len(),
                enrolled_iv@.len(),
                probe_key@.len(),
                probe_iv@.len(),
                8 * enrolled.ciphertext@.len(),
                probe_ciphertext@.len(),
                threshold as nat,
            ) is None,
            Err(e) => session_validation(
                enrolled_key@.len(),
                enrolled_iv@.len(),
                probe_key@.len(),
                probe_iv@.len(),
                8 * enrolled.ciphertext@.len(),
                probe_ciphertext@.len(),
                threshold as nat,
            ) == Some(e),
        }),
        r matches Ok((m, dist)) ==> ({
            let d = session_distance(
                unpack_bytes(enrolled.ciphertext@),
                ebool_values(enrolled_key@),
                ebool_values(enrolled_iv@),
                probe_ciphertext@,
                ebool_values(probe_key@),
                ebool_values(probe_iv@),
            );
            &&& dist@.len() == bit_width(probe_ciphertext@.len())
            &&& bits_value(ebool_values(dist@)) == d
            &&& all_pair(dist@, eval_key.pair())
            &&& m.value() == (d <= threshold as nat)
            &&& m.pair() == eval_key.pair()
        }),
{
    if enrolled_key.len() != 80 || probe_key.len() != 80 {
        return Err(SessionError::KeyLength);
    }
    if enrolled_iv.len() != 80 || probe_iv.len() != 80 {
        return Err(SessionError::IvLength);
    }
    let enrolled_bits = bytes_to_bools(enrolled.ciphertext.as_slice());
    if enrolled_bits.len() != probe_ciphertext.len() {
        return Err(SessionError::CiphertextMismatch);
    }
    if threshold > probe_ciphertext.len() {
        return Err(SessionError::ThresholdRange);
    }
    let plain_enrolled = decrypt_homomorphic(
        enrolled_bits.as_slice(),
        enrolled_key,
        enrolled_iv,
        encrypted_true,
        eval_key,
    );
    let plain_probe = decrypt_homomorphic(
        probe_ciphertext,
        probe_key,
        probe_iv,
        encrypted_true,
        eval_key,
    );
    let diff = diff_bits(plain_enrolled.as_slice(), plain_probe.as_slice(), eval_key);
    let distance = popcount(diff.as_slice(), encrypted_true, eval_key);
    proof {
        lemma_bit_width_bound(probe_ciphertext@.len());
        lemma_bit_width_le(probe_ciphertext@.len(), (usize::BITS - 1) as nat);
    }
    let verdict = leq_constant(distance.as_slice(), threshold, encrypted_true, eval_key);
    Ok((verdict, distance))
}

} // verus!
