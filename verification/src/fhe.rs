//! The homomorphic boolean gate layer.
//!
//! `EBool` couples an opaque boolean ciphertext of the outside FHE library
//! with a ghost model of it: the boolean it decrypts to under its key pair,
//! and an abstract identity of that key pair. Every gate contract is stated
//! over the model; the gates themselves are performed by `tfhe`'s boolean
//! engine and are trusted to be plaintext-homomorphic, which is exactly what
//! that library documents.
//!
//! The ghost pair identity stands for the key material itself: two values
//! carry the same identity only if they belong to the same generated key
//! pair, and a gate may only combine ciphertexts of the pair whose
//! evaluation key it is given (mixing pairs has no defined result and can
//! abort inside the outside library).

use vstd::prelude::*;

verus! {

use tfhe::boolean::server_key::BinaryBooleanGates;

#[verifier::external_type_specification]
#[verifier::external_body]
pub struct ExCiphertext(tfhe::boolean::ciphertext::Ciphertext);

#[verifier::external_type_specification]
#[verifier::external_body]
pub struct ExClientKey(tfhe::boolean::client_key::ClientKey);

#[verifier::external_type_specification]
#[verifier::external_body]
pub struct ExServerKey(tfhe::boolean::server_key::ServerKey);

/// An encrypted boolean: one `tfhe` boolean ciphertext together with its
/// ghost plaintext and the ghost identity of the key pair it belongs to.
pub struct EBool {
    inner: tfhe::boolean::ciphertext::Ciphertext,
    plain: Ghost<bool>,
    pair: Ghost<nat>,
}

/// The client (secret) key of one key pair; it alone can encrypt and
/// decrypt.
pub struct FheClientKey {
    inner: tfhe::boolean::client_key::ClientKey,
    pair: Ghost<nat>,
}

/// The evaluation (server) key of one key pair; it performs gates but
/// cannot decrypt.
pub struct FheEvalKey {
    inner: tfhe::boolean::server_key::ServerKey,
    pair: Ghost<nat>,
}

impl EBool {
    /// The boolean this ciphertext decrypts to under its pair's client key.
    pub closed spec fn value(self) -> bool {
        self.plain@
    }

    /// The identity of the key pair this ciphertext belongs to.
    pub closed spec fn pair(self) -> nat {
        self.pair@
    }

    /// Wraps a ciphertext that arrived from outside (deserialized bytes);
    /// nothing is known about its plaintext or its key pair.
    #[verifier::external_body]
    pub fn from_raw(inner: tfhe::boolean::ciphertext::Ciphertext) -> EBool {
        EBool { inner, plain: Ghost(arbitrary()), pair: Ghost(arbitrary()) }
    }

    /// Hands out a copy of the underlying ciphertext, for serialization at
    /// the boundary. Relies on `Ciphertext::clone`.
    #[verifier::external_body]
    pub fn raw_clone(&self) -> tfhe::boolean::ciphertext::Ciphertext {
        self.inner.clone()
    }
}

impl FheClientKey {
    /// The identity of the key pair this client key belongs to.
    pub closed spec fn pair(self) -> nat {
        self.pair@
    }

    /// Wraps a client key that arrived from outside (loaded from storage);
    /// nothing is known about its key pair.
    #[verifier::external_body]
    pub fn from_raw(inner: tfhe::boolean::client_key::ClientKey) -> FheClientKey {
        FheClientKey { inner, pair: Ghost(arbitrary()) }
    }

    /// Hands out a copy of the underlying client key, for persistence at the
    /// boundary. Relies on `ClientKey::clone`.
    #[verifier::external_body]
    pub fn raw_clone(&self) -> tfhe::boolean::client_key::ClientKey {
        self.inner.clone()
    }
}

impl FheEvalKey {
    /// The identity of the key pair this evaluation key belongs to.
    pub closed spec fn pair(self) -> nat {
        self.pair@
    }

    /// Wraps an evaluation key that arrived from outside (deserialized
    /// bytes); nothing is known about its key pair.
    #[verifier::external_body]
    pub fn from_raw(inner: tfhe::boolean::server_key::ServerKey) -> FheEvalKey {
        FheEvalKey { inner, pair: Ghost(arbitrary()) }
    }

    /// Hands out a copy of the underlying evaluation key, for serialization
    /// at the boundary. Relies on `ServerKey::clone`.
    #[verifier::external_body]
    pub fn raw_clone(&self) -> tfhe::boolean::server_key::ServerKey {
        self.inner.clone()
    }
}

/// Generates one fresh key pair. Relies on `tfhe::boolean::gen_keys`: the
/// two keys it returns belong to the same pair.
#[verifier::external_body]
pub fn generate_fhe_keys() -> (keys: (FheClientKey, FheEvalKey))
    ensures
        keys.0.pair() == keys.1.pair(),
{
    let (ck, sk) = tfhe::boolean::gen_keys();
    (
        FheClientKey { inner: ck, pair: Ghost(arbitrary()) },
        FheEvalKey { inner: sk, pair: Ghost(arbitrary()) },
    )
}

/// Encrypts one boolean under a client key. Relies on
/// `tfhe::boolean::client_key::ClientKey::encrypt`: the result decrypts to
/// `b` under the same key.
#[verifier::external_body]
pub fn fhe_encrypt_bit(b: bool, ck: &FheClientKey) -> (c: EBool)
    ensures
        c.value() == b,
        c.pair() == ck.pair(),
{
    EBool { inner: ck.inner.encrypt(b), plain: Ghost(arbitrary()), pair: Ghost(arbitrary()) }
}

/// Decrypts one boolean under the client key of its pair. Relies on
/// `tfhe::boolean::client_key::ClientKey::decrypt`.
#[verifier::external_body]
pub fn fhe_decrypt_bit(c: &EBool, ck: &FheClientKey) -> (b: bool)
    requires
        c.pair() == ck.pair(),
    ensures
        b == c.value(),
{
    ck.inner.decrypt(&c.inner)
}

/// Homomorphic XOR of two ciphertexts of one pair, under that pair's
/// evaluation key. Relies on `tfhe`'s boolean gate
/// `ServerKey::xor`: the result decrypts to the XOR of what the operands
/// decrypt to.
#[verifier::external_body]
pub fn fhe_xor(a: &EBool, b: &EBool, key: &FheEvalKey) -> (r: EBool)
    requires
        a.pair() == b.pair(),
        a.pair() == key.pair(),
    ensures
        r.value() == (a.value() != b.value()),
        r.pair() == a.pair(),
{
    EBool {
        inner: key.inner.xor(&a.inner, &b.inner),
        plain: Ghost(arbitrary()),
        pair: Ghost(arbitrary()),
    }
}

/// Homomorphic AND of two ciphertexts of one pair, under that pair's
/// evaluation key. Relies on `tfhe`'s boolean gate
/// `ServerKey::and`: the result decrypts to the AND of what the operands
/// decrypt to.
#[verifier::external_body]
pub fn fhe_and(a: &EBool, b: &EBool, key: &FheEvalKey) -> (r: EBool)
    requires
        a.pair() == b.pair(),
        a.pair() == key.pair(),
    ensures
        r.value() == (a.value() && b.value()),
        r.pair() == a.pair(),
{
    EBool {
        inner: key.inner.and(&a.inner, &b.inner),
        plain: Ghost(arbitrary()),
        pair: Ghost(arbitrary()),
    }
}

/// Copies a ciphertext; the copy carries the same plaintext under the same
/// pair. Relies on `Ciphertext::clone`.
#[verifier::external_body]
pub fn ebool_clone(c: &EBool) -> (r: EBool)
    ensures
        r.value() == c.value(),
        r.pair() == c.pair(),
{
    EBool { inner: c.inner.clone(), plain: c.plain, pair: c.pair }
}

/// The plaintexts of a sequence of encrypted booleans.
pub open spec fn ebool_values(s: Seq<EBool>) -> Seq<bool> {
    Seq::new(s.len(), |i: int| s[i].value())
}

/// All ciphertexts in the sequence belong to the key pair `p`.
pub open spec fn all_pair(s: Seq<EBool>, p: nat) -> bool {
    forall|i: int| 0 <= i < s.len() ==> #[trigger] s[i].pair() == p
}

} // verus!
