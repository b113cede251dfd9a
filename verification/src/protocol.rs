//! The request and response records exchanged between client and server.
//! Serialization lives at the application boundary; here the records are
//! plain data with constructors whose contracts pin every field.

use vstd::prelude::*;

verus! {

/// Relies on `chrono::Utc::now` and `DateTime::to_rfc3339` for a wall-clock
/// timestamp string; the result depends on the clock, so nothing is stated
/// of it.
#[verifier::external_body]
pub fn now_rfc3339() -> String {
    chrono::Utc::now().to_rfc3339()
}

/// Enrollment request: the Trivium-encrypted feature bits in the clear, the
/// Trivium key and IV under FHE, and, on first registration only, the
/// serialized evaluation key.
pub struct RegisterRequest {
    pub user_id: String,
    pub ciphertext: Vec<bool>,
    pub encrypted_key_bytes: Vec<u8>,
    pub encrypted_iv_bytes: Vec<u8>,
    pub server_key_bytes: Option<Vec<u8>>,
}

pub struct RegisterResponse {
    pub success: bool,
    pub message: String,
    pub user_id: String,
    pub timestamp: String,
}

impl RegisterRequest {
    pub fn new(
        user_id: String,
        ciphertext: Vec<bool>,
        encrypted_key_bytes: Vec<u8>,
        encrypted_iv_bytes: Vec<u8>,
        server_key_bytes: Option<Vec<u8>>,
    ) -> (r: Self)
        ensures
            r.user_id == user_id,
            r.ciphertext == ciphertext,
            r.encrypted_key_bytes == encrypted_key_bytes,
            r.encrypted_iv_bytes == encrypted_iv_bytes,
            r.server_key_bytes == server_key_bytes,
    {
        Self { user_id, ciphertext, encrypted_key_bytes, encrypted_iv_bytes, server_key_bytes }
    }
}

impl RegisterResponse {
    pub fn success(user_id: String) -> (r: Self)
        ensures
            r.success == true,
            r.message@ == "Fingerprint registered successfully"@,
            r.user_id == user_id,
    {
        Self {
            success: true,
            message: "Fingerprint registered successfully".to_owned(),
            user_id,
            timestamp: now_rfc3339(),
        }
    }

    pub fn error(user_id: String, message: String) -> (r: Self)
        ensures
            r.success == false,
            r.message == message,
            r.user_id == user_id,
    {
        Self { success: false, message, user_id, timestamp: now_rfc3339() }
    }
}

/// Verification request: the probe carries its own fresh Trivium key and IV
/// under FHE, distinct from the enrolled session's, plus the one encrypted
/// `true` constant the server may use.
pub struct VerifyRequest {
    pub user_id: String,
    pub ciphertext: Vec<bool>,
    pub encrypted_key_bytes: Vec<u8>,
    pub encrypted_iv_bytes: Vec<u8>,
    pub encrypted_true_bytes: Vec<u8>,
}

pub struct VerifyResponse {
    pub success: bool,
    pub encrypted_match_bytes: Vec<u8>,
    pub encrypted_distance_bytes: Vec<u8>,
    pub timestamp: String,
    pub debug_server_match: Option<bool>,
    pub debug_server_distance: Option<usize>,
}

impl VerifyRequest {
    pub fn new(
        user_id: String,
        ciphertext: Vec<bool>,
        encrypted_key_bytes: Vec<u8>,
        encrypted_iv_bytes: Vec<u8>,
        encrypted_true_bytes: Vec<u8>,
    ) -> (r: Self)
        ensures
            r.user_id == user_id,
            r.ciphertext == ciphertext,
            r.encrypted_key_bytes == encrypted_key_bytes,
            r.encrypted_iv_bytes == encrypted_iv_bytes,
            r.encrypted_true_bytes == encrypted_true_bytes,
    {
        Self { user_id, ciphertext, encrypted_key_bytes, encrypted_iv_bytes, encrypted_true_bytes }
    }
}

impl VerifyResponse {
    pub fn success(encrypted_match_bytes: Vec<u8>, encrypted_distance_bytes: Vec<u8>) -> (r: Self)
        ensures
            r.success == true,
            r.encrypted_match_bytes == encrypted_match_bytes,
            r.encrypted_distance_bytes == encrypted_distance_bytes,
            r.debug_server_match is None,
            r.debug_server_distance is None,
    {
        Self {
            success: true,
            encrypted_match_bytes,
            encrypted_distance_bytes,
            timestamp: now_rfc3339(),
            debug_server_match: None,
            debug_server_distance: None,
        }
    }

    /// Attaches the server-side clear verdict; only for diagnostics, since
    /// it reveals the result to the server.
    pub fn with_debug(self, match_result: bool, distance: usize) -> (r: Self)
        ensures
            r.success == self.success,
            r.encrypted_match_bytes == self.encrypted_match_bytes,
            r.encrypted_distance_bytes == self.encrypted_distance_bytes,
            r.timestamp == self.timestamp,
            r.debug_server_match == Some(match_result),
            r.debug_server_distance == Some(distance),
    {
        let mut r = self;
        r.debug_server_match = Some(match_result);
        r.debug_server_distance = Some(distance);
        r
    }

    #[allow(unused_variables)]
    pub fn error(message: String) -> (r: Self)
        ensures
            r.success == false,
            r.encrypted_match_bytes@ == Seq::<u8>::empty(),
            r.encrypted_distance_bytes@ == Seq::<u8>::empty(),
            r.debug_server_match is None,
            r.debug_server_distance is None,
    {
        Self {
            success: false,
            encrypted_match_bytes: Vec::new(),
            encrypted_distance_bytes: Vec::new(),
            timestamp: now_rfc3339(),
            debug_server_match: None,
            debug_server_distance: None,
        }
    }
}

} // verus!
