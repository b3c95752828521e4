//! CLOB request authentication: HMAC-SHA256 signing and nonce
//! generation.
//!
//! The signature of a request is the base64 encoding of the
//! HMAC-SHA256 tag over `timestamp + method + path + body` keyed by the
//! API secret; the secret itself never leaves this module.  Nonces are
//! a construction-time seed plus a per-instance counter, so no two
//! requests of one session share a nonce.

use vstd::prelude::*;

verus! {

/// The HMAC-SHA256 tag over a message keyed by a secret, both given as
/// text.  The tag depends on the two arguments alone.
pub uninterp spec fn hmac_sha256_of(message: Seq<char>, key: Seq<char>) -> Seq<u8>;

/// The base64 encoding (standard alphabet, padded) of a byte string.
pub uninterp spec fn base64_of(bytes: Seq<u8>) -> Seq<char>;

/// Relies on hmac_sha256::HMAC::mac: the 32-byte HMAC-SHA256 tag of the
/// message under the key, a function of the two arguments alone.
#[verifier::external_body]
fn hmac_sha256_tag(message: &str, key: &str) -> (r: Vec<u8>)
    ensures
        r@ == hmac_sha256_of(message@, key@),
        r@.len() == 32,
{
    hmac_sha256::HMAC::mac(message.as_bytes(), key.as_bytes()).to_vec()
}

/// Relies on base64's standard engine: the padded base64 text of the
/// bytes, four characters for every started group of three bytes.
#[verifier::external_body]
fn base64_encode(bytes: &Vec<u8>) -> (r: String)
    ensures
        r@ == base64_of(bytes@),
        r@.len() == 4 * ((bytes@.len() + 2) / 3),
{
    <base64::engine::GeneralPurpose as base64::Engine>::encode(
        &base64::engine::general_purpose::STANDARD,
        bytes,
    )
}

/// Relies on std::time::SystemTime::now: the Unix time in seconds as a
/// decimal string, which always has at least one digit.
#[verifier::external_body]
pub fn unix_seconds_string() -> (r: String)
    ensures
        r@.len() >= 1,
{
    let secs: u64 = std::time::SystemTime::now()
        .duration_since(std::time::UNIX_EPOCH)
        .unwrap_or_default()
        .as_secs();
    let mut out = String::new();
    out.push_str(&secs.to_string());
    out
}

/// Why signing a request can fail.  Signing never fails today; the
/// variant exists so the fallible entry point keeps its shape.
#[derive(Debug, Clone, Copy, PartialEq, Eq, Structural)]
pub enum AuthError {
    /// The signing backend refused the request.
    SigningUnavailable,
}

/// Non-secret credential bundle attached to request headers.
#[derive(Debug, Clone)]
pub struct ClobCredentials {
    /// The API key.
    pub api_key: String,
    /// The passphrase.
    pub api_passphrase: String,
}

/// CLOB API authentication state: key, secret, passphrase and the
/// nonce source.
#[derive(Debug)]
pub struct ClobAuth {
    /// The API key sent in headers.
    pub api_key: String,
    /// The API secret; used only to key signatures, never sent.
    pub api_secret: String,
    /// The passphrase sent in headers.
    pub passphrase: String,
    /// Timestamp seed fixed at construction for nonce generation.
    pub nonce_seed: u64,
    /// Nonces handed out so far.
    pub nonce_counter: u64,
}

impl ClobAuth {
    /// Assemble an authenticator from credentials and a nonce seed.
    /// The boundary reads the credentials from the environment and the
    /// seed from the clock.
    pub fn new(api_key: String, api_secret: String, passphrase: String, nonce_seed: u64) -> (r:
        ClobAuth)
        ensures
            r.api_key == api_key,
            r.api_secret == api_secret,
            r.passphrase == passphrase,
            r.nonce_seed == nonce_seed,
            r.nonce_counter == 0,
    {
        ClobAuth { api_key, api_secret, passphrase, nonce_seed, nonce_counter: 0 }
    }

    /// The API key for request headers.
    pub fn api_key(&self) -> (r: &str)
        ensures
            r@ == self.api_key@,
    {
        self.api_key.as_str()
    }

    /// The passphrase for request headers.
    pub fn passphrase(&self) -> (r: &str)
        ensures
            r@ == self.passphrase@,
    {
        self.passphrase.as_str()
    }

    /// The non-secret credential bundle for request headers.
    pub fn credentials(&self) -> (r: Option<ClobCredentials>)
        ensures
            r matches Some(c) && c.api_key@ == self.api_key@
                && c.api_passphrase@ == self.passphrase@,
    {
        Some(
            ClobCredentials {
                api_key: self.api_key.clone(),
                api_passphrase: self.passphrase.clone(),
            },
        )
    }

    /// The next nonce: seed plus counter, unique per instance.
    pub fn generate_nonce(&mut self) -> (r: u64)
        requires
            old(self).nonce_seed + old(self).nonce_counter < u64::MAX,
        ensures
            r == old(self).nonce_seed + old(self).nonce_counter,
            final(self).nonce_counter == old(self).nonce_counter + 1,
            final(self).nonce_seed == old(self).nonce_seed,
            final(self).api_key == old(self).api_key,
            final(self).api_secret == old(self).api_secret,
            final(self).passphrase == old(self).passphrase,
    {
        let nonce: u64 = self.nonce_seed + self.nonce_counter;
        self.nonce_counter = self.nonce_counter + 1;
        nonce
    }

    /// The current Unix time in seconds, as the decimal string used in
    /// signatures.
    pub fn timestamp() -> (r: String)
        ensures
            r@.len() >= 1,
    {
        unix_seconds_string()
    }

    /// Sign a request: the base64 HMAC-SHA256 tag over
    /// `timestamp + method + path + body`, keyed by the API secret.
    pub fn sign(&self, timestamp: &str, method: &str, path: &str, body: &str) -> (r: String)
        ensures
            r@ == base64_of(
                hmac_sha256_of(timestamp@ + method@ + path@ + body@, self.api_secret@),
            ),
    {
        let mut message: String = String::from_str(timestamp);
        message.append(method);
        message.append(path);
        message.append(body);
        proof {
            assert(message@ =~= timestamp@ + method@ + path@ + body@);
        }
        let tag: Vec<u8> = hmac_sha256_tag(message.as_str(), self.api_secret.as_str());
        base64_encode(&tag)
    }

    /// Sign a request through the fallible entry point; signing always
    /// succeeds.
    pub fn sign_request(&self, timestamp: &str, method: &str, path: &str, body: &str) -> (r:
        Result<String, AuthError>)
        ensures
            r matches Ok(sig) && sig@ == base64_of(
                hmac_sha256_of(timestamp@ + method@ + path@ + body@, self.api_secret@),
            ),
    {
        Ok(self.sign(timestamp, method, path, body))
    }

    /// All authentication headers for a request:
    /// `(key, timestamp, signature, passphrase)`.  The signature is
    /// bound to the returned timestamp; the secret never appears.
    pub fn auth_headers(&self, method: &str, path: &str, body: &str) -> (r: (
        String,
        String,
        String,
        String,
    ))
        ensures
            r.0@ == self.api_key@,
            r.3@ == self.passphrase@,
            r.2@ == base64_of(
                hmac_sha256_of(r.1@ + method@ + path@ + body@, self.api_secret@),
            ),
    {
        let timestamp: String = Self::timestamp();
        let signature: String = self.sign(timestamp.as_str(), method, path, body);
        (self.api_key.clone(), timestamp, signature, self.passphrase.clone())
    }
}

} // verus!
