//! The authenticated upgrade handshake for one connection attempt: the fixed
//! endpoint, the bearer credential, the standard upgrade headers, and a fresh
//! random 16-byte key, base64-encoded.

use base64::Engine;
use rand::Rng;
use vstd::prelude::*;

verus! {

/// The standard base64 encoding of `bytes`; fixed by the bytes alone.
pub uninterp spec fn base64_std(bytes: Seq<u8>) -> Seq<char>;

/// Relies on base64's `STANDARD` engine `encode`: the padded standard-alphabet
/// encoding, `4 * ceil(n / 3)` characters for `n` input bytes, a function of
/// the bytes alone.
#[verifier::external_body]
fn base64_encode(bytes: &Vec<u8>) -> (r: String)
    ensures
        r@ == base64_std(bytes@),
        r@.len() == 4 * ((bytes@.len() + 2) / 3),
{
    base64::engine::general_purpose::STANDARD.encode(bytes)
}

/// Relies on rand::thread_rng and Rng::gen: 16 bytes from the thread-local
/// generator. The values are random, so nothing is promised of them.
#[verifier::external_body]
fn random_key_bytes() -> (r: Vec<u8>)
    ensures
        r@.len() == 16,
{
    let mut rng = rand::thread_rng();
    let bytes: [u8; 16] = rng.gen();
    bytes.to_vec()
}

/// A fresh handshake key: the standard base64 encoding of 16 fresh random
/// bytes, hence 24 characters.
pub fn fresh_websocket_key() -> (r: String)
    ensures
        r@.len() == 24,
        exists|b: Seq<u8>| b.len() == 16 && r@ == base64_std(b),
{
    let bytes = random_key_bytes();
    let key = base64_encode(&bytes);
    proof {
        assert(bytes@.len() == 16 && key@ == base64_std(bytes@));
    }
    key
}

/// The upgrade request of one connection attempt, as plain header values for
/// the host to put on the wire.
pub struct HandshakeRequest {
    /// The fixed remote endpoint.
    pub url: String,
    /// The `Host` header.
    pub host: String,
    /// The `Authorization` header: `Bearer` and the credential.
    pub authorization: String,
    /// The `Upgrade` header.
    pub upgrade: String,
    /// The `Connection` header.
    pub connection: String,
    /// The `Sec-WebSocket-Version` header.
    pub ws_version: String,
    /// The `Sec-WebSocket-Key` header: fresh per attempt.
    pub ws_key: String,
}

/// Build the handshake for one connection attempt: every header value is
/// pinned, and the key is freshly random-generated for this attempt.
pub fn build_handshake(api_key: &str) -> (r: HandshakeRequest)
    ensures
        r.url@ == "wss://timelens.wireway.ch/v2/event"@,
        r.host@ == "timelens.wireway.ch"@,
        r.authorization@ == "Bearer "@ + api_key@,
        r.upgrade@ == "websocket"@,
        r.connection@ == "Upgrade"@,
        r.ws_version@ == "13"@,
        r.ws_key@.len() == 24,
        exists|b: Seq<u8>| b.len() == 16 && r.ws_key@ == base64_std(b),
{
    let mut authorization = "Bearer ".to_owned();
    authorization.append(api_key);
    HandshakeRequest {
        url: "wss://timelens.wireway.ch/v2/event".to_owned(),
        host: "timelens.wireway.ch".to_owned(),
        authorization,
        upgrade: "websocket".to_owned(),
        connection: "Upgrade".to_owned(),
        ws_version: "13".to_owned(),
        ws_key: fresh_websocket_key(),
    }
}

} // verus!
