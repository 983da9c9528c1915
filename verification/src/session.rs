//! Session token management for the browser-sync companion feature:
//! generation and constant-time validation of the token that authenticates
//! browser requests to the embedded web server.

use vstd::prelude::*;

verus! {

broadcast use vstd::std_specs::vec::group_vec_axioms;

/// The lowercase hexadecimal digit of a value below sixteen.
pub open spec fn spec_hex_digit(n: u8) -> char
    recommends
        n < 16,
{
    if n < 10 {
        (48 + n) as char
    } else {
        (87 + n) as char
    }
}

/// The lowercase hexadecimal spelling of a byte string: two digits per
/// byte, high nibble first.
pub open spec fn spec_hex_of(bytes: Seq<u8>) -> Seq<char>
    decreases bytes.len(),
{
    if bytes.len() == 0 {
        Seq::empty()
    } else {
        seq![spec_hex_digit(bytes[0] / 16), spec_hex_digit(bytes[0] % 16)] + spec_hex_of(
            bytes.drop_first(),
        )
    }
}

/// The hexadecimal spelling is twice as long as the byte string.
pub proof fn lemma_hex_len(bytes: Seq<u8>)
    ensures
        spec_hex_of(bytes).len() == 2 * bytes.len(),
    decreases bytes.len(),
{
    if bytes.len() != 0 {
        lemma_hex_len(bytes.drop_first());
    }
}

/// Relies on `hex::encode`: lowercase hexadecimal, two digits per byte,
/// high nibble first.
#[verifier::external_body]
fn to_hex(bytes: &[u8]) -> (r: String)
    ensures
        r@ == spec_hex_of(bytes@),
{
    hex::encode(bytes)
}

/// Relies on `rand::rng` and `Rng::random`: thirty-two bytes of random
/// data; nothing is promised of their values.
#[verifier::external_body]
fn random_bytes32() -> (r: Vec<u8>)
    ensures
        r@.len() == 32,
{
    let mut rng = rand::rng();
    let bytes: [u8; 32] = rand::Rng::random(&mut rng);
    bytes.to_vec()
}

/// Compare two byte strings in constant time: the scan never exits early,
/// so the running time leaks nothing about where they first differ.
pub fn constant_time_eq(a: &[u8], b: &[u8]) -> (r: bool)
    ensures
        r == (a@ == b@),
{
    if a.len() != b.len() {
        proof {
            assert(a@ != b@);
        }
        return false;
    }
    let mut result: u8 = 0;
    let mut i: usize = 0;
    while i < a.len()
        invariant
            i <= a@.len(),
            a@.len() == b@.len(),
            (result == 0) <==> (forall|j: int| 0 <= j < i ==> a@[j] == b@[j]),
        decreases a@.len() - i,
    {
        let x = a[i];
        let y = b[i];
        let ghost old_result = result;
        result = result | (x ^ y);
        proof {
            assert((old_result | (x ^ y)) == 0 <==> old_result == 0 && (x ^ y) == 0)
                by (bit_vector);
            assert((x ^ y) == 0 <==> x == y) by (bit_vector);
        }
        i += 1;
    }
    proof {
        if result == 0 {
            assert(a@ =~= b@);
        }
    }
    result == 0
}

/// Manager of the one session token that may be active at a time.
#[derive(Debug)]
pub struct SessionManager {
    /// The active token, if one was generated and not yet cleared.
    pub token: Option<String>,
}

impl SessionManager {
    /// A manager with no active token.
    pub fn new() -> (r: SessionManager)
        ensures
            r.token is None,
    {
        SessionManager { token: None }
    }

    /// Generate and store a fresh session token: thirty-two random bytes,
    /// spelled as sixty-four lowercase hexadecimal characters.
    pub fn generate_token(&mut self) -> (r: String)
        ensures
            final(self).token.deep_view() == Some(r@),
            r@.len() == 64,
            exists|bytes: Seq<u8>| bytes.len() == 32 && r@ == spec_hex_of(bytes),
    {
        let bytes = random_bytes32();
        let token = to_hex(bytes.as_slice());
        proof {
            lemma_hex_len(bytes@);
        }
        self.token = Some(token.clone());
        token
    }

    /// Validate a presented token against the stored one, in constant
    /// time; false when no token is active.
    pub fn validate_token(&self, token: &str) -> (r: bool)
        ensures
            r == (self.token.deep_view() == Some(token@)),
    {
        broadcast use vstd::utf8::encode_utf8_decode_utf8;

        match &self.token {
            Some(stored) => {
                let eq = constant_time_eq(stored.as_str().as_bytes(), token.as_bytes());
                proof {
                    if stored@ == token@ {
                        assert(vstd::utf8::encode_utf8(stored@) == vstd::utf8::encode_utf8(
                            token@,
                        ));
                    }
                    if vstd::utf8::encode_utf8(stored@) == vstd::utf8::encode_utf8(token@) {
                        assert(vstd::utf8::decode_utf8(vstd::utf8::encode_utf8(stored@))
                            == vstd::utf8::decode_utf8(vstd::utf8::encode_utf8(token@)));
                        assert(stored@ == token@);
                    }
                }
                eq
            },
            None => false,
        }
    }

    /// Clear the active token, ending the session.
    pub fn clear_token(&mut self)
        ensures
            final(self).token is None,
    {
        self.token = None;
    }

    /// Whether a session token is active.
    pub fn has_active_session(&self) -> (r: bool)
        ensures
            r == (self.token is Some),
    {
        self.token.is_some()
    }
}

/// A session manager ready for use, with no active token.
pub fn create_session_manager() -> (r: SessionManager)
    ensures
        r.token is None,
{
    SessionManager::new()
}

} // verus!
