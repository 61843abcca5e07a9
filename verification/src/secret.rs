//! The worker endpoint's shared secret: the `x-secret` header value
//! and its constant-time comparison against the configured secret.

use vstd::prelude::*;

verus! {

/// Value of the `x-secret` request header.
#[derive(Debug, Clone)]
pub struct HeaderXSecret(pub String);

impl HeaderXSecret {
    /// Wraps a fixed header value.
    pub fn from_static(src: &'static str) -> (r: HeaderXSecret)
        ensures
            r.0@ == src@,
    {
        HeaderXSecret(src.to_owned())
    }

    /// The header value as text.
    pub fn as_str(&self) -> (r: &str)
        ensures
            r@ == self.0@,
    {
        self.0.as_str()
    }

    /// The header value as bytes.
    pub fn as_bytes(&self) -> (r: &[u8])
        ensures
            r@ == vstd::utf8::encode_utf8(self.0@),
    {
        self.0.as_str().as_bytes()
    }
}

/// Relies on ring's constant-time comparison, which returns `Ok(())`
/// exactly when the two byte slices are equal; the timing of the
/// comparison does not depend on their contents.
#[verifier::external_body]
fn constant_time_eq(a: &[u8], b: &[u8]) -> (r: bool)
    ensures
        r == (a@ == b@),
{
    ring::constant_time::verify_slices_are_equal(a, b).is_ok()
}

/// Whether a worker connection carries the configured secret: the
/// header must be present and its bytes must equal the secret's, the
/// comparison running in constant time.
pub fn worker_auth(provided: Option<&HeaderXSecret>, expected: &str) -> (r: bool)
    ensures
        r == (provided matches Some(h) && vstd::utf8::encode_utf8(h.0@) == vstd::utf8::encode_utf8(
            expected@,
        )),
{
    match provided {
        Some(header) => constant_time_eq(header.as_bytes(), expected.as_bytes()),
        None => false,
    }
}

} // verus!
