//! Inline outputs: once their retention is over, only their digest is kept.

use vstd::prelude::*;

use crate::domain::invocation::{Invocation, PayloadRef};
use crate::text;
use crate::time::Timestamp;

verus! {

/// What base64 in its standard alphabet, padded, decodes to, where it does.
pub uninterp spec fn decoded(raw: Seq<char>) -> Option<Seq<u8>>;

/// Content of optional bytes.
pub open spec fn bytes_view(b: Option<Vec<u8>>) -> Option<Seq<u8>> {
    match b {
        Some(b) => Some(b@),
        None => None,
    }
}

/// `Engine::decode` of the standard engine: what it makes of a text is a
/// function of the text alone. Which bytes they are is not claimed.
#[verifier::external_body]
fn decode(raw: &str) -> (r: Option<Vec<u8>>)
    ensures
        bytes_view(r) == decoded(raw@),
{
    base64::Engine::decode(&base64::engine::general_purpose::STANDARD, raw).ok()
}

/// The bytes of an inline output: what its base64 decodes to, or the text
/// itself where it is none.
pub open spec fn inline_bytes(raw: Seq<char>) -> Seq<u8> {
    match decoded(raw) {
        Some(b) => b,
        None => vstd::utf8::encode_utf8(raw),
    }
}

/// The bytes that the digest of an output is taken of. An output that is
/// known by its digest only has none.
pub open spec fn bytes_of(output: Option<PayloadRef>) -> Option<Seq<u8>> {
    match output {
        Some(PayloadRef::Inline { bytes_base64, size_bytes: _ }) => Some(
            inline_bytes(bytes_base64@),
        ),
        _ => None,
    }
}

/// The bytes that the digest of an output is taken of.
pub fn output_bytes(output: &Option<PayloadRef>) -> (r: Option<Vec<u8>>)
    ensures
        bytes_view(r) == bytes_of(*output),
{
    match output {
        Some(PayloadRef::Inline { bytes_base64, size_bytes: _ }) => {
            let b = decode(bytes_base64.as_str());
            Some(bytes_or_text(b, bytes_base64.as_str()))
        },
        _ => None,
    }
}

/// The decoded bytes, or the text's own where there are none.
pub fn bytes_or_text(bytes: Option<Vec<u8>>, raw: &str) -> (r: Vec<u8>)
    ensures
        r@ == match bytes {
            Some(b) => b@,
            None => vstd::utf8::encode_utf8(raw@),
        },
{
    match bytes {
        Some(b) => b,
        None => {
            let b = raw.as_bytes_vec();
            assert(b@ =~= vstd::utf8::encode_utf8(raw@));
            b
        },
    }
}

/// An invocation whose inline output was replaced by its digest.
pub open spec fn digested(inv: Invocation, digest: String) -> Invocation {
    match inv.output {
        Some(PayloadRef::Inline { bytes_base64: _, size_bytes }) => Invocation {
            output: Some(PayloadRef::Digest { digest, size_bytes }),
            ..inv
        },
        _ => inv,
    }
}

/// Replace an inline output by its digest. Its size stays known.
pub fn keep_digest(inv: &mut Invocation, digest: String)
    ensures
        *final(inv) == digested(*old(inv), digest),
{
    let size: Option<u64> = match &inv.output {
        Some(PayloadRef::Inline { bytes_base64: _, size_bytes }) => Some(*size_bytes),
        _ => None,
    };
    if let Some(size_bytes) = size {
        inv.output = Some(PayloadRef::Digest { digest, size_bytes });
    }
}

/// An output whose retention is over at `now`.
pub open spec fn is_over(expires_at: Option<Timestamp>, now: Timestamp) -> bool {
    expires_at is Some && expires_at->0 <= now
}

/// Whether the retention of an output is over at `now`.
pub fn is_expired(expires_at: Option<Timestamp>, now: Timestamp) -> (r: bool)
    ensures
        r == is_over(expires_at, now),
{
    match expires_at {
        Some(t) => t <= now,
        None => false,
    }
}

/// A body is gone after its retention, once and for all, and nothing else
/// about the invocation changes.
pub proof fn law_only_the_body_goes(inv: Invocation, digest: String, other: String)
    ensures
        !(digested(inv, digest).output matches Some(PayloadRef::Inline { .. })),
        digested(digested(inv, digest), other) == digested(inv, digest),
        digested(inv, digest) == (Invocation { output: digested(inv, digest).output, ..inv }),
        digested(inv, digest).output is Some <==> inv.output is Some,
{
}

} // verus!
