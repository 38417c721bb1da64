//! The reference-count codec of the raw store's values.
//!
//! A stored value carries its reference count in its last eight bytes, as a
//! little-endian signed integer. A positive count means the bytes before it
//! are a live value; a count of zero or below indicates deletion and decodes
//! as a tombstone. Anything shorter than eight bytes decodes as an empty
//! tombstone with count zero.

use vstd::prelude::*;

verus! {

/// What `decode_value_with_rc` returns on `bytes`.
pub open spec fn spec_decode_value_with_rc(bytes: Seq<u8>) -> (Option<Seq<u8>>, i64) {
    if bytes.len() < 8 {
        (None, 0i64)
    } else {
        let rc = vstd::bytes::spec_u64_from_le_bytes(bytes.skip(bytes.len() - 8)) as i64;
        if rc <= 0 {
            (None, rc)
        } else {
            (Some(bytes.take(bytes.len() - 8)), rc)
        }
    }
}

/// Splits a raw stored value into its payload and its reference count.
/// `None` indicates a tombstone.
pub fn decode_value_with_rc(bytes: &[u8]) -> (r: (Option<&[u8]>, i64))
    ensures
        ({
            let (v, rc) = spec_decode_value_with_rc(bytes@);
            &&& rc == r.1
            &&& match r.0 {
                Some(s) => v == Some(s@),
                None => v is None,
            }
        }),
{
    let n = bytes.len();
    if n < 8 {
        return (None, 0);
    }
    let tail = vstd::slice::slice_subrange(bytes, n - 8, n);
    let word = vstd::bytes::u64_from_le_bytes(tail);
    let rc = #[verifier::truncate] (word as i64);
    if rc <= 0 {
        (None, rc)
    } else {
        (Some(vstd::slice::slice_subrange(bytes, 0, n - 8)), rc)
    }
}

} // verus!
