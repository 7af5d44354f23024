//! Random identifiers: version-4 UUIDs and their text forms.

use vstd::prelude::*;
use crate::digest::{hex_text, hex_encode};

verus! {

/// `uuid::Uuid::new_v4()` as its 16 bytes: random bytes from the system's
/// secure generator, with the version-4 marks that `new_v4` sets: the high
/// half of byte 6 is 4 and the top two bits of byte 8 are `10`. Nothing
/// else is claimed of their values.
#[verifier::external_body]
pub(crate) fn random_uuid_bytes() -> (r: [u8; 16])
    ensures
        is_v4_bytes(r@),
{
    *uuid::Uuid::new_v4().as_bytes()
}

/// True for the 16 bytes of a version-4 UUID of the RFC variant: the high
/// half of byte 6 is 4 and the top two bits of byte 8 are `10`.
pub open spec fn is_v4_bytes(b: Seq<u8>) -> bool {
    b.len() == 16 && 0x40 <= b[6] < 0x50 && 0x80 <= b[8] < 0xc0
}

/// The hyphenated lowercase text of a UUID's 16 bytes (8-4-4-4-12 hex
/// digits).
pub open spec fn uuid_text(b: Seq<u8>) -> Seq<char> {
    hex_text(b.subrange(0, 4)) + "-"@ + hex_text(b.subrange(4, 6)) + "-"@ + hex_text(b.subrange(6, 8)) + "-"@
        + hex_text(b.subrange(8, 10)) + "-"@ + hex_text(b.subrange(10, 16))
}

/// The hyphenated text of a UUID's bytes (see `uuid_text`).
pub fn uuid_string(b: &[u8; 16]) -> (r: String)
    ensures
        r@ == uuid_text(b@),
{
    let s = b.as_slice();
    let p0 = hex_encode(crate::digest::byte_range(s, 0, 4).as_slice());
    let p1 = hex_encode(crate::digest::byte_range(s, 4, 6).as_slice());
    let p2 = hex_encode(crate::digest::byte_range(s, 6, 8).as_slice());
    let p3 = hex_encode(crate::digest::byte_range(s, 8, 10).as_slice());
    let p4 = hex_encode(crate::digest::byte_range(s, 10, 16).as_slice());
    p0.concat("-").concat(p1.as_str()).concat("-").concat(p2.as_str()).concat("-").concat(p3.as_str()).concat("-").concat(
        p4.as_str(),
    )
}

/// A fresh random version-4 UUID as hyphenated text.
pub fn new_uuid_text() -> (r: String)
    ensures
        exists|b: Seq<u8>| is_v4_bytes(b) && r@ == uuid_text(b),
{
    let b = random_uuid_bytes();
    let r = uuid_string(&b);
    assert(b@.len() == 16);
    r
}

/// A fresh short identifier: the first six hexadecimal digits of a random
/// version-4 UUID.
pub fn new_short_id() -> (r: String)
    ensures
        exists|b: Seq<u8>| is_v4_bytes(b) && r@ == hex_text(b.subrange(0, 3)),
{
    let b = random_uuid_bytes();
    let r = hex_encode(crate::digest::byte_range(b.as_slice(), 0, 3).as_slice());
    assert(b@.len() == 16);
    r
}

} // verus!
