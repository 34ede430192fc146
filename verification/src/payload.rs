//! The bytes on the wire. The pool itself never looks at them.

use vstd::bytes::{spec_u64_to_le_bytes, spec_u64_to_le_bytes_to_open, u64_to_le_bytes};
use vstd::prelude::*;

verus! {

/// The reply that every request gets: the ASCII letters of the word Ferris.
pub open spec fn reply_bytes() -> Seq<u8> {
    seq![70u8, 101u8, 114u8, 114u8, 105u8, 115u8]
}

/// The reply spells Ferris, one byte for each letter.
pub proof fn lemma_reply_spells_ferris()
    ensures
        reply_bytes() == "Ferris"@.map_values(|letter: char| letter as u8),
{
    reveal_strlit("Ferris");
    assert(reply_bytes() =~= "Ferris"@.map_values(|letter: char| letter as u8));
}

/// The eight bytes of `value` in base 256, least significant first.
pub open spec fn request_bytes(value: u64) -> Seq<u8> {
    seq![
        (value % 0x100) as u8,
        (value / 0x100 % 0x100) as u8,
        (value / 0x1_0000 % 0x100) as u8,
        (value / 0x100_0000 % 0x100) as u8,
        (value / 0x1_0000_0000 % 0x100) as u8,
        (value / 0x100_0000_0000 % 0x100) as u8,
        (value / 0x1_0000_0000_0000 % 0x100) as u8,
        (value / 0x100_0000_0000_0000 % 0x100) as u8,
    ]
}

/// The digits of `request_bytes` are the little-endian bytes of the value.
pub proof fn lemma_request_bytes_are_little_endian(value: u64)
    ensures
        request_bytes(value) == spec_u64_to_le_bytes(value),
{
    spec_u64_to_le_bytes_to_open(value);
    assert(value & 0xff == value % 0x100) by (bit_vector);
    assert((value >> 8) & 0xff == value / 0x100 % 0x100) by (bit_vector);
    assert((value >> 16) & 0xff == value / 0x1_0000 % 0x100) by (bit_vector);
    assert((value >> 24) & 0xff == value / 0x100_0000 % 0x100) by (bit_vector);
    assert((value >> 32) & 0xff == value / 0x1_0000_0000 % 0x100) by (bit_vector);
    assert((value >> 40) & 0xff == value / 0x100_0000_0000 % 0x100) by (bit_vector);
    assert((value >> 48) & 0xff == value / 0x1_0000_0000_0000 % 0x100) by (bit_vector);
    assert((value >> 56) & 0xff == value / 0x100_0000_0000_0000 % 0x100) by (bit_vector);
    assert(request_bytes(value) =~= spec_u64_to_le_bytes(value));
}

/// The body of the reply. It is the same for every request.
pub fn reply_payload() -> (bytes: Vec<u8>)
    ensures
        bytes@ == reply_bytes(),
{
    let mut bytes: Vec<u8> = Vec::new();
    bytes.push(70u8);
    bytes.push(101u8);
    bytes.push(114u8);
    bytes.push(114u8);
    bytes.push(105u8);
    bytes.push(115u8);
    assert(bytes@ =~= reply_bytes());
    bytes
}

/// The body of a request: the eight bytes of `value`, least significant
/// first.
pub fn request_payload(value: u64) -> (bytes: Vec<u8>)
    ensures
        bytes@ == request_bytes(value),
{
    let bytes = u64_to_le_bytes(value);
    proof {
        lemma_request_bytes_are_little_endian(value);
    }
    bytes
}

} // verus!
