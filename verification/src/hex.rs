//! Lower-case hexadecimal text of bytes.

use crate::text::string_of;
use vstd::prelude::*;
use vstd::string::StrSliceExecFns;

verus! {

/// The sixteen digits, in order of their value.
pub const HEX_DIGITS: &'static str = "0123456789abcdef";

/// The value of the digit at position `i` of the text of `bytes`: the high
/// half of a byte at even positions, the low half at odd ones.
pub open spec fn nibble_at(bytes: Seq<u8>, i: int) -> int {
    if i % 2 == 0 {
        bytes[i / 2] as int / 16
    } else {
        bytes[i / 2] as int % 16
    }
}

/// The hexadecimal text of `bytes`: two digits per byte.
pub open spec fn hex_spec(bytes: Seq<u8>) -> Seq<char> {
    Seq::new(2 * bytes.len(), |i: int| HEX_DIGITS@[nibble_at(bytes, i)])
}

/// Writes `bytes` as lower-case hexadecimal text.
pub fn to_hex(bytes: &[u8]) -> (text: String)
    ensures
        text@ == hex_spec(bytes@),
        text@.len() == 2 * bytes@.len(),
{
    proof {
        reveal_strlit("0123456789abcdef");
    }
    let mut digits: Vec<char> = Vec::new();
    let mut j: usize = 0;
    while j < bytes.len()
        invariant
            j <= bytes@.len(),
            HEX_DIGITS@.len() == 16,
            digits@.len() == 2 * j,
            forall|i: int| 0 <= i < 2 * j ==> #[trigger] digits@[i] == HEX_DIGITS@[nibble_at(bytes@, i)],
        decreases bytes@.len() - j,
    {
        let byte: u8 = bytes[j];
        digits.push(HEX_DIGITS.get_char((byte / 16) as usize));
        digits.push(HEX_DIGITS.get_char((byte % 16) as usize));
        j += 1;
    }
    assert(digits@ =~= hex_spec(bytes@));
    let text = string_of(digits.as_slice(), 0, digits.len());
    assert(text@ =~= digits@);
    text
}

} // verus!
