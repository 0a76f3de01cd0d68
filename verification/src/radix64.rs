//! The gateway's radix-64 text form of bytes.
//!
//! Three bytes make four digits of six bits each, most significant bits
//! first; a last group of one or two bytes is completed with the padding
//! sign. The digits are those of the gateway's own alphabet, which is not the
//! standard one.

use crate::text::string_of;
use crate::words::byte_or_zero;
use vstd::prelude::*;
use vstd::string::StrSliceExecFns;

verus! {

/// The sixty-four digits of the gateway's alphabet, in order of their value.
pub const DIGITS: &'static str = "LVoJPiCN2R8G90yg+hmFHuacZ1OWMnrsSTXkYpUq/3dlbfKwv6xztjI7DeBE45QA";

/// The padding sign.
pub const PAD: char = '=';

/// Whether `c` belongs to the output alphabet: a digit or the padding sign.
pub open spec fn is_symbol(c: char) -> bool {
    c == PAD || exists|v: int| 0 <= v < 64 && #[trigger] DIGITS@[v] == c
}

/// The value of digit `k` of a group of three bytes.
pub open spec fn sextet(b0: u8, b1: u8, b2: u8, k: int) -> int {
    if k == 0 {
        b0 as int / 4
    } else if k == 1 {
        (b0 as int % 4) * 16 + b1 as int / 16
    } else if k == 2 {
        (b1 as int % 16) * 4 + b2 as int / 64
    } else {
        b2 as int % 64
    }
}

/// The symbol at position `i` of the text of `data`.
pub open spec fn symbol_at(data: Seq<u8>, i: int) -> char {
    let g = i / 4;
    let k = i % 4;
    if k >= 2 && 3 * g + k - 1 >= data.len() {
        PAD
    } else {
        DIGITS@[sextet(
            byte_or_zero(data, 3 * g),
            byte_or_zero(data, 3 * g + 1),
            byte_or_zero(data, 3 * g + 2),
            k,
        )]
    }
}

/// Number of groups of three that hold `len` bytes.
pub open spec fn group_count(len: nat) -> nat {
    ((len + 2) / 3) as nat
}

/// The radix-64 text of `data`: four symbols for every three bytes begun.
pub open spec fn to_text_spec(data: Seq<u8>) -> Seq<char> {
    Seq::new(4 * group_count(data.len()), |i: int| symbol_at(data, i))
}

/// Every symbol of a text belongs to the output alphabet.
pub proof fn lemma_text_symbols(data: Seq<u8>)
    ensures
        forall|i: int|
            0 <= i < to_text_spec(data).len() ==> is_symbol(#[trigger] to_text_spec(data)[i]),
{
    assert forall|i: int| 0 <= i < to_text_spec(data).len() implies is_symbol(
        #[trigger] to_text_spec(data)[i],
    ) by {
        let g = i / 4;
        let k = i % 4;
        let v = sextet(
            byte_or_zero(data, 3 * g),
            byte_or_zero(data, 3 * g + 1),
            byte_or_zero(data, 3 * g + 2),
            k,
        );
        assert(0 <= v < 64);
        if !(k >= 2 && 3 * g + k - 1 >= data.len()) {
            assert(DIGITS@[v] == symbol_at(data, i));
        }
    }
}

/// The byte of `data` at `base + k`, or zero where the data has ended.
fn group_byte(data: &[u8], base: usize, k: usize) -> (b: u8)
    requires
        base <= data@.len(),
        k < 3,
    ensures
        b == byte_or_zero(data@, base + k),
{
    if k < data.len() - base {
        data[base + k]
    } else {
        0
    }
}

/// Writes `data` in the gateway's radix-64 text form.
pub fn to_text(data: &[u8]) -> (text: String)
    ensures
        text@ == to_text_spec(data@),
{
    proof {
        reveal_strlit("LVoJPiCN2R8G90yg+hmFHuacZ1OWMnrsSTXkYpUq/3dlbfKwv6xztjI7DeBE45QA");
    }
    let len = data.len();
    let groups: usize = if len % 3 == 0 {
        len / 3
    } else {
        len / 3 + 1
    };
    let mut symbols: Vec<char> = Vec::new();
    let mut g: usize = 0;
    while g < groups
        invariant
            len == data@.len(),
            groups == group_count(len as nat),
            g <= groups,
            DIGITS@.len() == 64,
            symbols@.len() == 4 * g,
            forall|i: int| 0 <= i < 4 * g ==> #[trigger] symbols@[i] == symbol_at(data@, i),
        decreases groups - g,
    {
        let base: usize = 3 * g;
        let held: usize = len - base;
        let b0 = group_byte(data, base, 0);
        let b1 = group_byte(data, base, 1);
        let b2 = group_byte(data, base, 2);
        symbols.push(DIGITS.get_char((b0 / 4) as usize));
        symbols.push(DIGITS.get_char(((b0 % 4) * 16 + b1 / 16) as usize));
        if held >= 2 {
            symbols.push(DIGITS.get_char(((b1 % 16) * 4 + b2 / 64) as usize));
        } else {
            symbols.push(PAD);
        }
        if held >= 3 {
            symbols.push(DIGITS.get_char((b2 % 64) as usize));
        } else {
            symbols.push(PAD);
        }
        assert forall|i: int| 4 * g <= i < 4 * g + 4 implies #[trigger] symbols@[i] == symbol_at(
            data@,
            i,
        ) by {
            assert(i / 4 == g);
        }
        g += 1;
    }
    assert(symbols@ =~= to_text_spec(data@));
    let text = string_of(symbols.as_slice(), 0, symbols.len());
    assert(text@ =~= symbols@);
    text
}

} // verus!
