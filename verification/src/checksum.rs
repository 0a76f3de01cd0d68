//! The integrity checksum that binds the request fields together.

use crate::hex::{hex_spec, to_hex};
use crate::sha1::{digest, digest_spec, lemma_digest_len};
use vstd::prelude::*;
use vstd::string::StringExecFns;
use vstd::utf8::encode_utf8;

verus! {

/// The texts of a sequence of string slices.
pub open spec fn texts(parts: Seq<&str>) -> Seq<Seq<char>> {
    Seq::new(parts.len(), |i: int| parts[i]@)
}

/// The checksum of the parts: the hexadecimal SHA-1 digest of their
/// concatenation, in order and with nothing between them.
pub open spec fn checksum_spec(parts: Seq<Seq<char>>) -> Seq<char> {
    hex_spec(digest_spec(encode_utf8(parts.flatten())))
}

/// A checksum has forty hexadecimal digits.
pub proof fn lemma_checksum_len(parts: Seq<Seq<char>>)
    ensures
        checksum_spec(parts).len() == 40,
{
    lemma_digest_len(encode_utf8(parts.flatten()));
}

/// The checksum depends on the concatenation alone: two sequences of parts
/// with the same concatenation have the same checksum, wherever the
/// boundaries between the parts lie.
pub proof fn lemma_checksum_ignores_boundaries(a: Seq<Seq<char>>, b: Seq<Seq<char>>)
    requires
        a.flatten() == b.flatten(),
    ensures
        checksum_spec(a) == checksum_spec(b),
{
}

/// Moving the boundary between two neighbouring parts leaves the checksum as
/// it is: `middle` may end the first part or begin the second.
pub proof fn lemma_checksum_boundary_shift(head: Seq<char>, middle: Seq<char>, tail: Seq<char>)
    ensures
        checksum_spec(seq![head + middle, tail]) == checksum_spec(seq![head, middle + tail]),
{
    let left = seq![head + middle, tail];
    let right = seq![head, middle + tail];
    assert(left =~= Seq::<Seq<char>>::empty().push(head + middle).push(tail));
    assert(right =~= Seq::<Seq<char>>::empty().push(head).push(middle + tail));
    Seq::<Seq<char>>::empty().lemma_flatten_push(head + middle);
    Seq::<Seq<char>>::empty().push(head + middle).lemma_flatten_push(tail);
    Seq::<Seq<char>>::empty().lemma_flatten_push(head);
    Seq::<Seq<char>>::empty().push(head).lemma_flatten_push(middle + tail);
    assert(left.flatten() =~= right.flatten());
}

/// Computes the checksum of the parts, in the order given.
pub fn checksum(parts: &[&str]) -> (sum: String)
    ensures
        sum@ == checksum_spec(texts(parts@)),
        sum@.len() == 40,
{
    let mut joined = String::new();
    let mut i: usize = 0;
    assert(texts(parts@).take(0) =~= Seq::<Seq<char>>::empty());
    while i < parts.len()
        invariant
            i <= parts@.len(),
            joined@ == texts(parts@).take(i as int).flatten(),
        decreases parts@.len() - i,
    {
        joined.append(parts[i]);
        proof {
            let all = texts(parts@);
            assert(all.take(i + 1) =~= all.take(i as int).push(parts@[i as int]@));
            all.take(i as int).lemma_flatten_push(parts@[i as int]@);
        }
        i += 1;
    }
    assert(texts(parts@).take(i as int) =~= texts(parts@));
    let hash = digest(joined.as_str().as_bytes());
    to_hex(hash.as_slice())
}

} // verus!
