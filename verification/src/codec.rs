//! The keyed byte codec of the gateway's wire format.
//!
//! Encoding packs the input into little-endian words, appends the input's
//! length as one more word, scrambles the words under a key of four words and
//! writes them out as bytes. Decoding runs the same steps backwards and
//! accepts exactly the byte sequences that encoding produces.
//!
//! The key is the UTF-8 form of a string: its first sixteen bytes, padded with
//! zeros where it is shorter. The empty key is thus the all-zero key.

use crate::scramble::{
    lemma_scramble_inverse, lemma_scramble_len, scramble, scramble_words, unscramble,
    unscramble_words,
};
use crate::words::{
    byte_or_zero, join_word, lemma_pack_unpack, lemma_unpack_index, lemma_unpack_pack,
    lemma_word_of_octets, octet, pack, pack_words, unpack, unpack_words, word_at, word_count,
};
use vstd::prelude::*;
use vstd::utf8::encode_utf8;

verus! {

/// The length word holds the length modulo this number.
pub const LENGTH_MODULUS: u64 = 0x1_0000_0000;

/// The four key words of a key given as bytes.
pub open spec fn key_words(key: Seq<u8>) -> Seq<u32> {
    Seq::new(4, |j: int| word_at(key, j))
}

/// The words that are scrambled: the packed bytes, then the length.
pub open spec fn frame(bytes: Seq<u8>) -> Seq<u32> {
    pack(bytes).push((bytes.len() as int % (LENGTH_MODULUS as int)) as u32)
}

/// The bytes that a frame holds, where the words are a well-formed frame:
/// at least one data word, a length that ends in the last data word, and
/// zeros after the last byte.
pub open spec fn unframe(words: Seq<u32>) -> Option<Seq<u8>> {
    let n = words.len() - 1;
    let claimed = words[n] as int;
    let body = unpack(words.take(n));
    if words.len() >= 2 && 4 * (n - 1) < claimed <= 4 * n && (forall|i: int|
        claimed <= i < 4 * n ==> #[trigger] body[i] == 0) {
        Some(body.take(claimed))
    } else {
        None
    }
}

/// The encoding of `bytes` under `key`. The empty input has the empty
/// encoding.
pub open spec fn encode_spec(bytes: Seq<u8>, key: Seq<u8>) -> Seq<u8> {
    if bytes.len() == 0 {
        Seq::empty()
    } else {
        unpack(scramble(frame(bytes), key_words(key)))
    }
}

/// The bytes that `data` decodes to under `key`, if it is an encoding.
pub open spec fn decode_spec(data: Seq<u8>, key: Seq<u8>) -> Option<Seq<u8>> {
    if data.len() == 0 {
        Some(Seq::empty())
    } else if data.len() % 4 != 0 || data.len() < 8 {
        None
    } else {
        unframe(unscramble(pack(data), key_words(key)))
    }
}

/// An encoding is empty for the empty input. Otherwise it holds one word for
/// every four bytes begun and one for the length, so its length is a multiple
/// of four.
pub proof fn lemma_encode_len(bytes: Seq<u8>, key: Seq<u8>)
    ensures
        bytes.len() == 0 ==> encode_spec(bytes, key).len() == 0,
        bytes.len() > 0 ==> encode_spec(bytes, key).len() == 4 * (word_count(bytes.len()) + 1),
        encode_spec(bytes, key).len() % 4 == 0,
{
    lemma_scramble_len(frame(bytes), key_words(key));
}

/// A frame holds the bytes it was made of.
pub proof fn lemma_unframe_frame(bytes: Seq<u8>)
    requires
        0 < bytes.len() < LENGTH_MODULUS,
    ensures
        unframe(frame(bytes)) == Some(bytes),
{
    let words = frame(bytes);
    let n = words.len() - 1;
    assert(n == word_count(bytes.len()));
    assert(words.take(n) =~= pack(bytes));
    lemma_unpack_pack(bytes);
    let body = unpack(pack(bytes));
    assert(words[n] as int == bytes.len());
    assert forall|i: int| bytes.len() <= i < 4 * n implies #[trigger] body[i] == 0 by {
        assert(body[i] == byte_or_zero(bytes, i));
    }
    assert(body.take(bytes.len() as int) =~= bytes);
}

/// A byte of the bytes that a well-formed frame holds is the byte of the
/// data word at its place; past the end of the bytes the data words hold
/// zeros.
proof fn lemma_framed_byte(words: Seq<u32>, j: int, k: int)
    requires
        unframe(words) is Some,
        0 <= j < words.len() - 1,
        0 <= k < 4,
    ensures
        byte_or_zero(unframe(words)->0, 4 * j + k) == octet(words[j], k),
{
    let n = words.len() - 1;
    let claimed = words[n] as int;
    let data = words.take(n);
    let body = unpack(data);
    let i = 4 * j + k;
    lemma_unpack_index(data, j, k);
    assert(data[j] == words[j]);
    if i >= claimed {
        assert(body[i] == 0);
    } else {
        assert(body.take(claimed)[i] == body[i]);
    }
}

/// Words that are a well-formed frame are the frame of the bytes they hold.
pub proof fn lemma_frame_unframe(words: Seq<u32>)
    requires
        unframe(words) is Some,
    ensures
        frame(unframe(words)->0) == words,
        0 < unframe(words)->0.len() < LENGTH_MODULUS,
{
    let n = words.len() - 1;
    let claimed = words[n] as int;
    let bytes = unframe(words)->0;
    assert(bytes.len() == claimed);
    assert(word_count(bytes.len()) == n);
    assert forall|j: int| 0 <= j < n implies #[trigger] pack(bytes)[j] == words[j] by {
        lemma_framed_byte(words, j, 0);
        lemma_framed_byte(words, j, 1);
        lemma_framed_byte(words, j, 2);
        lemma_framed_byte(words, j, 3);
        lemma_word_of_octets(words[j]);
    }
    assert(frame(bytes) =~= words);
}

/// Bytes whose number is a multiple of four are the bytes of their words.
pub proof fn lemma_unpack_pack_aligned(data: Seq<u8>)
    requires
        data.len() % 4 == 0,
    ensures
        unpack(pack(data)) == data,
{
    lemma_unpack_pack(data);
    assert(unpack(pack(data)) =~= data);
}

/// Decoding an encoding under the same key gives the input back, for every
/// input that is shorter than the length word can count.
pub proof fn lemma_decode_encode(bytes: Seq<u8>, key: Seq<u8>)
    requires
        bytes.len() < LENGTH_MODULUS,
    ensures
        decode_spec(encode_spec(bytes, key), key) == Some(bytes),
{
    if bytes.len() == 0 {
        assert(bytes =~= Seq::empty());
    } else {
        let scrambled = scramble(frame(bytes), key_words(key));
        lemma_encode_len(bytes, key);
        lemma_scramble_len(frame(bytes), key_words(key));
        lemma_pack_unpack(scrambled);
        lemma_scramble_inverse(frame(bytes), key_words(key));
        lemma_unframe_frame(bytes);
    }
}

/// Whatever decodes to some bytes under a key is the encoding of those bytes
/// under that key: decoding accepts nothing else.
pub proof fn lemma_encode_decode(data: Seq<u8>, key: Seq<u8>)
    requires
        decode_spec(data, key) is Some,
    ensures
        encode_spec(decode_spec(data, key)->0, key) == data,
        decode_spec(data, key)->0.len() < LENGTH_MODULUS,
{
    if data.len() == 0 {
        assert(data =~= Seq::empty());
    } else {
        let words = unscramble(pack(data), key_words(key));
        lemma_frame_unframe(words);
        lemma_scramble_inverse(pack(data), key_words(key));
        lemma_unpack_pack_aligned(data);
    }
}

/// The byte at position `i`, or zero past the end.
fn byte_at(bytes: &[u8], i: usize) -> (b: u8)
    ensures
        b == byte_or_zero(bytes@, i as int),
{
    if i < bytes.len() {
        bytes[i]
    } else {
        0
    }
}

/// Derives the four key words from the bytes of a key.
pub fn derive_key(key: &[u8]) -> (words: [u32; 4])
    ensures
        words@ == key_words(key@),
{
    let w0 = join_word(byte_at(key, 0), byte_at(key, 1), byte_at(key, 2), byte_at(key, 3));
    let w1 = join_word(byte_at(key, 4), byte_at(key, 5), byte_at(key, 6), byte_at(key, 7));
    let w2 = join_word(byte_at(key, 8), byte_at(key, 9), byte_at(key, 10), byte_at(key, 11));
    let w3 = join_word(byte_at(key, 12), byte_at(key, 13), byte_at(key, 14), byte_at(key, 15));
    let words: [u32; 4] = [w0, w1, w2, w3];
    assert(words@ =~= key_words(key@));
    words
}

/// Encodes `bytes` under `key`.
///
/// The result depends on nothing but the two arguments, and its length is a
/// multiple of four.
pub fn encode(bytes: &[u8], key: &str) -> (out: Vec<u8>)
    ensures
        out@ == encode_spec(bytes@, encode_utf8(key@)),
        out@.len() % 4 == 0,
{
    proof {
        lemma_encode_len(bytes@, encode_utf8(key@));
    }
    if bytes.len() == 0 {
        return Vec::new();
    }
    let mut words = pack_words(bytes);
    let length: u32 = (bytes.len() as u64 % LENGTH_MODULUS) as u32;
    words.push(length);
    let key_words = derive_key(key.as_bytes());
    scramble_words(&mut words, &key_words);
    unpack_words(words.as_slice())
}

/// Decodes `data` under `key`: `Some` of the input whose encoding `data` is,
/// `None` where `data` is no encoding under that key.
pub fn decode(data: &[u8], key: &str) -> (out: Option<Vec<u8>>)
    ensures
        match out {
            Some(bytes) => decode_spec(data@, encode_utf8(key@)) == Some(bytes@),
            None => decode_spec(data@, encode_utf8(key@)) is None,
        },
{
    let len = data.len();
    if len == 0 {
        return Some(Vec::new());
    }
    if len % 4 != 0 || len < 8 {
        return None;
    }
    let mut words = pack_words(data);
    let key_words = derive_key(key.as_bytes());
    proof {
        lemma_scramble_len(words@, key_words@);
    }
    unscramble_words(&mut words, &key_words);
    let ghost plain = words@;
    let n = words.len() - 1;
    let room: usize = len - 4;
    let claimed: u32 = words[n];
    if claimed as u64 > room as u64 || claimed as u64 + 4 <= room as u64 {
        return None;
    }
    words.truncate(n);
    assert(words@ =~= plain.take(n as int));
    let mut body = unpack_words(words.as_slice());
    let count: usize = claimed as usize;
    let mut i: usize = count;
    while i < room
        invariant
            count <= i <= room,
            room == body@.len(),
            room == 4 * n,
            plain.len() == n + 1,
            count == plain[n as int],
            body@ == unpack(plain.take(n as int)),
            decode_spec(data@, encode_utf8(key@)) == unframe(plain),
            forall|t: int| count <= t < i ==> #[trigger] body@[t] == 0,
        decreases room - i,
    {
        if body[i] != 0 {
            return None;
        }
        i += 1;
    }
    body.truncate(count);
    Some(body)
}

} // verus!
