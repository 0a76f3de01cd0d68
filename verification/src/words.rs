//! Packing of bytes into 32-bit little-endian words and back.

use vstd::prelude::*;

verus! {

/// The word whose four bytes, least significant first, are `b0` to `b3`.
pub open spec fn word_of(b0: u8, b1: u8, b2: u8, b3: u8) -> u32 {
    (b0 as int + 0x100 * (b1 as int) + 0x1_0000 * (b2 as int) + 0x100_0000 * (b3 as int)) as u32
}

/// Byte `k` of `word`, counted from the least significant one.
pub open spec fn octet(word: u32, k: int) -> u8 {
    if k == 0 {
        (word % 0x100) as u8
    } else if k == 1 {
        ((word / 0x100) % 0x100) as u8
    } else if k == 2 {
        ((word / 0x1_0000) % 0x100) as u8
    } else {
        ((word / 0x100_0000) % 0x100) as u8
    }
}

/// The byte at position `i`, or zero past the end: the padding rule.
pub open spec fn byte_or_zero(bytes: Seq<u8>, i: int) -> u8 {
    if 0 <= i < bytes.len() {
        bytes[i]
    } else {
        0
    }
}

/// The word that starts at byte `4 * j`, zero-padded past the end.
pub open spec fn word_at(bytes: Seq<u8>, j: int) -> u32 {
    word_of(
        byte_or_zero(bytes, 4 * j),
        byte_or_zero(bytes, 4 * j + 1),
        byte_or_zero(bytes, 4 * j + 2),
        byte_or_zero(bytes, 4 * j + 3),
    )
}

/// Number of words that hold `len` bytes.
pub open spec fn word_count(len: nat) -> nat {
    ((len + 3) / 4) as nat
}

/// The bytes as little-endian words, the last one zero-padded.
pub open spec fn pack(bytes: Seq<u8>) -> Seq<u32> {
    Seq::new(word_count(bytes.len()), |j: int| word_at(bytes, j))
}

/// The words as bytes, four per word, least significant first.
pub open spec fn unpack(words: Seq<u32>) -> Seq<u8> {
    Seq::new(4 * words.len(), |i: int| octet(words[i / 4], i % 4))
}

/// Splitting a word into its bytes and joining them again gives the word.
pub proof fn lemma_word_of_octets(word: u32)
    ensures
        word_of(octet(word, 0), octet(word, 1), octet(word, 2), octet(word, 3)) == word,
{
}

/// Joining four bytes and splitting the word again gives the bytes.
pub proof fn lemma_octets_of_word(b0: u8, b1: u8, b2: u8, b3: u8)
    ensures
        octet(word_of(b0, b1, b2, b3), 0) == b0,
        octet(word_of(b0, b1, b2, b3), 1) == b1,
        octet(word_of(b0, b1, b2, b3), 2) == b2,
        octet(word_of(b0, b1, b2, b3), 3) == b3,
{
    let high: int = b3 as int;
    let upper: int = b2 as int + 0x100 * high;
    let middle: int = b1 as int + 0x100 * upper;
    let word: int = b0 as int + 0x100 * middle;
    assert(word == word_of(b0, b1, b2, b3));
    assert(word % 0x100 == b0 && word / 0x100 == middle);
    assert(middle % 0x100 == b1 && middle / 0x100 == upper);
    assert(upper % 0x100 == b2 && upper / 0x100 == high);
    assert(word / 0x1_0000 == upper);
    assert(word / 0x100_0000 == high);
}

/// Byte `k` of word `j` stands at position `4 * j + k` of the unpacked words.
pub proof fn lemma_unpack_index(words: Seq<u32>, j: int, k: int)
    requires
        0 <= j < words.len(),
        0 <= k < 4,
    ensures
        unpack(words)[4 * j + k] == octet(words[j], k),
{
    let i = 4 * j + k;
    assert(i / 4 == j && i % 4 == k);
}

/// Packing the bytes of a word sequence gives the words back.
pub proof fn lemma_pack_unpack(words: Seq<u32>)
    ensures
        pack(unpack(words)) == words,
{
    let bytes = unpack(words);
    assert(pack(bytes).len() == words.len());
    assert forall|j: int| 0 <= j < words.len() implies #[trigger] pack(bytes)[j] == words[j] by {
        lemma_word_of_octets(words[j]);
        lemma_unpack_index(words, j, 0);
        lemma_unpack_index(words, j, 1);
        lemma_unpack_index(words, j, 2);
        lemma_unpack_index(words, j, 3);
    }
    assert(pack(bytes) =~= words);
}

/// Unpacking the words of a byte sequence gives the bytes back, followed by
/// the zero padding up to a multiple of four.
pub proof fn lemma_unpack_pack(bytes: Seq<u8>)
    ensures
        unpack(pack(bytes)).len() == 4 * word_count(bytes.len()),
        forall|i: int|
            0 <= i < 4 * word_count(bytes.len()) ==> #[trigger] unpack(pack(bytes))[i]
                == byte_or_zero(bytes, i),
{
    let words = pack(bytes);
    assert forall|i: int| 0 <= i < 4 * word_count(bytes.len()) implies #[trigger] unpack(words)[i]
        == byte_or_zero(bytes, i) by {
        let j = i / 4;
        let k = i % 4;
        assert(i == 4 * j + k);
        lemma_octets_of_word(
            byte_or_zero(bytes, 4 * j),
            byte_or_zero(bytes, 4 * j + 1),
            byte_or_zero(bytes, 4 * j + 2),
            byte_or_zero(bytes, 4 * j + 3),
        );
        assert(words[j] == word_at(bytes, j));
        lemma_unpack_index(words, j, k);
    }
}

/// The byte of `bytes` at `base + k`, or zero where the sequence has ended.
fn padded_byte(bytes: &[u8], base: usize, k: usize) -> (b: u8)
    requires
        base <= bytes@.len(),
        k < 4,
    ensures
        b == byte_or_zero(bytes@, base + k),
{
    if k < bytes.len() - base {
        bytes[base + k]
    } else {
        0
    }
}

/// Joins four bytes, least significant first, into a word.
pub fn join_word(b0: u8, b1: u8, b2: u8, b3: u8) -> (word: u32)
    ensures
        word == word_of(b0, b1, b2, b3),
{
    (b0 as u32) + 0x100 * (b1 as u32) + 0x1_0000 * (b2 as u32) + 0x100_0000 * (b3 as u32)
}

/// Packs bytes into little-endian words, padding the last word with zeros.
pub fn pack_words(bytes: &[u8]) -> (words: Vec<u32>)
    ensures
        words@ == pack(bytes@),
{
    let len = bytes.len();
    let count: usize = if len % 4 == 0 {
        len / 4
    } else {
        len / 4 + 1
    };
    let mut words: Vec<u32> = Vec::new();
    let mut j: usize = 0;
    while j < count
        invariant
            len == bytes@.len(),
            count == word_count(len as nat),
            j <= count,
            words@.len() == j,
            forall|t: int| 0 <= t < j ==> #[trigger] words@[t] == word_at(bytes@, t),
        decreases count - j,
    {
        let base: usize = 4 * j;
        let word = join_word(
            padded_byte(bytes, base, 0),
            padded_byte(bytes, base, 1),
            padded_byte(bytes, base, 2),
            padded_byte(bytes, base, 3),
        );
        words.push(word);
        j += 1;
    }
    assert(words@ =~= pack(bytes@));
    words
}

/// Unpacks words into bytes, four per word, least significant first.
pub fn unpack_words(words: &[u32]) -> (bytes: Vec<u8>)
    ensures
        bytes@ == unpack(words@),
{
    let mut bytes: Vec<u8> = Vec::new();
    let mut j: usize = 0;
    while j < words.len()
        invariant
            j <= words@.len(),
            bytes@.len() == 4 * j,
            forall|i: int| 0 <= i < 4 * j ==> #[trigger] bytes@[i] == octet(words@[i / 4], i % 4),
        decreases words@.len() - j,
    {
        let word: u32 = words[j];
        bytes.push((word % 0x100) as u8);
        bytes.push(((word / 0x100) % 0x100) as u8);
        bytes.push(((word / 0x1_0000) % 0x100) as u8);
        bytes.push(((word / 0x100_0000) % 0x100) as u8);
        j += 1;
    }
    assert(bytes@ =~= unpack(words@));
    bytes
}

} // verus!
