//! The SHA-1 digest, as the gateway computes it over the request fields.
//!
//! The message is padded to a whole number of 64-byte blocks: one byte 0x80,
//! as few zero bytes as needed, and the message's length in bits as a 64-bit
//! big-endian number. Each block is then absorbed into a chain of five words
//! by eighty rounds. The digest is the final chain, big-endian.

use vstd::prelude::*;
use vstd::slice::slice_to_vec;

verus! {

/// The five chaining words.
#[derive(Clone, Copy, Debug)]
pub struct Chain {
    pub a: u32,
    pub b: u32,
    pub c: u32,
    pub d: u32,
    pub e: u32,
}

/// The chain before the first block.
pub open spec fn initial_chain() -> Chain {
    Chain { a: 0x6745_2301, b: 0xEFCD_AB89, c: 0x98BA_DCFE, d: 0x1032_5476, e: 0xC3D2_E1F0 }
}

/// Rotation to the left by one bit.
pub open spec fn rotl1(x: u32) -> u32 {
    (x << 1) | (x >> 31)
}

/// Rotation to the left by five bits.
pub open spec fn rotl5(x: u32) -> u32 {
    (x << 5) | (x >> 27)
}

/// Rotation to the left by thirty bits.
pub open spec fn rotl30(x: u32) -> u32 {
    (x << 30) | (x >> 2)
}

/// The logical function of round `t`.
pub open spec fn round_function(t: int, b: u32, c: u32, d: u32) -> u32 {
    if t < 20 {
        (b & c) | (!b & d)
    } else if t < 40 {
        b ^ c ^ d
    } else if t < 60 {
        (b & c) | (b & d) | (c & d)
    } else {
        b ^ c ^ d
    }
}

/// The constant of round `t`.
pub open spec fn round_constant(t: int) -> u32 {
    if t < 20 {
        0x5A82_7999
    } else if t < 40 {
        0x6ED9_EBA1
    } else if t < 60 {
        0x8F1B_BCDC
    } else {
        0xCA62_C1D6
    }
}

/// The word whose four bytes, most significant first, are `b0` to `b3`.
pub open spec fn be_word(b0: u8, b1: u8, b2: u8, b3: u8) -> u32 {
    (0x100_0000 * (b0 as int) + 0x1_0000 * (b1 as int) + 0x100 * (b2 as int) + b3 as int) as u32
}

/// The four bytes of a word, most significant first.
pub open spec fn be_bytes(x: u32) -> Seq<u8> {
    seq![
        ((x / 0x100_0000) % 0x100) as u8,
        ((x / 0x1_0000) % 0x100) as u8,
        ((x / 0x100) % 0x100) as u8,
        (x % 0x100) as u8,
    ]
}

/// Word `t` of a block, for `t` below sixteen.
pub open spec fn block_word(block: Seq<u8>, t: int) -> u32 {
    be_word(block[4 * t], block[4 * t + 1], block[4 * t + 2], block[4 * t + 3])
}

/// Word `t` of the message schedule of a block.
pub open spec fn schedule(block: Seq<u8>, t: int) -> u32
    decreases t,
{
    if t < 16 {
        block_word(block, t)
    } else {
        rotl1(
            schedule(block, t - 3) ^ schedule(block, t - 8) ^ schedule(block, t - 14) ^ schedule(
                block,
                t - 16,
            ),
        )
    }
}

/// Round `t` applied to the working chain `s`, with schedule word `w`.
pub open spec fn round(s: Chain, t: int, w: u32) -> Chain {
    Chain {
        a: rotl5(s.a).wrapping_add(round_function(t, s.b, s.c, s.d)).wrapping_add(
            s.e,
        ).wrapping_add(round_constant(t)).wrapping_add(w),
        b: s.a,
        c: rotl30(s.b),
        d: s.c,
        e: s.d,
    }
}

/// The first `t` rounds of a block applied to `s`.
pub open spec fn rounds(s: Chain, block: Seq<u8>, t: nat) -> Chain
    decreases t,
{
    if t == 0 {
        s
    } else {
        round(rounds(s, block, (t - 1) as nat), t - 1, schedule(block, t - 1))
    }
}

/// The chain after a block has been absorbed into `h`.
pub open spec fn compress(h: Chain, block: Seq<u8>) -> Chain {
    let s = rounds(h, block, 80);
    Chain {
        a: h.a.wrapping_add(s.a),
        b: h.b.wrapping_add(s.b),
        c: h.c.wrapping_add(s.c),
        d: h.d.wrapping_add(s.d),
        e: h.e.wrapping_add(s.e),
    }
}

/// Block `i` of a padded message.
pub open spec fn block_of(padded: Seq<u8>, i: int) -> Seq<u8> {
    padded.subrange(64 * i, 64 * i + 64)
}

/// The chain after the first `n` blocks of a padded message.
pub open spec fn absorb(padded: Seq<u8>, n: nat) -> Chain
    decreases n,
{
    if n == 0 {
        initial_chain()
    } else {
        compress(absorb(padded, (n - 1) as nat), block_of(padded, n - 1))
    }
}

/// Number of zero bytes in the padding of a message of `len` bytes.
pub open spec fn zero_fill(len: nat) -> nat {
    ((119 - (len % 64)) % 64) as nat
}

/// The length in bits of a message of `len` bytes, modulo 2^64.
pub open spec fn bit_length(len: nat) -> u64 {
    (8 * (len % 0x2000_0000_0000_0000)) as u64
}

/// The eight bytes of a 64-bit number, most significant first.
pub open spec fn length_bytes(bits: u64) -> Seq<u8> {
    seq![
        ((bits / 0x100_0000_0000_0000) % 0x100) as u8,
        ((bits / 0x1_0000_0000_0000) % 0x100) as u8,
        ((bits / 0x100_0000_0000) % 0x100) as u8,
        ((bits / 0x1_0000_0000) % 0x100) as u8,
        ((bits / 0x100_0000) % 0x100) as u8,
        ((bits / 0x1_0000) % 0x100) as u8,
        ((bits / 0x100) % 0x100) as u8,
        (bits % 0x100) as u8,
    ]
}

/// The padded message.
pub open spec fn padded(message: Seq<u8>) -> Seq<u8> {
    message.push(0x80) + Seq::new(zero_fill(message.len()), |i: int| 0u8) + length_bytes(
        bit_length(message.len()),
    )
}

/// The twenty bytes of a chain.
pub open spec fn chain_bytes(h: Chain) -> Seq<u8> {
    be_bytes(h.a) + be_bytes(h.b) + be_bytes(h.c) + be_bytes(h.d) + be_bytes(h.e)
}

/// The SHA-1 digest of a message.
pub open spec fn digest_spec(message: Seq<u8>) -> Seq<u8> {
    let p = padded(message);
    chain_bytes(absorb(p, p.len() / 64))
}

/// A padded message is a whole number of blocks.
pub proof fn lemma_padded_len(message: Seq<u8>)
    ensures
        padded(message).len() == message.len() + 9 + zero_fill(message.len()),
        padded(message).len() % 64 == 0,
{
    let len = message.len() as int;
    let rest = len % 64;
    let fill = zero_fill(message.len()) as int;
    assert(length_bytes(bit_length(message.len())).len() == 8);
    assert(fill == if rest < 56 {
        55 - rest
    } else {
        119 - rest
    });
    assert(len == 64 * (len / 64) + rest);
    if rest < 56 {
        assert(len + 9 + fill == 64 * (len / 64 + 1));
    } else {
        assert(len + 9 + fill == 64 * (len / 64 + 2));
    }
}

/// A digest has twenty bytes.
pub proof fn lemma_digest_len(message: Seq<u8>)
    ensures
        digest_spec(message).len() == 20,
{
    let p = padded(message);
    let h = absorb(p, p.len() / 64);
    assert(be_bytes(h.a).len() == 4);
    assert(be_bytes(h.b).len() == 4);
    assert(be_bytes(h.c).len() == 4);
    assert(be_bytes(h.d).len() == 4);
    assert(be_bytes(h.e).len() == 4);
}

fn join_be(b0: u8, b1: u8, b2: u8, b3: u8) -> (word: u32)
    ensures
        word == be_word(b0, b1, b2, b3),
{
    0x100_0000 * (b0 as u32) + 0x1_0000 * (b1 as u32) + 0x100 * (b2 as u32) + (b3 as u32)
}

fn round_function_of(t: usize, b: u32, c: u32, d: u32) -> (f: u32)
    ensures
        f == round_function(t as int, b, c, d),
{
    if t < 20 {
        (b & c) | (!b & d)
    } else if t < 40 {
        b ^ c ^ d
    } else if t < 60 {
        (b & c) | (b & d) | (c & d)
    } else {
        b ^ c ^ d
    }
}

fn round_constant_of(t: usize) -> (k: u32)
    ensures
        k == round_constant(t as int),
{
    if t < 20 {
        0x5A82_7999
    } else if t < 40 {
        0x6ED9_EBA1
    } else if t < 60 {
        0x8F1B_BCDC
    } else {
        0xCA62_C1D6
    }
}

/// Computes the message schedule of the block that starts at `offset`.
fn expand_block(buf: &Vec<u8>, offset: usize) -> (w: Vec<u32>)
    requires
        offset + 64 <= buf@.len(),
    ensures
        w@.len() == 80,
        forall|j: int|
            0 <= j < 80 ==> #[trigger] w@[j] == schedule(
                buf@.subrange(offset as int, offset + 64),
                j,
            ),
{
    let ghost block = buf@.subrange(offset as int, offset + 64);
    let total: usize = buf.len();
    let mut w: Vec<u32> = Vec::new();
    let mut t: usize = 0;
    while t < 80
        invariant
            t <= 80,
            total == buf@.len(),
            offset + 64 <= total,
            block == buf@.subrange(offset as int, offset + 64),
            w@.len() == t,
            forall|j: int| 0 <= j < t ==> #[trigger] w@[j] == schedule(block, j),
        decreases 80 - t,
    {
        let word: u32 = if t < 16 {
            let at: usize = offset + 4 * t;
            assert(block[4 * t] == buf@[at as int]);
            assert(block[4 * t + 1] == buf@[at + 1]);
            assert(block[4 * t + 2] == buf@[at + 2]);
            assert(block[4 * t + 3] == buf@[at + 3]);
            join_be(buf[at], buf[at + 1], buf[at + 2], buf[at + 3])
        } else {
            let x: u32 = w[t - 3] ^ w[t - 8] ^ w[t - 14] ^ w[t - 16];
            (x << 1) | (x >> 31)
        };
        w.push(word);
        t += 1;
    }
    w
}

/// Absorbs the block that starts at `offset` into the chain `h`.
fn compress_block(buf: &Vec<u8>, offset: usize, h: Chain) -> (out: Chain)
    requires
        offset + 64 <= buf@.len(),
    ensures
        out == compress(h, buf@.subrange(offset as int, offset + 64)),
{
    let ghost block = buf@.subrange(offset as int, offset + 64);
    let w = expand_block(buf, offset);
    let mut s = h;
    let mut t: usize = 0;
    while t < 80
        invariant
            t <= 80,
            w@.len() == 80,
            forall|j: int| 0 <= j < 80 ==> #[trigger] w@[j] == schedule(block, j),
            s == rounds(h, block, t as nat),
        decreases 80 - t,
    {
        let f = round_function_of(t, s.b, s.c, s.d);
        let k = round_constant_of(t);
        let a: u32 = ((s.a << 5) | (s.a >> 27)).wrapping_add(f).wrapping_add(s.e).wrapping_add(
            k,
        ).wrapping_add(w[t]);
        s = Chain { a, b: s.a, c: (s.b << 30) | (s.b >> 2), d: s.c, e: s.d };
        t += 1;
    }
    Chain {
        a: h.a.wrapping_add(s.a),
        b: h.b.wrapping_add(s.b),
        c: h.c.wrapping_add(s.c),
        d: h.d.wrapping_add(s.d),
        e: h.e.wrapping_add(s.e),
    }
}

/// Appends the four bytes of `x`, most significant first.
fn push_be(out: &mut Vec<u8>, x: u32)
    ensures
        final(out)@ == old(out)@ + be_bytes(x),
{
    out.push(((x / 0x100_0000) % 0x100) as u8);
    out.push(((x / 0x1_0000) % 0x100) as u8);
    out.push(((x / 0x100) % 0x100) as u8);
    out.push((x % 0x100) as u8);
    assert(out@ =~= old(out)@ + be_bytes(x));
}

/// Appends `count` zero bytes.
fn push_zeros(buf: &mut Vec<u8>, count: usize)
    ensures
        final(buf)@ == old(buf)@ + Seq::new(count as nat, |i: int| 0u8),
{
    let mut j: usize = 0;
    assert(buf@ =~= old(buf)@ + Seq::new(0, |i: int| 0u8));
    while j < count
        invariant
            j <= count,
            buf@ == old(buf)@ + Seq::new(j as nat, |i: int| 0u8),
        decreases count - j,
    {
        buf.push(0);
        j += 1;
        assert(buf@ =~= old(buf)@ + Seq::new(j as nat, |i: int| 0u8));
    }
}

/// Appends the eight bytes of `bits`, most significant first.
fn push_length(buf: &mut Vec<u8>, bits: u64)
    ensures
        final(buf)@ == old(buf)@ + length_bytes(bits),
{
    buf.push(((bits / 0x100_0000_0000_0000) % 0x100) as u8);
    buf.push(((bits / 0x1_0000_0000_0000) % 0x100) as u8);
    buf.push(((bits / 0x100_0000_0000) % 0x100) as u8);
    buf.push(((bits / 0x1_0000_0000) % 0x100) as u8);
    buf.push(((bits / 0x100_0000) % 0x100) as u8);
    buf.push(((bits / 0x1_0000) % 0x100) as u8);
    buf.push(((bits / 0x100) % 0x100) as u8);
    buf.push((bits % 0x100) as u8);
    assert(buf@ =~= old(buf)@ + length_bytes(bits));
}

/// Pads a message in place.
fn pad(buf: &mut Vec<u8>)
    ensures
        final(buf)@ == padded(old(buf)@),
{
    let len = buf.len();
    let rest: usize = len % 64;
    let fill: usize = if rest < 56 {
        55 - rest
    } else {
        119 - rest
    };
    assert(fill == zero_fill(len as nat));
    let bits: u64 = 8 * (len as u64 % 0x2000_0000_0000_0000);
    assert(bits == bit_length(len as nat));
    buf.push(0x80);
    push_zeros(buf, fill);
    push_length(buf, bits);
}

/// Computes the SHA-1 digest of `data`: twenty bytes.
pub fn digest(data: &[u8]) -> (out: Vec<u8>)
    ensures
        out@ == digest_spec(data@),
        out@.len() == 20,
{
    let mut buf = slice_to_vec(data);
    pad(&mut buf);
    proof {
        lemma_padded_len(data@);
    }
    let total: usize = buf.len();
    let blocks: usize = total / 64;
    let mut h = Chain {
        a: 0x6745_2301,
        b: 0xEFCD_AB89,
        c: 0x98BA_DCFE,
        d: 0x1032_5476,
        e: 0xC3D2_E1F0,
    };
    let mut i: usize = 0;
    while i < blocks
        invariant
            i <= blocks,
            total == buf@.len(),
            blocks == total / 64,
            h == absorb(buf@, i as nat),
        decreases blocks - i,
    {
        h = compress_block(&buf, 64 * i, h);
        i += 1;
    }
    let mut out: Vec<u8> = Vec::new();
    push_be(&mut out, h.a);
    push_be(&mut out, h.b);
    push_be(&mut out, h.c);
    push_be(&mut out, h.d);
    push_be(&mut out, h.e);
    assert(out@ =~= chain_bytes(h));
    out
}

} // verus!
