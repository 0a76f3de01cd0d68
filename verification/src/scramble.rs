//! The reversible word-scrambling pass of the gateway's wire format.
//!
//! A sequence of at least two words is scrambled in rounds. In each round
//! every word, from the first to the last, is increased by a mixture of its
//! two neighbours, the round's running sum and one of the four key words.
//! Since a word's increment never depends on the word itself, each step can
//! be undone, and so can the whole pass.

use vstd::prelude::*;

verus! {

/// The amount by which the running sum grows from one round to the next.
pub const DELTA: u32 = 0x9E37_79B9;

/// Number of rounds for a sequence of `n` words.
pub open spec fn round_count(n: nat) -> nat {
    (6 + 52int / (n as int)) as nat
}

/// The running sum of round `r`, rounds counted from one.
pub open spec fn round_sum(r: nat) -> u32
    decreases r,
{
    if r == 0 {
        0
    } else {
        round_sum((r - 1) as nat).wrapping_add(DELTA)
    }
}

/// The mixture of the left neighbour `z`, the right neighbour `y`, the
/// running sum and a key word.
pub open spec fn mix(z: u32, y: u32, sum: u32, k: u32) -> u32 {
    ((z >> 5) ^ (y << 2)).wrapping_add(((y >> 3) ^ (z << 4)) ^ (sum ^ y)).wrapping_add(k ^ z)
}

/// Position of the left neighbour of `p` in a ring of `n` words.
pub open spec fn left_of(p: int, n: int) -> int {
    if p == 0 {
        n - 1
    } else {
        p - 1
    }
}

/// Position of the right neighbour of `p` in a ring of `n` words.
pub open spec fn right_of(p: int, n: int) -> int {
    if p + 1 == n {
        0
    } else {
        p + 1
    }
}

/// Which of the four key words takes part at position `p`.
pub open spec fn key_slot(p: int, sum: u32) -> int {
    (((p % 4) as u32) ^ ((sum >> 2) & 3)) as int
}

/// The increment of the word at position `p`.
pub open spec fn increment(v: Seq<u32>, key: Seq<u32>, sum: u32, p: int) -> u32 {
    mix(v[left_of(p, v.len() as int)], v[right_of(p, v.len() as int)], sum, key[key_slot(p, sum)])
}

/// One step: the word at `p` grows by its increment.
pub open spec fn step(v: Seq<u32>, key: Seq<u32>, sum: u32, p: int) -> Seq<u32> {
    v.update(p, v[p].wrapping_add(increment(v, key, sum, p)))
}

/// One step undone: the word at `p` shrinks by its increment.
pub open spec fn unstep(v: Seq<u32>, key: Seq<u32>, sum: u32, p: int) -> Seq<u32> {
    v.update(p, v[p].wrapping_sub(increment(v, key, sum, p)))
}

/// The steps at positions `0` to `count - 1`, in that order.
pub open spec fn sweep(v: Seq<u32>, key: Seq<u32>, sum: u32, count: nat) -> Seq<u32>
    decreases count,
{
    if count == 0 {
        v
    } else {
        step(sweep(v, key, sum, (count - 1) as nat), key, sum, count - 1)
    }
}

/// The steps at positions `count - 1` down to `0` undone, in that order.
pub open spec fn unsweep(v: Seq<u32>, key: Seq<u32>, sum: u32, count: nat) -> Seq<u32>
    decreases count,
{
    if count == 0 {
        v
    } else {
        unsweep(unstep(v, key, sum, count - 1), key, sum, (count - 1) as nat)
    }
}

/// The first `r` rounds of the pass.
pub open spec fn scramble_rounds(v: Seq<u32>, key: Seq<u32>, r: nat) -> Seq<u32>
    decreases r,
{
    if r == 0 {
        v
    } else {
        sweep(scramble_rounds(v, key, (r - 1) as nat), key, round_sum(r), v.len())
    }
}

/// Rounds `r` down to one undone.
pub open spec fn unscramble_rounds(v: Seq<u32>, key: Seq<u32>, r: nat) -> Seq<u32>
    decreases r,
{
    if r == 0 {
        v
    } else {
        unscramble_rounds(unsweep(v, key, round_sum(r), v.len()), key, (r - 1) as nat)
    }
}

/// The whole pass. Fewer than two words are left as they are.
pub open spec fn scramble(v: Seq<u32>, key: Seq<u32>) -> Seq<u32> {
    if v.len() < 2 {
        v
    } else {
        scramble_rounds(v, key, round_count(v.len()))
    }
}

/// The whole pass undone.
pub open spec fn unscramble(v: Seq<u32>, key: Seq<u32>) -> Seq<u32> {
    if v.len() < 2 {
        v
    } else {
        unscramble_rounds(v, key, round_count(v.len()))
    }
}

/// Sweeping keeps the number of words.
pub proof fn lemma_sweep_len(v: Seq<u32>, key: Seq<u32>, sum: u32, count: nat)
    requires
        count <= v.len(),
    ensures
        sweep(v, key, sum, count).len() == v.len(),
    decreases count,
{
    if count > 0 {
        lemma_sweep_len(v, key, sum, (count - 1) as nat);
    }
}

/// Undoing a sweep keeps the number of words.
pub proof fn lemma_unsweep_len(v: Seq<u32>, key: Seq<u32>, sum: u32, count: nat)
    requires
        count <= v.len(),
    ensures
        unsweep(v, key, sum, count).len() == v.len(),
    decreases count,
{
    if count > 0 {
        lemma_unsweep_len(unstep(v, key, sum, count - 1), key, sum, (count - 1) as nat);
    }
}

/// Scrambling keeps the number of words.
pub proof fn lemma_scramble_rounds_len(v: Seq<u32>, key: Seq<u32>, r: nat)
    ensures
        scramble_rounds(v, key, r).len() == v.len(),
    decreases r,
{
    if r > 0 {
        lemma_scramble_rounds_len(v, key, (r - 1) as nat);
        lemma_sweep_len(scramble_rounds(v, key, (r - 1) as nat), key, round_sum(r), v.len());
    }
}

/// Unscrambling keeps the number of words.
pub proof fn lemma_unscramble_rounds_len(v: Seq<u32>, key: Seq<u32>, r: nat)
    ensures
        unscramble_rounds(v, key, r).len() == v.len(),
    decreases r,
{
    if r > 0 {
        lemma_unsweep_len(v, key, round_sum(r), v.len());
        lemma_unscramble_rounds_len(unsweep(v, key, round_sum(r), v.len()), key, (r - 1) as nat);
    }
}

/// The pass and its inverse keep the number of words.
pub proof fn lemma_scramble_len(v: Seq<u32>, key: Seq<u32>)
    ensures
        scramble(v, key).len() == v.len(),
        unscramble(v, key).len() == v.len(),
{
    lemma_scramble_rounds_len(v, key, round_count(v.len()));
    lemma_unscramble_rounds_len(v, key, round_count(v.len()));
}

/// A step and its inverse cancel, in either order.
pub proof fn lemma_step_cancels(v: Seq<u32>, key: Seq<u32>, sum: u32, p: int)
    requires
        v.len() >= 2,
        0 <= p < v.len(),
    ensures
        unstep(step(v, key, sum, p), key, sum, p) == v,
        step(unstep(v, key, sum, p), key, sum, p) == v,
{
    let m = increment(v, key, sum, p);
    assert(increment(step(v, key, sum, p), key, sum, p) == m);
    assert(increment(unstep(v, key, sum, p), key, sum, p) == m);
    assert(v[p].wrapping_add(m).wrapping_sub(m) == v[p]);
    assert(v[p].wrapping_sub(m).wrapping_add(m) == v[p]);
    assert(unstep(step(v, key, sum, p), key, sum, p) =~= v);
    assert(step(unstep(v, key, sum, p), key, sum, p) =~= v);
}

/// Undoing a sweep after the sweep gives the words back.
pub proof fn lemma_unsweep_sweep(v: Seq<u32>, key: Seq<u32>, sum: u32, count: nat)
    requires
        v.len() >= 2,
        count <= v.len(),
    ensures
        unsweep(sweep(v, key, sum, count), key, sum, count) == v,
    decreases count,
{
    if count > 0 {
        let before = sweep(v, key, sum, (count - 1) as nat);
        lemma_sweep_len(v, key, sum, (count - 1) as nat);
        lemma_step_cancels(before, key, sum, count - 1);
        lemma_unsweep_sweep(v, key, sum, (count - 1) as nat);
    }
}

/// Sweeping after an undone sweep gives the words back.
pub proof fn lemma_sweep_unsweep(v: Seq<u32>, key: Seq<u32>, sum: u32, count: nat)
    requires
        v.len() >= 2,
        count <= v.len(),
    ensures
        sweep(unsweep(v, key, sum, count), key, sum, count) == v,
    decreases count,
{
    if count > 0 {
        let after = unstep(v, key, sum, count - 1);
        lemma_sweep_unsweep(after, key, sum, (count - 1) as nat);
        lemma_step_cancels(v, key, sum, count - 1);
    }
}

/// Undoing `r` rounds after `r` rounds gives the words back.
pub proof fn lemma_unscramble_scramble_rounds(v: Seq<u32>, key: Seq<u32>, r: nat)
    requires
        v.len() >= 2,
    ensures
        unscramble_rounds(scramble_rounds(v, key, r), key, r) == v,
    decreases r,
{
    if r > 0 {
        let before = scramble_rounds(v, key, (r - 1) as nat);
        lemma_scramble_rounds_len(v, key, (r - 1) as nat);
        lemma_scramble_rounds_len(v, key, r);
        lemma_unsweep_sweep(before, key, round_sum(r), v.len());
        lemma_unscramble_scramble_rounds(v, key, (r - 1) as nat);
    }
}

/// `r` rounds after `r` undone rounds give the words back.
pub proof fn lemma_scramble_unscramble_rounds(v: Seq<u32>, key: Seq<u32>, r: nat)
    requires
        v.len() >= 2,
    ensures
        scramble_rounds(unscramble_rounds(v, key, r), key, r) == v,
    decreases r,
{
    if r > 0 {
        let after = unsweep(v, key, round_sum(r), v.len());
        lemma_unsweep_len(v, key, round_sum(r), v.len());
        lemma_unscramble_rounds_len(after, key, (r - 1) as nat);
        lemma_unscramble_rounds_len(v, key, r);
        lemma_scramble_unscramble_rounds(after, key, (r - 1) as nat);
        lemma_sweep_unsweep(v, key, round_sum(r), v.len());
    }
}

/// The pass is a bijection on word sequences: it and its inverse cancel, in
/// either order, for every key.
pub proof fn lemma_scramble_inverse(v: Seq<u32>, key: Seq<u32>)
    ensures
        unscramble(scramble(v, key), key) == v,
        scramble(unscramble(v, key), key) == v,
{
    if v.len() >= 2 {
        lemma_scramble_len(v, key);
        lemma_unscramble_scramble_rounds(v, key, round_count(v.len()));
        lemma_scramble_unscramble_rounds(v, key, round_count(v.len()));
    }
}

/// Computes the mixture of two neighbours, the running sum and a key word.
fn mix_words(z: u32, y: u32, sum: u32, k: u32) -> (m: u32)
    ensures
        m == mix(z, y, sum, k),
{
    let left: u32 = (z >> 5) ^ (y << 2);
    let right: u32 = ((y >> 3) ^ (z << 4)) ^ (sum ^ y);
    left.wrapping_add(right).wrapping_add(k ^ z)
}

/// Computes the increment of the word at position `p`.
fn increment_at(words: &Vec<u32>, key: &[u32; 4], sum: u32, p: usize) -> (m: u32)
    requires
        words@.len() >= 2,
        p < words@.len(),
    ensures
        m == increment(words@, key@, sum, p as int),
{
    let n = words.len();
    let z: u32 = words[if p == 0 {
        n - 1
    } else {
        p - 1
    }];
    let y: u32 = words[if p + 1 == n {
        0
    } else {
        p + 1
    }];
    let e: u32 = (sum >> 2) & 3;
    let a: u32 = (p % 4) as u32;
    assert((a ^ e) < 4) by (bit_vector)
        requires
            a < 4,
            e == (sum >> 2) & 3,
    ;
    let k: u32 = key[(a ^ e) as usize];
    mix_words(z, y, sum, k)
}

/// Runs one round over all the words.
fn sweep_words(words: &mut Vec<u32>, key: &[u32; 4], sum: u32)
    requires
        old(words)@.len() >= 2,
    ensures
        final(words)@ == sweep(old(words)@, key@, sum, old(words)@.len()),
{
    let ghost start = words@;
    let n = words.len();
    let mut p: usize = 0;
    while p < n
        invariant
            n == start.len(),
            n >= 2,
            p <= n,
            words@.len() == n,
            words@ == sweep(start, key@, sum, p as nat),
        decreases n - p,
    {
        let m = increment_at(words, key, sum, p);
        let grown: u32 = words[p].wrapping_add(m);
        words.set(p, grown);
        p += 1;
    }
}

/// Undoes one round over all the words.
fn unsweep_words(words: &mut Vec<u32>, key: &[u32; 4], sum: u32)
    requires
        old(words)@.len() >= 2,
    ensures
        final(words)@ == unsweep(old(words)@, key@, sum, old(words)@.len()),
{
    let ghost start = words@;
    let n = words.len();
    let mut p: usize = n;
    while p > 0
        invariant
            n == start.len(),
            n >= 2,
            p <= n,
            words@.len() == n,
            unsweep(words@, key@, sum, p as nat) == unsweep(start, key@, sum, n as nat),
        decreases p,
    {
        p -= 1;
        let m = increment_at(words, key, sum, p);
        let shrunk: u32 = words[p].wrapping_sub(m);
        words.set(p, shrunk);
    }
}

/// Scrambles the words in place.
pub fn scramble_words(words: &mut Vec<u32>, key: &[u32; 4])
    ensures
        final(words)@ == scramble(old(words)@, key@),
{
    let ghost start = words@;
    let n = words.len();
    if n < 2 {
        return ;
    }
    let total: usize = 6 + 52 / n;
    let mut sum: u32 = 0;
    let mut r: usize = 0;
    while r < total
        invariant
            n == start.len(),
            n >= 2,
            total == round_count(n as nat),
            r <= total,
            sum == round_sum(r as nat),
            words@.len() == n,
            words@ == scramble_rounds(start, key@, r as nat),
        decreases total - r,
    {
        sum = sum.wrapping_add(DELTA);
        r += 1;
        sweep_words(words, key, sum);
        proof {
            lemma_scramble_rounds_len(start, key@, r as nat);
        }
    }
}

/// Undoes the scrambling of the words in place.
pub fn unscramble_words(words: &mut Vec<u32>, key: &[u32; 4])
    ensures
        final(words)@ == unscramble(old(words)@, key@),
{
    let ghost start = words@;
    let n = words.len();
    if n < 2 {
        return ;
    }
    let total: usize = 6 + 52 / n;
    let mut sum: u32 = 0;
    let mut i: usize = 0;
    while i < total
        invariant
            i <= total,
            sum == round_sum(i as nat),
        decreases total - i,
    {
        sum = sum.wrapping_add(DELTA);
        i += 1;
    }
    let mut r: usize = total;
    while r > 0
        invariant
            n == start.len(),
            n >= 2,
            total == round_count(n as nat),
            r <= total,
            sum == round_sum(r as nat),
            words@.len() == n,
            unscramble_rounds(words@, key@, r as nat) == unscramble_rounds(
                start,
                key@,
                total as nat,
            ),
        decreases r,
    {
        proof {
            lemma_unsweep_len(words@, key@, sum, n as nat);
        }
        unsweep_words(words, key, sum);
        sum = sum.wrapping_sub(DELTA);
        r -= 1;
    }
}

} // verus!
