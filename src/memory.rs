//! Reading a byte range of a tracee's memory, which the kernel hands out one
//! word at a time: the word-aligned offsets to fetch, and the bytes that the
//! fetched words make.

use vstd::prelude::*;
use crate::sockaddr::WORD_LEN;

verus! {

/// `w` shifted right by `k` bytes.
pub open spec fn shifted(w: nat, k: nat) -> nat
    decreases k,
{
    if k == 0 {
        w
    } else {
        shifted(w, (k - 1) as nat) / 256
    }
}

/// Byte `k` of the word `w` in little-endian order, the machine's own.
pub open spec fn le_byte(w: u64, k: nat) -> u8 {
    (shifted(w as nat, k) % 256) as u8
}

/// The number of whole words in `len` bytes: the words that are read.
pub open spec fn word_count(len: nat) -> nat {
    len / 8
}

/// The bytes of a buffer of `len` bytes filled from `words`: byte `i` is
/// byte `i % 8` of word `i / 8`, and the bytes past the last whole word stay
/// zero.
pub open spec fn filled(words: Seq<u64>, len: nat) -> Seq<u8> {
    Seq::new(
        len,
        |i: int|
            if i < words.len() * 8 {
                le_byte(words[i / 8], (i % 8) as nat)
            } else {
                0u8
            },
    )
}

/// The addresses of the words to read for `len` bytes at `base`: `base`,
/// `base + 8`, ... one per whole word. `None` where one of them would pass
/// the end of the address space.
pub fn word_addresses(base: u64, len: usize) -> (r: Option<Vec<u64>>)
    ensures
        match r {
            Some(a) => a@.len() == word_count(len as nat) && forall|i: int|
                0 <= i < a@.len() ==> a@[i] == base + 8 * i,
            None => word_count(len as nat) > 0 && base + 8 * (word_count(len as nat) - 1)
                > u64::MAX,
        },
{
    let n = len / WORD_LEN;
    let mut a: Vec<u64> = Vec::new();
    let mut i: usize = 0;
    while i < n
        invariant
            n == word_count(len as nat),
            i <= n,
            a@.len() == i,
            forall|j: int| 0 <= j < i ==> a@[j] == base + 8 * j,
        decreases n - i,
    {
        if base > u64::MAX - 8 * (i as u64) {
            return None;
        }
        a.push(base + 8 * (i as u64));
        i += 1;
    }
    Some(a)
}

/// Lays the words read from the tracee out as a buffer of `len` bytes.
pub fn bytes_from_words(words: &Vec<u64>, len: usize) -> (r: Vec<u8>)
    requires
        words.len() == word_count(len as nat),
    ensures
        r@ == filled(words@, len as nat),
{
    let mut r: Vec<u8> = Vec::new();
    let mut i: usize = 0;
    while i < words.len()
        invariant
            words.len() == word_count(len as nat),
            i <= words.len(),
            r@.len() == 8 * i,
            forall|j: int| 0 <= j < r@.len() ==> r@[j] == filled(words@, len as nat)[j],
        decreases words.len() - i,
    {
        let w = words[i];
        let mut cur: u64 = w;
        let mut k: usize = 0;
        while k < 8
            invariant
                words.len() == word_count(len as nat),
                i < words.len(),
                w == words@[i as int],
                k <= 8,
                r@.len() == 8 * i + k,
                cur == shifted(w as nat, k as nat),
                forall|j: int| 0 <= j < r@.len() ==> r@[j] == filled(words@, len as nat)[j],
            decreases 8 - k,
        {
            proof {
                let j = 8 * i + k;
                assert(j / 8 == i as int && j % 8 == k as int) by (nonlinear_arith)
                    requires
                        j == 8 * i + k,
                        k < 8,
                ;
                assert(j < len) by (nonlinear_arith)
                    requires
                        j == 8 * i + k,
                        k < 8,
                        i < len / 8,
                ;
            }
            r.push((cur % 256) as u8);
            cur = cur / 256;
            k += 1;
        }
        i += 1;
    }
    while r.len() < len
        invariant
            words.len() == word_count(len as nat),
            8 * words.len() <= r@.len() <= len,
            forall|j: int| 0 <= j < r@.len() ==> r@[j] == filled(words@, len as nat)[j],
        decreases len - r.len(),
    {
        r.push(0);
    }
    assert(r@ =~= filled(words@, len as nat));
    r
}

} // verus!
