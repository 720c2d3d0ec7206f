//! Little-endian byte views of 32-bit words, as the mailbox SRAM and the
//! wire structures use them.

use vstd::prelude::*;

verus! {

/// Byte `k` (0 = least significant) of the word `w`.
pub open spec fn le_byte(w: u32, k: int) -> u8 {
    if k == 0 {
        (w % 0x100) as u8
    } else if k == 1 {
        ((w / 0x100) % 0x100) as u8
    } else if k == 2 {
        ((w / 0x1_0000) % 0x100) as u8
    } else {
        (w / 0x100_0000) as u8
    }
}

/// The sum of the bytes of a byte sequence.
pub open spec fn bytes_sum(bs: Seq<u8>) -> int
    decreases bs.len(),
{
    if bs.len() == 0 {
        0
    } else {
        bytes_sum(bs.drop_last()) + bs.last()
    }
}

/// The byte sum of two sequences one after the other is the sum of their
/// byte sums.
pub proof fn lemma_bytes_sum_concat(a: Seq<u8>, b: Seq<u8>)
    ensures
        bytes_sum(a + b) == bytes_sum(a) + bytes_sum(b),
    decreases b.len(),
{
    if b.len() == 0 {
        assert(a + b =~= a);
    } else {
        assert((a + b).drop_last() =~= a + b.drop_last());
        assert((a + b).last() == b.last());
        lemma_bytes_sum_concat(a, b.drop_last());
    }
}

/// The bytes of a word sequence laid out one word after another, each word
/// in little-endian order.
pub open spec fn words_le_bytes(ws: Seq<u32>) -> Seq<u8> {
    Seq::new(4 * ws.len(), |i: int| le_byte(ws[i / 4], i % 4))
}

/// The bytes of a word sequence with one more word are its bytes followed
/// by the four bytes of that word.
pub proof fn lemma_words_le_bytes_push(ws: Seq<u32>, w: u32)
    ensures
        words_le_bytes(ws.push(w)) == words_le_bytes(ws) + seq![
            le_byte(w, 0),
            le_byte(w, 1),
            le_byte(w, 2),
            le_byte(w, 3),
        ],
{
    let lhs = words_le_bytes(ws.push(w));
    let rhs = words_le_bytes(ws) + seq![le_byte(w, 0), le_byte(w, 1), le_byte(w, 2), le_byte(w, 3)];
    assert forall|i: int| 0 <= i < lhs.len() implies lhs[i] == rhs[i] by {
        if i < 4 * ws.len() {
            assert(i / 4 < ws.len());
        } else {
            assert(i / 4 == ws.len());
            assert(i - 4 * ws.len() == i % 4);
        }
    }
    assert(lhs =~= rhs);
}

/// A word made of four bytes in little-endian order gives those bytes back.
pub proof fn lemma_le_bytes_of_word(b0: int, b1: int, b2: int, b3: int)
    requires
        0 <= b0 < 0x100,
        0 <= b1 < 0x100,
        0 <= b2 < 0x100,
        0 <= b3 < 0x100,
    ensures
        ({
            let w = (b0 + 0x100 * b1 + 0x1_0000 * b2 + 0x100_0000 * b3) as u32;
            &&& w == b0 + 0x100 * b1 + 0x1_0000 * b2 + 0x100_0000 * b3
            &&& le_byte(w, 0) == b0
            &&& le_byte(w, 1) == b1
            &&& le_byte(w, 2) == b2
            &&& le_byte(w, 3) == b3
        }),
{
    let v = b0 + 0x100 * b1 + 0x1_0000 * b2 + 0x100_0000 * b3;
    assert(v % 0x100 == b0 && (v / 0x100) % 0x100 == b1 && (v / 0x1_0000) % 0x100 == b2 && v
        / 0x100_0000 == b3) by (nonlinear_arith)
        requires
            v == b0 + 0x100 * b1 + 0x1_0000 * b2 + 0x100_0000 * b3,
            0 <= b0 < 0x100,
            0 <= b1 < 0x100,
            0 <= b2 < 0x100,
            0 <= b3 < 0x100,
    ;
}

/// A word is the sum of its little-endian bytes.
pub proof fn lemma_word_from_le_bytes(w: u32)
    ensures
        w == le_byte(w, 0) + 0x100 * le_byte(w, 1) + 0x1_0000 * le_byte(w, 2) + 0x100_0000
            * le_byte(w, 3),
{
    let v = w as int;
    assert(v == v % 0x100 + 0x100 * ((v / 0x100) % 0x100) + 0x1_0000 * ((v / 0x1_0000) % 0x100)
        + 0x100_0000 * (v / 0x100_0000)) by (nonlinear_arith)
        requires
            0 <= v < 0x1_0000_0000,
    ;
}

/// The little-endian bytes of a word sequence determine the words: the
/// byte view loses nothing.
pub proof fn lemma_words_le_bytes_injective(a: Seq<u32>, b: Seq<u32>)
    requires
        words_le_bytes(a) == words_le_bytes(b),
    ensures
        a == b,
{
    assert(a.len() == b.len()) by {
        assert(words_le_bytes(a).len() == 4 * a.len());
        assert(words_le_bytes(b).len() == 4 * b.len());
    }
    assert forall|i: int| 0 <= i < a.len() implies a[i] == b[i] by {
        assert forall|k: int| 0 <= k < 4 implies le_byte(a[i], k) == le_byte(b[i], k) by {
            let j = 4 * i + k;
            assert(j / 4 == i && j % 4 == k);
            assert(0 <= j < 4 * a.len());
            assert(words_le_bytes(a)[j] == le_byte(a[j / 4], j % 4));
            assert(words_le_bytes(b)[j] == le_byte(b[j / 4], j % 4));
            assert(words_le_bytes(a)[j] == words_le_bytes(b)[j]);
        }
        lemma_word_from_le_bytes(a[i]);
        lemma_word_from_le_bytes(b[i]);
    }
    assert(a =~= b);
}

/// Writes the little-endian bytes of `w` at `out[4 * i .. 4 * i + 4]`.
fn put_word_le<const N: usize>(out: &mut [u8; N], i: usize, w: u32)
    requires
        4 * i + 4 <= N,
    ensures
        forall|k: int|
            0 <= k < N ==> #[trigger] final(out)@[k] == if 4 * i <= k < 4 * i + 4 {
                le_byte(w, k - 4 * i)
            } else {
                old(out)@[k]
            },
{
    out[4 * i] = (w % 0x100) as u8;
    out[4 * i + 1] = ((w / 0x100) % 0x100) as u8;
    out[4 * i + 2] = ((w / 0x1_0000) % 0x100) as u8;
    out[4 * i + 3] = (w / 0x100_0000) as u8;
}

/// Converts twelve words to the 48 bytes that hold them in little-endian
/// order (the byte order of a P-384 scalar as the host sent it).
pub fn u32x12_to_bytes(words: &[u32; 12]) -> (out: [u8; 48])
    ensures
        out@ == words_le_bytes(words@),
{
    let mut out = [0u8; 48];
    for i in 0..12
        invariant
            forall|k: int| 0 <= k < 4 * i ==> #[trigger] out@[k] == le_byte(words@[k / 4], k % 4),
    {
        put_word_le(&mut out, i, words[i]);
    }
    assert(out@ =~= words_le_bytes(words@));
    out
}

} // verus!
