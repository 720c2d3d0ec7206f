//! Mailbox 0 sessions: the checksum rule, reading a request out of the
//! SRAM words, and the writes that answer or close a command.
//!
//! A `Mbox0Session` is a snapshot of the registers that a command brought
//! (its command code, its data length and the SRAM words). Ending a session
//! gives a `Mbox0Writeback`: the SRAM words, data length and command status
//! that the caller then writes to the hardware, in that order.

use crate::mailbox_messages::{CommandId, MailboxRequest};
use crate::wire::{
    bytes_sum, le_byte, lemma_bytes_sum_concat, lemma_le_bytes_of_word, lemma_words_le_bytes_push,
    words_le_bytes,
};
use vstd::prelude::*;

verus! {

/// Why a mailbox 0 command was not accepted.
#[derive(Clone, Copy, Debug, PartialEq, Eq, Structural)]
pub enum Mbox0Error {
    /// The command code is not the one the caller waited for.
    UnexpectedCommand,
    /// The data length is shorter than the request.
    DlenTooSmall,
    /// The checksum word does not match the data.
    ChecksumFailed,
}

/// The command status written back when a session ends.
#[derive(Clone, Copy, Debug, PartialEq, Eq, Structural)]
pub enum SessionStatus {
    /// A response is in the SRAM.
    DataReady,
    /// The command completed without response data.
    CmdComplete,
    /// The command failed.
    CmdFailure,
}

/// 2^32, the modulus of the checksum arithmetic.
pub open spec fn word_modulus() -> int {
    0x1_0000_0000
}

/// The sum of the four bytes of a word.
pub open spec fn word_byte_sum(w: u32) -> int {
    le_byte(w, 0) + le_byte(w, 1) + le_byte(w, 2) + le_byte(w, 3)
}

/// The sum of all the bytes of a word sequence.
pub open spec fn words_byte_sum(ws: Seq<u32>) -> int
    decreases ws.len(),
{
    if ws.len() == 0 {
        0
    } else {
        words_byte_sum(ws.drop_last()) + word_byte_sum(ws.last())
    }
}

/// The number of payload words that the checksum covers: the data after
/// the checksum word, rounded up to whole words, and no more words than the
/// SRAM holds after its first word.
pub open spec fn payload_word_count(dlen: int, sram_len: int) -> int {
    let payload_len = if dlen > 4 {
        dlen - 4
    } else {
        0
    };
    let words = (payload_len + 3) / 4;
    let avail = if sram_len > 0 {
        sram_len - 1
    } else {
        0
    };
    if words < avail {
        words
    } else {
        avail
    }
}

/// The byte sum that the checksum word must cancel: the bytes of the
/// command code and the bytes of the payload words.
pub open spec fn checksum_sum(cmd: u32, sram: Seq<u32>, dlen: int) -> int {
    word_byte_sum(cmd) + words_byte_sum(sram.subrange(1, 1 + payload_word_count(dlen, sram.len() as int)))
}

/// The checksum rule: the first SRAM word is the checksum; zero means that
/// the sender computed none; otherwise it must be the two's complement of
/// the byte sum, as a full 32-bit word.
pub open spec fn checksum_valid(cmd: u32, sram: Seq<u32>, dlen: int) -> bool {
    &&& sram.len() > 0
    &&& (sram[0] == 0 || sram[0] as int == (word_modulus() - checksum_sum(cmd, sram, dlen)
        % word_modulus()) % word_modulus())
}

/// Whether the data (`dlen` bytes, no more than the SRAM holds) covers a
/// request of `words` words.
pub open spec fn request_fits(dlen: int, sram_len: int, words: int) -> bool {
    let avail = if dlen < 4 * sram_len {
        dlen
    } else {
        4 * sram_len
    };
    avail >= 4 * words
}

/// Byte `k` of `data`, or zero past its end.
pub open spec fn padded_byte(data: Seq<u8>, k: int) -> int {
    if 0 <= k < data.len() {
        data[k] as int
    } else {
        0
    }
}

/// Word `i` of `data` read in little-endian order, padded with zero bytes.
pub open spec fn le_word(data: Seq<u8>, i: int) -> u32 {
    (padded_byte(data, 4 * i) + 0x100 * padded_byte(data, 4 * i + 1) + 0x1_0000 * padded_byte(
        data,
        4 * i + 2,
    ) + 0x100_0000 * padded_byte(data, 4 * i + 3)) as u32
}

/// The number of SRAM words that a response of `len` bytes fills.
pub open spec fn response_word_count(len: int, sram_len: int) -> int {
    let words = (len + 3) / 4;
    if words < sram_len {
        words
    } else {
        sram_len
    }
}

/// The SRAM words that hold a response: the data in little-endian words,
/// as many as fit.
pub open spec fn response_words(data: Seq<u8>, sram_len: int) -> Seq<u32> {
    Seq::new(response_word_count(data.len() as int, sram_len) as nat, |i: int| le_word(data, i))
}

/// The SRAM after `words` are written from its start.
pub open spec fn write_words(sram: Seq<u32>, words: Seq<u32>) -> Seq<u32> {
    Seq::new(sram.len(), |i: int| if i < words.len() { words[i] } else { sram[i] })
}

/// A response that fits in the SRAM reads back unchanged: the first
/// `data.len()` bytes of the SRAM after its words are written are `data`.
pub proof fn lemma_response_read_back(sram: Seq<u32>, data: Seq<u8>)
    requires
        data.len() <= 4 * sram.len(),
    ensures
        words_le_bytes(write_words(sram, response_words(data, sram.len() as int))).subrange(
            0,
            data.len() as int,
        ) == data,
{
    let words = response_words(data, sram.len() as int);
    let after = write_words(sram, words);
    let back = words_le_bytes(after).subrange(0, data.len() as int);
    assert forall|k: int| 0 <= k < data.len() implies #[trigger] back[k] == data[k] by {
        let i = k / 4;
        let j = k % 4;
        assert(4 * i + j == k && 0 <= j < 4);
        assert(i < (data.len() + 3) / 4);
        assert(i < sram.len());
        assert(after[i] == le_word(data, i));
        let b0 = padded_byte(data, 4 * i);
        let b1 = padded_byte(data, 4 * i + 1);
        let b2 = padded_byte(data, 4 * i + 2);
        let b3 = padded_byte(data, 4 * i + 3);
        lemma_le_bytes_of_word(b0, b1, b2, b3);
        assert(le_byte(after[i], j) == padded_byte(data, k));
    }
    assert(back =~= data);
}

/// The bytes of the response words are the data, then zero padding.
proof fn lemma_response_words_bytes(data: Seq<u8>, sram_len: int)
    ensures
        forall|k: int|
            0 <= k < 4 * response_words(data, sram_len).len() ==> #[trigger] words_le_bytes(
                response_words(data, sram_len),
            )[k] == if k < data.len() {
                data[k]
            } else {
                0u8
            },
{
    let words = response_words(data, sram_len);
    assert forall|k: int| 0 <= k < 4 * words.len() implies #[trigger] words_le_bytes(words)[k]
        == if k < data.len() {
        data[k]
    } else {
        0u8
    } by {
        let i = k / 4;
        let j = k % 4;
        assert(4 * i + j == k && 0 <= j < 4);
        assert(0 <= i < words.len());
        assert(words[i] == le_word(data, i));
        let b0 = padded_byte(data, 4 * i);
        let b1 = padded_byte(data, 4 * i + 1);
        let b2 = padded_byte(data, 4 * i + 2);
        let b3 = padded_byte(data, 4 * i + 3);
        lemma_le_bytes_of_word(b0, b1, b2, b3);
        assert(le_byte(words[i], j) == padded_byte(data, k));
    }
}

/// A sender that stores, as the first SRAM word, the negation modulo 2^32
/// of the byte sum of the command code and the payload passes the check.
pub proof fn lemma_negated_sum_passes(cmd: u32, sram: Seq<u32>, dlen: int)
    requires
        sram.len() > 0,
    ensures
        ({
            let chk = (word_modulus() - checksum_sum(cmd, sram, dlen) % word_modulus())
                % word_modulus();
            checksum_valid(cmd, sram.update(0, chk as u32), dlen)
        }),
{
    let total = checksum_sum(cmd, sram, dlen);
    let chk = (word_modulus() - total % word_modulus()) % word_modulus();
    let sealed = sram.update(0, chk as u32);
    let n = payload_word_count(dlen, sram.len() as int);
    assert(sealed.subrange(1, 1 + n) =~= sram.subrange(1, 1 + n));
    assert(checksum_sum(cmd, sealed, dlen) == total);
    assert(sealed[0] == chk);
    assert((chk + total) % word_modulus() == 0) by {
        vstd::arithmetic::div_mod::lemma_add_mod_noop(chk, total, word_modulus());
        vstd::arithmetic::div_mod::lemma_mod_twice(
            word_modulus() - total % word_modulus(),
            word_modulus(),
        );
        vstd::arithmetic::div_mod::lemma_add_mod_noop(
            word_modulus() - total % word_modulus(),
            total % word_modulus(),
            word_modulus(),
        );
    }
}

/// Taking one word out of a sequence takes its bytes out of the byte sum.
proof fn lemma_byte_sum_remove(ws: Seq<u32>, j: int)
    requires
        0 <= j < ws.len(),
    ensures
        words_byte_sum(ws) == words_byte_sum(ws.remove(j)) + word_byte_sum(ws[j]),
    decreases ws.len(),
{
    if j == ws.len() - 1 {
        assert(ws.remove(j) =~= ws.drop_last());
    } else {
        let r = ws.remove(j);
        assert(r.drop_last() =~= ws.drop_last().remove(j));
        assert(r.last() == ws.last());
        lemma_byte_sum_remove(ws.drop_last(), j);
    }
}

/// The byte sum of a word sequence does not depend on the order of its
/// words: sequences with the same words, as a multiset, have the same sum.
pub proof fn lemma_byte_sum_permutation(a: Seq<u32>, b: Seq<u32>)
    requires
        a.to_multiset() == b.to_multiset(),
    ensures
        words_byte_sum(a) == words_byte_sum(b),
    decreases a.len(),
{
    broadcast use vstd::seq_lib::group_to_multiset_ensures;

    if a.len() == 0 {
        assert(b.to_multiset().len() == 0);
        assert(b.len() == 0);
    } else {
        let x = a.last();
        let i = a.len() - 1;
        assert(a.remove(i) =~= a.drop_last());
        assert(a.contains(x)) by {
            assert(a[i] == x);
        }
        assert(a.to_multiset().count(x) > 0);
        assert(b.contains(x));
        let j = choose|j: int| 0 <= j < b.len() && b[j] == x;
        assert(a.drop_last().to_multiset() == a.to_multiset().remove(x));
        assert(b.remove(j).to_multiset() == b.to_multiset().remove(x));
        lemma_byte_sum_permutation(a.drop_last(), b.remove(j));
        lemma_byte_sum_remove(b, j);
    }
}

/// The checksum check reads only the checksum word and the payload words:
/// two SRAMs that agree on the checksum word, and have the same payload
/// words (in any order) at the same payload length, pass or fail together.
/// Words past the payload, and the order of the payload words, do not
/// matter.
pub proof fn lemma_checksum_reads_only_payload(
    cmd: u32,
    dlen: int,
    sram1: Seq<u32>,
    sram2: Seq<u32>,
)
    requires
        sram1.len() > 0,
        sram2.len() > 0,
        sram1[0] == sram2[0],
        payload_word_count(dlen, sram1.len() as int) == payload_word_count(
            dlen,
            sram2.len() as int,
        ),
        sram1.subrange(1, 1 + payload_word_count(dlen, sram1.len() as int)).to_multiset()
            == sram2.subrange(1, 1 + payload_word_count(dlen, sram2.len() as int)).to_multiset(),
    ensures
        checksum_valid(cmd, sram1, dlen) == checksum_valid(cmd, sram2, dlen),
{
    let n = payload_word_count(dlen, sram1.len() as int);
    lemma_byte_sum_permutation(sram1.subrange(1, 1 + n), sram2.subrange(1, 1 + n));
}

/// The byte sum of words is the sum of their little-endian bytes.
proof fn lemma_words_byte_sum_is_bytes_sum(ws: Seq<u32>)
    ensures
        words_byte_sum(ws) == bytes_sum(words_le_bytes(ws)),
    decreases ws.len(),
{
    if ws.len() == 0 {
        assert(words_le_bytes(ws) =~= Seq::<u8>::empty());
    } else {
        let w = ws.last();
        lemma_words_byte_sum_is_bytes_sum(ws.drop_last());
        assert(ws.drop_last().push(w) =~= ws);
        lemma_words_le_bytes_push(ws.drop_last(), w);
        let four = seq![le_byte(w, 0), le_byte(w, 1), le_byte(w, 2), le_byte(w, 3)];
        lemma_bytes_sum_concat(words_le_bytes(ws.drop_last()), four);
        let b0 = le_byte(w, 0);
        let b1 = le_byte(w, 1);
        let b2 = le_byte(w, 2);
        assert(four.drop_last() =~= seq![b0, b1, b2]);
        assert(seq![b0, b1, b2].drop_last() =~= seq![b0, b1]);
        assert(seq![b0, b1].drop_last() =~= seq![b0]);
        assert(seq![b0].drop_last() =~= Seq::<u8>::empty());
        assert(bytes_sum(Seq::<u8>::empty()) == 0);
        assert(seq![b0].last() == b0);
        assert(seq![b0, b1].last() == b1);
        assert(seq![b0, b1, b2].last() == b2);
        assert(four.last() == le_byte(w, 3));
        assert(bytes_sum(seq![b0]) == b0);
        assert(bytes_sum(seq![b0, b1]) == b0 + b1);
        assert(bytes_sum(seq![b0, b1, b2]) == b0 + b1 + b2);
        assert(bytes_sum(four) == word_byte_sum(w));
    }
}

/// The byte sum of a word put in front of a sequence.
proof fn lemma_words_byte_sum_prepend(c: u32, ws: Seq<u32>)
    ensures
        words_byte_sum(seq![c] + ws) == word_byte_sum(c) + words_byte_sum(ws),
    decreases ws.len(),
{
    if ws.len() == 0 {
        assert(seq![c] + ws =~= seq![c]);
        assert(seq![c].drop_last() =~= Seq::<u32>::empty());
        assert(seq![c].last() == c);
        assert(words_byte_sum(Seq::<u32>::empty()) == 0);
        assert(words_byte_sum(seq![c]) == word_byte_sum(c));
    } else {
        assert((seq![c] + ws).drop_last() =~= seq![c] + ws.drop_last());
        assert((seq![c] + ws).last() == ws.last());
        lemma_words_byte_sum_prepend(c, ws.drop_last());
        assert(words_byte_sum(seq![c] + ws) == words_byte_sum(seq![c] + ws.drop_last())
            + word_byte_sum(ws.last()));
    }
}

/// What the checksum check decides, stated on the bytes of the message: the
/// SRAM must hold a checksum word; a zero word passes; any other word
/// passes only if it equals, as a full 32-bit value, the two's complement
/// of the sum of the little-endian bytes of the command code followed by
/// the first `ceil((dlen - 4) / 4)` payload words (none when `dlen <= 4`,
/// and no more than the SRAM holds after the checksum word).
pub proof fn lemma_checksum_verdict(cmd: u32, sram: Seq<u32>, dlen: int)
    ensures
        checksum_valid(cmd, sram, dlen) <==> {
            &&& sram.len() > 0
            &&& sram[0] == 0 || ({
                let k = if dlen > 4 {
                    (dlen - 4 + 3) / 4
                } else {
                    0
                };
                let n = if k < sram.len() - 1 {
                    k
                } else {
                    sram.len() - 1
                };
                let s = bytes_sum(words_le_bytes(seq![cmd] + sram.subrange(1, 1 + n)));
                sram[0] as int == (0x1_0000_0000 - s % 0x1_0000_0000) % 0x1_0000_0000
            })
        },
{
    if sram.len() > 0 {
        let n = payload_word_count(dlen, sram.len() as int);
        let p = sram.subrange(1, 1 + n);
        lemma_words_byte_sum_prepend(cmd, p);
        lemma_words_byte_sum_is_bytes_sum(seq![cmd] + p);
    }
}

/// The checksum check never reads past the data: two SRAMs of the same
/// length that agree on the checksum word and on the first
/// `ceil((dlen - 4) / 4)` payload words (clipped to the SRAM) give the same
/// verdict, whatever the words after them hold.
pub proof fn lemma_checksum_ignores_words_past_dlen(
    cmd: u32,
    dlen: int,
    sram1: Seq<u32>,
    sram2: Seq<u32>,
)
    requires
        sram1.len() == sram2.len(),
        sram1.len() > 0,
        ({
            let k = if dlen > 4 {
                (dlen - 4 + 3) / 4
            } else {
                0
            };
            let n = if k < sram1.len() - 1 {
                k
            } else {
                sram1.len() - 1
            };
            sram1.subrange(0, 1 + n) == sram2.subrange(0, 1 + n)
        }),
    ensures
        checksum_valid(cmd, sram1, dlen) == checksum_valid(cmd, sram2, dlen),
{
    let k = if dlen > 4 {
        (dlen - 4 + 3) / 4
    } else {
        0
    };
    let n = if k < sram1.len() - 1 {
        k
    } else {
        sram1.len() - 1
    };
    assert(sram1[0] == sram1.subrange(0, 1 + n)[0]);
    assert(sram2[0] == sram2.subrange(0, 1 + n)[0]);
    assert(sram1.subrange(1, 1 + n) =~= sram1.subrange(0, 1 + n).subrange(1, 1 + n));
    assert(sram2.subrange(1, 1 + n) =~= sram2.subrange(0, 1 + n).subrange(1, 1 + n));
    lemma_checksum_verdict(cmd, sram1, dlen);
    lemma_checksum_verdict(cmd, sram2, dlen);
}

/// The registers that a session read when its command arrived.
pub struct Mbox0SessionView {
    pub cmd: u32,
    pub dlen: u32,
    pub sram: Seq<u32>,
}

/// One mailbox 0 command in progress.
pub struct Mbox0Session {
    cmd: CommandId,
    dlen: u32,
    sram: Vec<u32>,
}

/// The register writes that end a session: `sram_words` go to the start of
/// the SRAM, then `dlen` (where there is one) to the data length register,
/// then `status` to the command status register.
pub struct Mbox0Writeback {
    pub sram_words: Vec<u32>,
    pub dlen: Option<u32>,
    pub status: SessionStatus,
}

/// A refused command: the reason, and the writes that close its session.
pub struct Mbox0Rejection {
    pub error: Mbox0Error,
    pub writeback: Mbox0Writeback,
}

impl View for Mbox0Session {
    type V = Mbox0SessionView;

    closed spec fn view(&self) -> Mbox0SessionView {
        Mbox0SessionView {
            cmd: self.cmd.0,
            dlen: self.dlen,
            sram: self.sram@,
        }
    }
}

/// `(a % 2^32 + b) % 2^32 == (a + b) % 2^32`.
proof fn lemma_mod_add(a: int, b: int)
    ensures
        ((a % word_modulus()) + b) % word_modulus() == (a + b) % word_modulus(),
{
    vstd::arithmetic::div_mod::lemma_add_mod_noop(a, b, word_modulus());
    vstd::arithmetic::div_mod::lemma_add_mod_noop(a % word_modulus(), b, word_modulus());
    vstd::arithmetic::div_mod::lemma_mod_twice(a, word_modulus());
}

/// `sum` plus the bytes of `w`, modulo 2^32.
fn add_word_bytes(sum: u32, w: u32) -> (r: u32)
    ensures
        r == (sum + word_byte_sum(w)) % word_modulus(),
{
    let bytes: u32 = w % 0x100 + (w / 0x100) % 0x100 + (w / 0x1_0000) % 0x100 + w / 0x100_0000;
    assert(bytes == word_byte_sum(w));
    sum.wrapping_add(bytes)
}

impl Mbox0Session {
    /// A session for a command that just arrived.
    pub fn new(cmd: CommandId, dlen: u32, sram: Vec<u32>) -> (s: Self)
        ensures
            s@.cmd == cmd.0,
            s@.dlen == dlen,
            s@.sram == sram@,
    {
        Mbox0Session { cmd, dlen, sram }
    }

    /// The command code.
    pub fn cmd(&self) -> (c: CommandId)
        ensures
            c.0 == self@.cmd,
    {
        self.cmd
    }

    /// The data length in bytes.
    pub fn dlen(&self) -> (n: usize)
        ensures
            n == self@.dlen,
    {
        self.dlen as usize
    }

    /// Checks the checksum word against the command code and the payload.
    pub fn verify_checksum(&self) -> (ok: bool)
        ensures
            ok == checksum_valid(self@.cmd, self@.sram, self@.dlen as int),
            ok <==> {
                &&& self@.sram.len() > 0
                &&& self@.sram[0] == 0 || ({
                    let k = if self@.dlen > 4 {
                        (self@.dlen - 4 + 3) / 4
                    } else {
                        0
                    };
                    let n = if k < self@.sram.len() - 1 {
                        k
                    } else {
                        self@.sram.len() - 1
                    };
                    let s = bytes_sum(
                        words_le_bytes(seq![self@.cmd] + self@.sram.subrange(1, 1 + n)),
                    );
                    self@.sram[0] as int == (0x1_0000_0000 - s % 0x1_0000_0000) % 0x1_0000_0000
                })
            },
    {
        proof {
            lemma_checksum_verdict(self@.cmd, self@.sram, self@.dlen as int);
        }
        let sram = &self.sram;
        if sram.len() == 0 {
            return false;
        }
        let stored = sram[0];
        if stored == 0 {
            return true;
        }
        let mut sum = add_word_bytes(0, self.cmd.0);
        let dlen = self.dlen();
        let payload_len: usize = if dlen > 4 {
            dlen - 4
        } else {
            0
        };
        let whole: usize = payload_len / 4 + if payload_len % 4 != 0 {
            1usize
        } else {
            0usize
        };
        let avail: usize = sram.len() - 1;
        let payload_words: usize = if whole < avail {
            whole
        } else {
            avail
        };
        assert(payload_words == payload_word_count(self@.dlen as int, sram@.len() as int));
        let mut i: usize = 0;
        while i < payload_words
            invariant
                i <= payload_words < sram@.len(),
                sum == (word_byte_sum(self@.cmd) + words_byte_sum(sram@.subrange(1, 1 + i)))
                    % word_modulus(),
            decreases payload_words - i,
        {
            let word = sram[i + 1];
            proof {
                let s = sram@.subrange(1, 1 + i + 1);
                assert(s.drop_last() =~= sram@.subrange(1, 1 + i));
                assert(s.last() == word);
                lemma_mod_add(
                    word_byte_sum(self@.cmd) + words_byte_sum(sram@.subrange(1, 1 + i)),
                    word_byte_sum(word),
                );
            }
            sum = add_word_bytes(sum, word);
            i = i + 1;
        }
        let expected = 0u32.wrapping_sub(sum);
        proof {
            let total = checksum_sum(self@.cmd, sram@, self@.dlen as int);
            assert(sum == total % word_modulus());
            lemma_mod_add(total, stored as int);
            vstd::arithmetic::div_mod::lemma_add_mod_noop(stored as int, total, word_modulus());
        }
        stored == expected
    }

    /// Reads a request of type `T` from the start of the SRAM, where the
    /// data (as long as `dlen` says, and no longer than the SRAM) covers it.
    pub fn sram_as_request<T: MailboxRequest>(&self) -> (r: Option<T>)
        ensures
            r is Some <==> request_fits(
                self@.dlen as int,
                self@.sram.len() as int,
                T::spec_word_count() as int,
            ),
            r matches Some(t) ==> t.spec_words() == self@.sram.subrange(
                0,
                T::spec_word_count() as int,
            ),
            r is Some <==> (self@.dlen >= 4 * T::spec_word_count() && self@.sram.len()
                >= T::spec_word_count()),
    {
        let size = T::size_in_bytes();
        let words = size / 4;
        if self.dlen() >= size && self.sram.len() >= words {
            Some(T::from_words(self.sram.as_slice()))
        } else {
            None
        }
    }

    /// Writes `data` into the SRAM in little-endian words (the last word
    /// padded with zero bytes, and no more words than the SRAM holds), sets
    /// the data length to the length of `data`, and reports that data is
    /// ready.
    pub fn send_mbox0_response(self, data: &[u8]) -> (w: Mbox0Writeback)
        ensures
            w.sram_words@ == response_words(data@, self@.sram.len() as int),
            w.dlen == Some((data@.len() as int % word_modulus()) as u32),
            w.status == SessionStatus::DataReady,
            w.sram_words@.len() == if (data@.len() + 3) / 4 < self@.sram.len() {
                (data@.len() as int + 3) / 4
            } else {
                self@.sram.len() as int
            },
            forall|k: int|
                0 <= k < 4 * w.sram_words@.len() ==> #[trigger] words_le_bytes(w.sram_words@)[k]
                    == if k < data@.len() {
                    data@[k]
                } else {
                    0u8
                },
    {
        let session = self;
        let len: usize = data.len();
        let whole: usize = len / 4 + if len % 4 != 0 {
            1usize
        } else {
            0usize
        };
        let len_words: usize = if whole < session.sram.len() {
            whole
        } else {
            session.sram.len()
        };
        assert(len_words == response_word_count(len as int, session@.sram.len() as int));
        let mut words: Vec<u32> = Vec::new();
        let mut i: usize = 0;
        while i < len_words
            invariant
                len == data@.len(),
                len_words <= (len + 3) / 4,
                i <= len_words,
                words@.len() == i,
                forall|k: int| 0 <= k < i ==> #[trigger] words@[k] == le_word(data@, k),
            decreases len_words - i,
        {
            let byte_off: usize = i * 4;
            let mut word_bytes = [0u8; 4];
            let mut j: usize = 0;
            while j < 4
                invariant
                    len == data@.len(),
                    byte_off == 4 * i,
                    i < (len + 3) / 4,
                    j <= 4,
                    forall|k: int|
                        0 <= k < 4 ==> #[trigger] word_bytes@[k] == if k < j {
                            padded_byte(data@, byte_off + k)
                        } else {
                            0
                        },
                decreases 4 - j,
            {
                if byte_off + j < len {
                    word_bytes[j] = data[byte_off + j];
                }
                j = j + 1;
            }
            let word: u32 = word_bytes[0] as u32 + 0x100 * (word_bytes[1] as u32) + 0x1_0000 * (
            word_bytes[2] as u32) + 0x100_0000 * (word_bytes[3] as u32);
            words.push(word);
            i = i + 1;
        }
        assert(words@ =~= response_words(data@, session@.sram.len() as int));
        proof {
            lemma_response_words_bytes(data@, session@.sram.len() as int);
        }
        let dlen: u32 = (len as u64 % 0x1_0000_0000) as u32;
        Mbox0Writeback { sram_words: words, dlen: Some(dlen), status: SessionStatus::DataReady }
    }

    /// Reports that the command completed, with no response data.
    pub fn success(self) -> (w: Mbox0Writeback)
        ensures
            w.sram_words@.len() == 0,
            w.dlen is None,
            w.status == SessionStatus::CmdComplete,
    {
        Mbox0Writeback { sram_words: Vec::new(), dlen: None, status: SessionStatus::CmdComplete }
    }

    /// Closes the session without answering it: the command failed.
    pub fn release(self) -> (w: Mbox0Writeback)
        ensures
            w.sram_words@.len() == 0,
            w.dlen is None,
            w.status == SessionStatus::CmdFailure,
    {
        Mbox0Writeback { sram_words: Vec::new(), dlen: None, status: SessionStatus::CmdFailure }
    }

    /// Checks that the session holds a well-formed request of type `T`:
    /// the right command code, enough data, and a valid checksum, tested in
    /// that order.
    pub fn check_request<T: MailboxRequest>(&self) -> (r: Result<(), Mbox0Error>)
        ensures
            r == request_check(
                self@.cmd,
                self@.dlen as int,
                self@.sram,
                T::spec_command_id(),
                T::spec_word_count() as int,
            ),
            self@.cmd != T::spec_command_id() ==> r == Err::<(), Mbox0Error>(
                Mbox0Error::UnexpectedCommand,
            ),
            self@.cmd == T::spec_command_id() && self@.dlen < 4 * T::spec_word_count() ==> r
                == Err::<(), Mbox0Error>(Mbox0Error::DlenTooSmall),
            r is Ok ==> {
                &&& self@.cmd == T::spec_command_id()
                &&& self@.dlen >= 4 * T::spec_word_count()
                &&& self@.sram.len() > 0
                &&& self@.sram[0] == 0 || (self@.sram[0] + word_byte_sum(self@.cmd)
                    + words_byte_sum(self@.sram.subrange(1, 1 + payload_word_count(
                    self@.dlen as int,
                    self@.sram.len() as int,
                )))) % 0x1_0000_0000 == 0
            },
    {
        let expected = T::command_id();
        if self.cmd != expected {
            return Err(Mbox0Error::UnexpectedCommand);
        }
        if self.dlen() < T::size_in_bytes() {
            return Err(Mbox0Error::DlenTooSmall);
        }
        if !self.verify_checksum() {
            return Err(Mbox0Error::ChecksumFailed);
        }
        Ok(())
    }
}

/// A request is only accepted under its own command code, compared as a
/// full 32-bit value: any other code is refused as unexpected, before the
/// length and the checksum are looked at.
pub proof fn lemma_request_check_needs_exact_command(
    cmd: u32,
    dlen: int,
    sram: Seq<u32>,
    expected_cmd: u32,
    words: int,
)
    ensures
        request_check(cmd, dlen, sram, expected_cmd, words) is Ok ==> cmd == expected_cmd,
        cmd != expected_cmd ==> request_check(cmd, dlen, sram, expected_cmd, words) == Err::<
            (),
            Mbox0Error,
        >(Mbox0Error::UnexpectedCommand),
        request_check(cmd, dlen, sram, expected_cmd, words) is Ok ==> dlen >= 4 * words,
{
}

/// The outcome of checking a command against the request it should carry.
pub open spec fn request_check(
    cmd: u32,
    dlen: int,
    sram: Seq<u32>,
    expected_cmd: u32,
    words: int,
) -> Result<(), Mbox0Error> {
    if cmd != expected_cmd {
        Err(Mbox0Error::UnexpectedCommand)
    } else if dlen < 4 * words {
        Err(Mbox0Error::DlenTooSmall)
    } else if !checksum_valid(cmd, sram, dlen) {
        Err(Mbox0Error::ChecksumFailed)
    } else {
        Ok(())
    }
}

/// Accepts a command that carries a well-formed request of type `T`, or
/// closes its session with a failure status.
pub fn accept_request<T: MailboxRequest>(session: Mbox0Session) -> (r: Result<
    Mbox0Session,
    Mbox0Rejection,
>)
    ensures
        match request_check(
            session@.cmd,
            session@.dlen as int,
            session@.sram,
            T::spec_command_id(),
            T::spec_word_count() as int,
        ) {
            Ok(()) => r matches Ok(s) && s@ == session@,
            Err(e) => r matches Err(rej) && rej.error == e && rej.writeback.status
                == SessionStatus::CmdFailure && rej.writeback.dlen is None
                && rej.writeback.sram_words@.len() == 0,
        },
        r is Ok ==> session@.cmd == T::spec_command_id(),
        session@.cmd != T::spec_command_id() ==> (r matches Err(rej) && rej.error
            == Mbox0Error::UnexpectedCommand),
{
    match session.check_request::<T>() {
        Ok(()) => Ok(session),
        Err(error) => Err(Mbox0Rejection { error, writeback: session.release() }),
    }
}

} // verus!
