//! Mailbox message identifiers and wire formats used by the mailbox 0
//! helpers. Every request is an array of 32-bit words; its layout is given
//! by `spec_words`, and `from_words` reads it back from the SRAM words.

use crate::wire::{u32x12_to_bytes, words_le_bytes};
use vstd::prelude::*;

verus! {

/// Number of 32-bit words of an ML-DSA-87 public key.
pub const MLDSA87_PUB_KEY_SIZE_DWORDS: usize = 648;

/// Number of 32-bit words of an ML-DSA-87 signature (4627 bytes, padded).
pub const MLDSA87_SIGNATURE_SIZE_DWORDS: usize = 1157;

/// A mailbox command identifier.
#[derive(Debug, Clone, Copy, PartialEq, Eq, Structural)]
pub struct CommandId(pub u32);

/// Code of `DOT_UNLOCK_CHALLENGE` (`DOTW`): the host sends its public keys
/// and asks for a challenge.
pub const DOT_UNLOCK_CHALLENGE_CMD: u32 = 0x444F_5457;

/// Code of `DOT_OVERRIDE` (`DOTX`): the host sends the signed challenge.
pub const DOT_OVERRIDE_CMD: u32 = 0x444F_5458;

impl CommandId {
    /// The `DOT_UNLOCK_CHALLENGE` command.
    pub fn dot_unlock_challenge() -> (id: CommandId)
        ensures
            id.0 == DOT_UNLOCK_CHALLENGE_CMD,
    {
        CommandId(DOT_UNLOCK_CHALLENGE_CMD)
    }

    /// The `DOT_OVERRIDE` command.
    pub fn dot_override() -> (id: CommandId)
        ensures
            id.0 == DOT_OVERRIDE_CMD,
    {
        CommandId(DOT_OVERRIDE_CMD)
    }
}

impl From<u32> for CommandId {
    fn from(value: u32) -> (r: Self) {
        CommandId(value)
    }
}

impl vstd::std_specs::convert::FromSpecImpl<u32> for CommandId {
    open spec fn obeys_from_spec() -> bool {
        true
    }

    open spec fn from_spec(value: u32) -> Self {
        CommandId(value)
    }
}

impl From<CommandId> for u32 {
    fn from(value: CommandId) -> (r: Self) {
        value.0
    }
}

impl vstd::std_specs::convert::FromSpecImpl<CommandId> for u32 {
    open spec fn obeys_from_spec() -> bool {
        true
    }

    open spec fn from_spec(value: CommandId) -> Self {
        value.0
    }
}

/// A message that the firmware sends back through the mailbox.
pub trait MailboxResponse {
}

/// A message that the host sends to the firmware through the mailbox.
///
/// Its wire form is `spec_word_count()` 32-bit words of SRAM, in the order
/// that `spec_words` gives.
pub trait MailboxRequest: Sized {
    /// What the firmware answers to this request.
    type Response: MailboxResponse;

    /// The command code that announces this request.
    spec fn spec_command_id() -> u32;

    /// The number of 32-bit words of the request.
    spec fn spec_word_count() -> nat;

    /// The words of the request, field after field.
    spec fn spec_words(&self) -> Seq<u32>;

    /// The command that announces this request.
    fn command_id() -> (id: CommandId)
        ensures
            id.0 == Self::spec_command_id(),
    ;

    /// The size of the request in bytes.
    fn size_in_bytes() -> (n: usize)
        ensures
            n == 4 * Self::spec_word_count(),
    ;

    /// Reads the request from the first words of `words`.
    fn from_words(words: &[u32]) -> (r: Self)
        requires
            words@.len() >= Self::spec_word_count(),
        ensures
            r.spec_words() == words@.subrange(0, Self::spec_word_count() as int),
    ;
}

/// Copies `words[start .. start + N]` into an array.
fn copy_words<const N: usize>(words: &[u32], start: usize) -> (a: [u32; N])
    requires
        start + N <= words@.len(),
    ensures
        a@ == words@.subrange(start as int, start + N),
{
    let mut a = [0u32; N];
    let len: usize = words.len();
    for i in 0..N
        invariant
            len == words@.len(),
            start + N <= len,
            a@.len() == N,
            forall|k: int| 0 <= k < i ==> #[trigger] a@[k] == words@[start + k],
    {
        let k: usize = start + i;
        a[i] = words[k];
    }
    assert(a@ =~= words@.subrange(start as int, start + N));
    a
}

/// The empty answer.
#[derive(Clone, Copy, Debug, Default)]
pub struct NoResponse {
    _reserved: [u8; 0],
}

impl MailboxResponse for NoResponse {
}

/// The 48-byte challenge that the firmware answers to `DOT_UNLOCK_CHALLENGE`.
#[derive(Clone, Copy, Debug)]
pub struct OverrideChallenge {
    pub challenge: [u8; 48],
}

impl MailboxResponse for OverrideChallenge {
}

/// A P-384 coordinate or scalar as twelve 32-bit words.
#[derive(Clone, Copy, Debug, Default, PartialEq, Eq)]
pub struct Ecc384Words(pub [u32; 12]);

impl Ecc384Words {
    /// The 48 bytes of the value: the words one after another, each in
    /// little-endian order.
    pub fn to_bytes(&self) -> (out: [u8; 48])
        ensures
            out@ == words_le_bytes(self.0@),
    {
        u32x12_to_bytes(&self.0)
    }
}

impl From<[u32; 12]> for Ecc384Words {
    fn from(value: [u32; 12]) -> (r: Self) {
        Ecc384Words(value)
    }
}

impl vstd::std_specs::convert::FromSpecImpl<[u32; 12]> for Ecc384Words {
    open spec fn obeys_from_spec() -> bool {
        true
    }

    open spec fn from_spec(value: [u32; 12]) -> Self {
        Ecc384Words(value)
    }
}

impl From<Ecc384Words> for [u32; 12] {
    fn from(value: Ecc384Words) -> (r: Self) {
        value.0
    }
}

impl vstd::std_specs::convert::FromSpecImpl<Ecc384Words> for [u32; 12] {
    open spec fn obeys_from_spec() -> bool {
        true
    }

    open spec fn from_spec(value: Ecc384Words) -> Self {
        value.0
    }
}

/// `DOT_UNLOCK_CHALLENGE`: the host's VendorKey public keys, and the kind of
/// challenge it asks for.
#[derive(Clone, Copy, Debug)]
pub struct OverrideChallengeRequest {
    pub chksum: u32,
    pub challenge_type: u32,
    pub ecc_pub_key_x: Ecc384Words,
    pub ecc_pub_key_y: Ecc384Words,
    pub mldsa_pub_key: [u32; MLDSA87_PUB_KEY_SIZE_DWORDS],
}

/// Number of words of an `OverrideChallengeRequest`.
pub const OVERRIDE_CHALLENGE_REQUEST_WORDS: usize = 674;

impl MailboxRequest for OverrideChallengeRequest {
    type Response = OverrideChallenge;

    open spec fn spec_command_id() -> u32 {
        DOT_UNLOCK_CHALLENGE_CMD
    }

    open spec fn spec_word_count() -> nat {
        OVERRIDE_CHALLENGE_REQUEST_WORDS as nat
    }

    open spec fn spec_words(&self) -> Seq<u32> {
        seq![self.chksum, self.challenge_type] + self.ecc_pub_key_x.0@ + self.ecc_pub_key_y.0@
            + self.mldsa_pub_key@
    }

    fn command_id() -> (id: CommandId) {
        CommandId::dot_unlock_challenge()
    }

    fn size_in_bytes() -> (n: usize) {
        4 * OVERRIDE_CHALLENGE_REQUEST_WORDS
    }

    fn from_words(words: &[u32]) -> (r: Self) {
        let r = OverrideChallengeRequest {
            chksum: words[0],
            challenge_type: words[1],
            ecc_pub_key_x: Ecc384Words(copy_words(words, 2)),
            ecc_pub_key_y: Ecc384Words(copy_words(words, 14)),
            mldsa_pub_key: copy_words(words, 26),
        };
        assert(r.spec_words() =~= words@.subrange(0, OVERRIDE_CHALLENGE_REQUEST_WORDS as int));
        r
    }
}

/// `DOT_OVERRIDE`: the host's public keys again, with its ECC and ML-DSA
/// signatures of the challenge.
#[derive(Clone, Copy, Debug)]
pub struct OverrideResponse {
    pub chksum: u32,
    pub ecc_pub_key_x: Ecc384Words,
    pub ecc_pub_key_y: Ecc384Words,
    pub ecc_sig_r: Ecc384Words,
    pub ecc_sig_s: Ecc384Words,
    pub mldsa_pub_key: [u32; MLDSA87_PUB_KEY_SIZE_DWORDS],
    pub mldsa_signature: [u32; MLDSA87_SIGNATURE_SIZE_DWORDS],
}

/// Number of words of an `OverrideResponse`.
pub const OVERRIDE_RESPONSE_WORDS: usize = 1854;

impl MailboxRequest for OverrideResponse {
    type Response = NoResponse;

    open spec fn spec_command_id() -> u32 {
        DOT_OVERRIDE_CMD
    }

    open spec fn spec_word_count() -> nat {
        OVERRIDE_RESPONSE_WORDS as nat
    }

    open spec fn spec_words(&self) -> Seq<u32> {
        seq![self.chksum] + self.ecc_pub_key_x.0@ + self.ecc_pub_key_y.0@ + self.ecc_sig_r.0@
            + self.ecc_sig_s.0@ + self.mldsa_pub_key@ + self.mldsa_signature@
    }

    fn command_id() -> (id: CommandId) {
        CommandId::dot_override()
    }

    fn size_in_bytes() -> (n: usize) {
        4 * OVERRIDE_RESPONSE_WORDS
    }

    fn from_words(words: &[u32]) -> (r: Self) {
        let r = OverrideResponse {
            chksum: words[0],
            ecc_pub_key_x: Ecc384Words(copy_words(words, 1)),
            ecc_pub_key_y: Ecc384Words(copy_words(words, 13)),
            ecc_sig_r: Ecc384Words(copy_words(words, 25)),
            ecc_sig_s: Ecc384Words(copy_words(words, 37)),
            mldsa_pub_key: copy_words(words, 49),
            mldsa_signature: copy_words(words, 697),
        };
        assert(r.spec_words() =~= words@.subrange(0, OVERRIDE_RESPONSE_WORDS as int));
        r
    }
}

} // verus!
