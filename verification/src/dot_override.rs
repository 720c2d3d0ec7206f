//! The DOT override challenge/response transport over mailbox 0.
//!
//! The host sends its VendorKey public keys (ECC P-384 and ML-DSA-87) with
//! `DOT_UNLOCK_CHALLENGE`; the firmware keeps that command open and answers
//! it with a challenge; the host then sends both signatures of the
//! challenge with `DOT_OVERRIDE`.
//!
//! Waiting for a command is the caller's work: each step takes the session
//! of the command that arrived and gives back, besides its result, the
//! writes of every session that it closes, in the order they are closed.

use crate::mailbox_messages::{
    MailboxRequest, OverrideChallengeRequest, OverrideResponse, DOT_OVERRIDE_CMD,
    DOT_UNLOCK_CHALLENGE_CMD, MLDSA87_PUB_KEY_SIZE_DWORDS, MLDSA87_SIGNATURE_SIZE_DWORDS,
    OVERRIDE_CHALLENGE_REQUEST_WORDS, OVERRIDE_RESPONSE_WORDS,
};
use crate::mbox0_helpers::{
    accept_request, lemma_response_read_back, request_check, request_fits, response_words,
    write_words, Mbox0Error, Mbox0Session, Mbox0SessionView, Mbox0Writeback, SessionStatus,
};
use crate::wire::{u32x12_to_bytes, words_le_bytes};
use vstd::prelude::*;

verus! {

/// `challenge_type` of an unlock challenge.
pub const CHALLENGE_TYPE_UNLOCK: u32 = 0x01;

/// `challenge_type` of an override challenge, the only one served here.
pub const CHALLENGE_TYPE_OVERRIDE: u32 = 0x02;

/// An ECC P-384 public key.
#[derive(Clone, Copy, Debug)]
pub struct EccP384PublicKey {
    pub x: [u32; 12],
    pub y: [u32; 12],
}

/// The public keys of an override challenge request.
#[derive(Clone, Copy, Debug)]
pub struct OverrideRequest {
    pub ecc_pub_key: EccP384PublicKey,
    pub mldsa_pub_key: [u32; MLDSA87_PUB_KEY_SIZE_DWORDS],
}

/// The signed answer to a challenge.
#[derive(Clone, Copy, Debug)]
pub struct OverrideChallengeResponse {
    pub ecc_pub_key: EccP384PublicKey,
    pub ecc_signature_r: [u8; 48],
    pub ecc_signature_s: [u8; 48],
    pub mldsa_signature: [u32; MLDSA87_SIGNATURE_SIZE_DWORDS],
    pub mldsa_pub_key: [u32; MLDSA87_PUB_KEY_SIZE_DWORDS],
}

/// Why a transport step failed.
#[derive(Clone, Copy, Debug, PartialEq, Eq, Structural)]
pub enum DotOverrideError {
    /// The command was refused by the mailbox checks.
    Mailbox(Mbox0Error),
    /// The SRAM is shorter than the request that `dlen` announces.
    SramTooSmall,
    /// The challenge request asks for another kind of challenge.
    UnsupportedChallengeType,
    /// There is no open challenge request to answer.
    NoActiveSession,
}

/// The result of a transport step and the writes of the sessions it closed.
pub struct TransportOutcome<T> {
    pub result: Result<T, DotOverrideError>,
    pub writebacks: Vec<Mbox0Writeback>,
}

/// `w` only writes the command status `status`.
pub open spec fn closes_with(w: Mbox0Writeback, status: SessionStatus) -> bool {
    &&& w.sram_words@.len() == 0
    &&& w.dlen is None
    &&& w.status == status
}

/// `ws` closes the session `s` (if there is one) without answering it.
pub open spec fn closes_only(ws: Seq<Mbox0Writeback>, s: Option<Mbox0SessionView>) -> bool {
    match s {
        Some(v) => ws.len() == 1 && closes_with(ws[0], SessionStatus::CmdFailure),
        None => ws.len() == 0,
    }
}

/// The decision on a `DOT_UNLOCK_CHALLENGE` command.
pub open spec fn override_request_check(s: Mbox0SessionView) -> Result<(), DotOverrideError> {
    let n = OVERRIDE_CHALLENGE_REQUEST_WORDS as int;
    match request_check(s.cmd, s.dlen as int, s.sram, DOT_UNLOCK_CHALLENGE_CMD, n) {
        Err(e) => Err(DotOverrideError::Mailbox(e)),
        Ok(()) => if !request_fits(s.dlen as int, s.sram.len() as int, n) {
            Err(DotOverrideError::SramTooSmall)
        } else if s.sram[1] != CHALLENGE_TYPE_OVERRIDE {
            Err(DotOverrideError::UnsupportedChallengeType)
        } else {
            Ok(())
        },
    }
}

/// The decision on a `DOT_OVERRIDE` command.
pub open spec fn override_response_check(s: Mbox0SessionView) -> Result<(), DotOverrideError> {
    let n = OVERRIDE_RESPONSE_WORDS as int;
    match request_check(s.cmd, s.dlen as int, s.sram, DOT_OVERRIDE_CMD, n) {
        Err(e) => Err(DotOverrideError::Mailbox(e)),
        Ok(()) => if !request_fits(s.dlen as int, s.sram.len() as int, n) {
            Err(DotOverrideError::SramTooSmall)
        } else {
            Ok(())
        },
    }
}

/// A challenge sent to an accepted challenge request reads back unchanged:
/// after its words are written, the first 48 bytes of the SRAM are the
/// challenge.
pub proof fn lemma_challenge_read_back(s: Mbox0SessionView, challenge: Seq<u8>)
    requires
        override_request_check(s) is Ok,
        challenge.len() == 48,
    ensures
        words_le_bytes(write_words(s.sram, response_words(challenge, s.sram.len() as int))).subrange(
            0,
            48,
        ) == challenge,
{
    lemma_response_read_back(s.sram, challenge);
}

/// On an SRAM that holds a whole `DOT_OVERRIDE` request, the transport
/// accepts exactly the commands that the mailbox request check accepts
/// (`accept_request::<OverrideResponse>`), and refuses the others for the
/// same reason.
pub proof fn lemma_response_check_matches_request_check(s: Mbox0SessionView)
    requires
        s.sram.len() >= OVERRIDE_RESPONSE_WORDS,
    ensures
        override_response_check(s) == match request_check(
            s.cmd,
            s.dlen as int,
            s.sram,
            OverrideResponse::spec_command_id(),
            OverrideResponse::spec_word_count() as int,
        ) {
            Ok(()) => Ok::<(), DotOverrideError>(()),
            Err(e) => Err(DotOverrideError::Mailbox(e)),
        },
{
}

/// On an SRAM that holds a whole `DOT_UNLOCK_CHALLENGE` request, the
/// transport accepts exactly the commands that the mailbox request check
/// accepts (`accept_request::<OverrideChallengeRequest>`) and that ask for
/// an override challenge.
pub proof fn lemma_request_check_matches_request_check(s: Mbox0SessionView)
    requires
        s.sram.len() >= OVERRIDE_CHALLENGE_REQUEST_WORDS,
    ensures
        override_request_check(s) == match request_check(
            s.cmd,
            s.dlen as int,
            s.sram,
            OverrideChallengeRequest::spec_command_id(),
            OverrideChallengeRequest::spec_word_count() as int,
        ) {
            Ok(()) => if s.sram[1] == CHALLENGE_TYPE_OVERRIDE {
                Ok::<(), DotOverrideError>(())
            } else {
                Err(DotOverrideError::UnsupportedChallengeType)
            },
            Err(e) => Err(DotOverrideError::Mailbox(e)),
        },
{
}

/// The DOT recovery transport: at most one challenge request is kept open
/// until it is answered.
pub struct Mbox0RecoveryTransport {
    active_session: Option<Mbox0Session>,
}

impl Mbox0RecoveryTransport {
    /// The open challenge request, if any.
    pub closed spec fn active(&self) -> Option<Mbox0SessionView> {
        match self.active_session {
            Some(s) => Some(s@),
            None => None,
        }
    }

    /// The transport's invariant: an open session holds an accepted
    /// override challenge request.
    #[verifier::type_invariant]
    spec fn inv(self) -> bool {
        match self.active_session {
            Some(s) => override_request_check(s@) is Ok,
            None => true,
        }
    }

    /// A transport with no open request.
    pub fn new() -> (t: Self)
        ensures
            t.active() is None,
    {
        Mbox0RecoveryTransport { active_session: None }
    }

    /// Reads the override challenge request of the command that arrived in
    /// `session`. When it is accepted, its session stays open (closing the
    /// one that was open before); otherwise it is closed at once.
    pub fn wait_for_override_request(&mut self, session: Mbox0Session) -> (out: TransportOutcome<
        OverrideRequest,
    >)
        ensures
            final(self).active() matches Some(s) ==> override_request_check(s) is Ok,
            out.result is Ok ==> session@.cmd == DOT_UNLOCK_CHALLENGE_CMD,
            session@.cmd != DOT_UNLOCK_CHALLENGE_CMD ==> (out.result matches Err(e) && e
                == DotOverrideError::Mailbox(Mbox0Error::UnexpectedCommand)),
            out.result is Err <==> override_request_check(session@) is Err,
            out.result matches Err(e) ==> {
                &&& override_request_check(session@) == Err::<(), DotOverrideError>(e)
                &&& final(self).active() == old(self).active()
                &&& closes_only(out.writebacks@, Some(session@))
            },
            out.result matches Ok(req) ==> {
                &&& final(self).active() == Some(session@)
                &&& closes_only(out.writebacks@, old(self).active())
                &&& req.ecc_pub_key.x@ == session@.sram.subrange(2, 14)
                &&& req.ecc_pub_key.y@ == session@.sram.subrange(14, 26)
                &&& req.mldsa_pub_key@ == session@.sram.subrange(26, 674)
            },
    {
        proof {
            use_type_invariant(&*self);
        }
        let mut writebacks: Vec<Mbox0Writeback> = Vec::new();
        let session = match accept_request::<OverrideChallengeRequest>(session) {
            Ok(s) => s,
            Err(rejection) => {
                writebacks.push(rejection.writeback);
                return TransportOutcome {
                    result: Err(DotOverrideError::Mailbox(rejection.error)),
                    writebacks,
                };
            },
        };
        let req = match session.sram_as_request::<OverrideChallengeRequest>() {
            Some(r) => r,
            None => {
                writebacks.push(session.release());
                return TransportOutcome { result: Err(DotOverrideError::SramTooSmall), writebacks };
            },
        };
        proof {
            assert(session@.sram[1] == req.spec_words()[1]);
        }
        if req.challenge_type != CHALLENGE_TYPE_OVERRIDE {
            writebacks.push(session.release());
            return TransportOutcome {
                result: Err(DotOverrideError::UnsupportedChallengeType),
                writebacks,
            };
        }
        let ecc_pub_key = EccP384PublicKey { x: req.ecc_pub_key_x.0, y: req.ecc_pub_key_y.0 };
        let mut previous: Option<Mbox0Session> = Some(session);
        core::mem::swap(&mut previous, &mut self.active_session);
        if let Some(p) = previous {
            writebacks.push(p.release());
        }
        proof {
            let w = req.spec_words();
            assert(req.ecc_pub_key_x.0@ =~= w.subrange(2, 14));
            assert(req.ecc_pub_key_y.0@ =~= w.subrange(14, 26));
            assert(req.mldsa_pub_key@ =~= w.subrange(26, 674));
        }
        TransportOutcome {
            result: Ok(OverrideRequest { ecc_pub_key, mldsa_pub_key: req.mldsa_pub_key }),
            writebacks,
        }
    }

    /// Answers the open challenge request with `challenge` and closes it.
    pub fn send_challenge(&mut self, challenge: &[u8; 48]) -> (out: TransportOutcome<()>)
        ensures
            final(self).active() is None,
            out.result is Ok <==> old(self).active() is Some,
            out.result matches Err(e) ==> e == DotOverrideError::NoActiveSession
                && out.writebacks@.len() == 0,
            old(self).active() matches Some(s) ==> {
                &&& out.writebacks@.len() == 1
                &&& out.writebacks@[0].sram_words@ == response_words(
                    challenge@,
                    s.sram.len() as int,
                )
                &&& out.writebacks@[0].dlen == Some(48u32)
                &&& out.writebacks@[0].status == SessionStatus::DataReady
            },
    {
        let mut writebacks: Vec<Mbox0Writeback> = Vec::new();
        let mut current: Option<Mbox0Session> = None;
        core::mem::swap(&mut current, &mut self.active_session);
        match current {
            None => TransportOutcome { result: Err(DotOverrideError::NoActiveSession), writebacks },
            Some(session) => {
                writebacks.push(session.send_mbox0_response(challenge.as_slice()));
                TransportOutcome { result: Ok(()), writebacks }
            },
        }
    }

    /// Reads the signed answer of the command that arrived in `session`,
    /// and closes that session: completed when the answer is accepted,
    /// failed otherwise. The open challenge request is left as it is.
    pub fn receive_override_response(&self, session: Mbox0Session) -> (out: TransportOutcome<
        OverrideChallengeResponse,
    >)
        ensures
            out.result is Ok ==> session@.cmd == DOT_OVERRIDE_CMD,
            session@.cmd != DOT_OVERRIDE_CMD ==> (out.result matches Err(e) && e
                == DotOverrideError::Mailbox(Mbox0Error::UnexpectedCommand)),
            out.result is Err <==> override_response_check(session@) is Err,
            out.result matches Err(e) ==> {
                &&& override_response_check(session@) == Err::<(), DotOverrideError>(e)
                &&& closes_only(out.writebacks@, Some(session@))
            },
            out.result matches Ok(resp) ==> {
                &&& out.writebacks@.len() == 1
                &&& closes_with(out.writebacks@[0], SessionStatus::CmdComplete)
                &&& resp.ecc_pub_key.x@ == session@.sram.subrange(1, 13)
                &&& resp.ecc_pub_key.y@ == session@.sram.subrange(13, 25)
                &&& resp.ecc_signature_r@ == words_le_bytes(session@.sram.subrange(25, 37))
                &&& resp.ecc_signature_s@ == words_le_bytes(session@.sram.subrange(37, 49))
                &&& resp.mldsa_pub_key@ == session@.sram.subrange(49, 697)
                &&& resp.mldsa_signature@ == session@.sram.subrange(697, 1854)
            },
    {
        let mut writebacks: Vec<Mbox0Writeback> = Vec::new();
        let session = match accept_request::<OverrideResponse>(session) {
            Ok(s) => s,
            Err(rejection) => {
                writebacks.push(rejection.writeback);
                return TransportOutcome {
                    result: Err(DotOverrideError::Mailbox(rejection.error)),
                    writebacks,
                };
            },
        };
        let resp = match session.sram_as_request::<OverrideResponse>() {
            Some(r) => r,
            None => {
                writebacks.push(session.release());
                return TransportOutcome { result: Err(DotOverrideError::SramTooSmall), writebacks };
            },
        };
        let ecc_pub_key = EccP384PublicKey { x: resp.ecc_pub_key_x.0, y: resp.ecc_pub_key_y.0 };
        let ecc_signature_r = u32x12_to_bytes(&resp.ecc_sig_r.0);
        let ecc_signature_s = u32x12_to_bytes(&resp.ecc_sig_s.0);
        writebacks.push(session.success());
        proof {
            let w = resp.spec_words();
            assert(resp.ecc_pub_key_x.0@ =~= w.subrange(1, 13));
            assert(resp.ecc_pub_key_y.0@ =~= w.subrange(13, 25));
            assert(resp.ecc_sig_r.0@ =~= w.subrange(25, 37));
            assert(resp.ecc_sig_s.0@ =~= w.subrange(37, 49));
            assert(resp.mldsa_pub_key@ =~= w.subrange(49, 697));
            assert(resp.mldsa_signature@ =~= w.subrange(697, 1854));
        }
        TransportOutcome {
            result: Ok(
                OverrideChallengeResponse {
                    ecc_pub_key,
                    ecc_signature_r,
                    ecc_signature_s,
                    mldsa_signature: resp.mldsa_signature,
                    mldsa_pub_key: resp.mldsa_pub_key,
                },
            ),
            writebacks,
        }
    }

    /// Closes the open challenge request, if any, as failed.
    pub fn abort_pending_session(&mut self) -> (writebacks: Vec<Mbox0Writeback>)
        ensures
            final(self).active() is None,
            closes_only(writebacks@, old(self).active()),
    {
        let mut writebacks: Vec<Mbox0Writeback> = Vec::new();
        let mut current: Option<Mbox0Session> = None;
        core::mem::swap(&mut current, &mut self.active_session);
        if let Some(session) = current {
            writebacks.push(session.release());
        }
        writebacks
    }
}

} // verus!
