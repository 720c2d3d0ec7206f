use dot_mailbox::dot_override::{DotOverrideError, Mbox0RecoveryTransport, CHALLENGE_TYPE_OVERRIDE, CHALLENGE_TYPE_UNLOCK};
use dot_mailbox::mailbox_messages::{
    CommandId, OverrideResponse, DOT_OVERRIDE_CMD, DOT_UNLOCK_CHALLENGE_CMD,
};
use dot_mailbox::mbox0_helpers::{accept_request, Mbox0Error, Mbox0Session, SessionStatus};

fn seal(cmd: u32, payload: &[u32]) -> Vec<u32> {
    let mut sum = 0u32;
    for b in cmd.to_le_bytes() {
        sum = sum.wrapping_add(b as u32);
    }
    for w in payload {
        for b in w.to_le_bytes() {
            sum = sum.wrapping_add(b as u32);
        }
    }
    let mut sram = vec![0u32.wrapping_sub(sum)];
    sram.extend_from_slice(payload);
    sram
}

/// A `DOT_UNLOCK_CHALLENGE` session: keys x = 100.., y = 200.., ML-DSA key = 1000..
fn challenge_session(challenge_type: u32) -> Mbox0Session {
    let mut payload = vec![challenge_type];
    payload.extend((0..12u32).map(|i| 100 + i));
    payload.extend((0..12u32).map(|i| 200 + i));
    payload.extend((0..648u32).map(|i| 1000 + i));
    let sram = seal(DOT_UNLOCK_CHALLENGE_CMD, &payload);
    Mbox0Session::new(CommandId(DOT_UNLOCK_CHALLENGE_CMD), 4 * sram.len() as u32, sram)
}

/// A `DOT_OVERRIDE` session; signature r words are 0x0403_0201 + i.
fn override_session() -> Mbox0Session {
    let mut payload = Vec::new();
    payload.extend((0..12u32).map(|i| 100 + i));
    payload.extend((0..12u32).map(|i| 200 + i));
    payload.extend((0..12u32).map(|i| 0x0403_0201 + i));
    payload.extend((0..12u32).map(|i| 0x0807_0605 + i));
    payload.extend((0..648u32).map(|i| 1000 + i));
    payload.extend((0..1157u32).map(|i| 5000 + i));
    let sram = seal(DOT_OVERRIDE_CMD, &payload);
    assert_eq!(sram.len(), 1854);
    Mbox0Session::new(CommandId(DOT_OVERRIDE_CMD), 7416, sram)
}

#[test]
fn full_override_exchange() {
    let mut t = Mbox0RecoveryTransport::new();
    let out = t.wait_for_override_request(challenge_session(CHALLENGE_TYPE_OVERRIDE));
    assert!(out.writebacks.is_empty());
    let req = out.result.unwrap();
    assert_eq!(req.ecc_pub_key.x[0], 100);
    assert_eq!(req.ecc_pub_key.y[11], 211);
    assert_eq!(req.mldsa_pub_key[0], 1000);
    assert_eq!(req.mldsa_pub_key[647], 1647);

    let challenge: [u8; 48] = core::array::from_fn(|i| (i as u8) * 5 + 1);
    let out = t.send_challenge(&challenge);
    assert_eq!(out.result, Ok(()));
    assert_eq!(out.writebacks.len(), 1);
    let w = &out.writebacks[0];
    assert_eq!(w.dlen, Some(48));
    assert_eq!(w.status, SessionStatus::DataReady);
    let bytes: Vec<u8> = w.sram_words.iter().flat_map(|x| x.to_le_bytes()).collect();
    assert_eq!(&bytes[..], &challenge[..]);

    let out = t.receive_override_response(override_session());
    assert_eq!(out.writebacks.len(), 1);
    assert_eq!(out.writebacks[0].status, SessionStatus::CmdComplete);
    assert!(out.writebacks[0].sram_words.is_empty());
    assert_eq!(out.writebacks[0].dlen, None);
    let resp = out.result.unwrap();
    assert_eq!(resp.ecc_pub_key.x[0], 100);
    assert_eq!(resp.ecc_pub_key.y[0], 200);
    assert_eq!(&resp.ecc_signature_r[..4], &[1, 2, 3, 4]);
    assert_eq!(&resp.ecc_signature_r[44..48], &[0x0C, 0x02, 0x03, 0x04]);
    assert_eq!(&resp.ecc_signature_s[..4], &[5, 6, 7, 8]);
    assert_eq!(resp.mldsa_pub_key[647], 1647);
    assert_eq!(resp.mldsa_signature[0], 5000);
    assert_eq!(resp.mldsa_signature[1156], 6156);
}

#[test]
fn send_challenge_without_request_fails() {
    let mut t = Mbox0RecoveryTransport::new();
    let out = t.send_challenge(&[0u8; 48]);
    assert_eq!(out.result, Err(DotOverrideError::NoActiveSession));
    assert!(out.writebacks.is_empty());
}

#[test]
fn challenge_can_be_sent_only_once() {
    let mut t = Mbox0RecoveryTransport::new();
    assert!(t.wait_for_override_request(challenge_session(CHALLENGE_TYPE_OVERRIDE)).result.is_ok());
    assert!(t.send_challenge(&[1u8; 48]).result.is_ok());
    let again = t.send_challenge(&[1u8; 48]);
    assert_eq!(again.result, Err(DotOverrideError::NoActiveSession));
}

#[test]
fn abort_closes_the_open_request_as_failed() {
    let mut t = Mbox0RecoveryTransport::new();
    assert!(t.abort_pending_session().is_empty());
    assert!(t.wait_for_override_request(challenge_session(CHALLENGE_TYPE_OVERRIDE)).result.is_ok());
    let closed = t.abort_pending_session();
    assert_eq!(closed.len(), 1);
    assert_eq!(closed[0].status, SessionStatus::CmdFailure);
    assert_eq!(closed[0].dlen, None);
    assert_eq!(t.send_challenge(&[0u8; 48]).result, Err(DotOverrideError::NoActiveSession));
}

#[test]
fn a_new_request_closes_the_previous_one() {
    let mut t = Mbox0RecoveryTransport::new();
    assert!(t.wait_for_override_request(challenge_session(CHALLENGE_TYPE_OVERRIDE)).result.is_ok());
    let out = t.wait_for_override_request(challenge_session(CHALLENGE_TYPE_OVERRIDE));
    assert!(out.result.is_ok());
    assert_eq!(out.writebacks.len(), 1);
    assert_eq!(out.writebacks[0].status, SessionStatus::CmdFailure);
}

#[test]
fn refused_request_keeps_the_open_one() {
    let mut t = Mbox0RecoveryTransport::new();
    assert!(t.wait_for_override_request(challenge_session(CHALLENGE_TYPE_OVERRIDE)).result.is_ok());
    let out = t.wait_for_override_request(challenge_session(CHALLENGE_TYPE_UNLOCK));
    assert_eq!(out.result.err(), Some(DotOverrideError::UnsupportedChallengeType));
    assert_eq!(out.writebacks.len(), 1);
    assert_eq!(out.writebacks[0].status, SessionStatus::CmdFailure);
    assert!(t.send_challenge(&[0u8; 48]).result.is_ok());
}

#[test]
fn request_with_wrong_command_is_refused() {
    let mut t = Mbox0RecoveryTransport::new();
    let out = t.wait_for_override_request(override_session());
    assert_eq!(out.result.err(), Some(DotOverrideError::Mailbox(Mbox0Error::UnexpectedCommand)));
    assert_eq!(out.writebacks[0].status, SessionStatus::CmdFailure);
}

#[test]
fn request_with_short_dlen_is_refused() {
    let mut t = Mbox0RecoveryTransport::new();
    let mut payload = vec![CHALLENGE_TYPE_OVERRIDE];
    payload.extend(core::iter::repeat(0u32).take(672));
    let sram = seal(DOT_UNLOCK_CHALLENGE_CMD, &payload);
    let s = Mbox0Session::new(CommandId(DOT_UNLOCK_CHALLENGE_CMD), 2692, sram);
    let out = t.wait_for_override_request(s);
    assert_eq!(out.result.err(), Some(DotOverrideError::Mailbox(Mbox0Error::DlenTooSmall)));
}

#[test]
fn request_with_bad_checksum_is_refused() {
    let mut t = Mbox0RecoveryTransport::new();
    let mut payload = vec![CHALLENGE_TYPE_OVERRIDE];
    payload.extend(core::iter::repeat(3u32).take(672));
    let mut sram = seal(DOT_UNLOCK_CHALLENGE_CMD, &payload);
    sram[500] ^= 0x100;
    let s = Mbox0Session::new(CommandId(DOT_UNLOCK_CHALLENGE_CMD), 2696, sram);
    let out = t.wait_for_override_request(s);
    assert_eq!(out.result.err(), Some(DotOverrideError::Mailbox(Mbox0Error::ChecksumFailed)));
}

#[test]
fn request_longer_than_the_sram_is_refused() {
    let mut t = Mbox0RecoveryTransport::new();
    let s = Mbox0Session::new(CommandId(DOT_UNLOCK_CHALLENGE_CMD), 2696, vec![0, 2, 0]);
    let out = t.wait_for_override_request(s);
    assert_eq!(out.result.err(), Some(DotOverrideError::SramTooSmall));
    assert_eq!(out.writebacks[0].status, SessionStatus::CmdFailure);
}

#[test]
fn response_with_wrong_command_is_refused() {
    let t = Mbox0RecoveryTransport::new();
    let out = t.receive_override_response(challenge_session(CHALLENGE_TYPE_OVERRIDE));
    assert_eq!(out.result.err(), Some(DotOverrideError::Mailbox(Mbox0Error::UnexpectedCommand)));
    assert_eq!(out.writebacks.len(), 1);
    assert_eq!(out.writebacks[0].status, SessionStatus::CmdFailure);
}

#[test]
fn response_with_short_dlen_is_refused() {
    let t = Mbox0RecoveryTransport::new();
    let s = Mbox0Session::new(CommandId(DOT_OVERRIDE_CMD), 7415, vec![0; 1854]);
    let out = t.receive_override_response(s);
    assert_eq!(out.result.err(), Some(DotOverrideError::Mailbox(Mbox0Error::DlenTooSmall)));
}

#[test]
fn response_with_bad_checksum_is_refused() {
    let t = Mbox0RecoveryTransport::new();
    let mut sram = vec![0u32; 1854];
    sram[0] = 1;
    let s = Mbox0Session::new(CommandId(DOT_OVERRIDE_CMD), 7416, sram);
    let out = t.receive_override_response(s);
    assert_eq!(out.result.err(), Some(DotOverrideError::Mailbox(Mbox0Error::ChecksumFailed)));
}

#[test]
fn response_with_unchecked_checksum_is_accepted() {
    let t = Mbox0RecoveryTransport::new();
    let s = Mbox0Session::new(CommandId(DOT_OVERRIDE_CMD), 7416, vec![0u32; 1854]);
    let out = t.receive_override_response(s);
    let resp = out.result.unwrap();
    assert_eq!(resp.ecc_signature_r, [0u8; 48]);
    assert_eq!(out.writebacks[0].status, SessionStatus::CmdComplete);
}

#[test]
fn response_longer_than_the_sram_is_refused() {
    let t = Mbox0RecoveryTransport::new();
    let s = Mbox0Session::new(CommandId(DOT_OVERRIDE_CMD), 7416, vec![0u32; 1000]);
    let out = t.receive_override_response(s);
    assert_eq!(out.result.err(), Some(DotOverrideError::SramTooSmall));
}

#[test]
fn transport_and_request_check_agree_on_responses() {
    let t = Mbox0RecoveryTransport::new();
    // A valid response, a wrong command, a short length and a bad checksum.
    let cases: Vec<fn() -> Mbox0Session> = vec![
        || override_session(),
        || challenge_session(CHALLENGE_TYPE_OVERRIDE),
        || Mbox0Session::new(CommandId(DOT_OVERRIDE_CMD), 7000, vec![0; 1854]),
        || {
            let mut s = vec![0u32; 1854];
            s[0] = 3;
            Mbox0Session::new(CommandId(DOT_OVERRIDE_CMD), 7416, s)
        },
    ];
    for make in cases {
        let by_transport = t.receive_override_response(make()).result.map(|_| ());
        let by_check = accept_request::<OverrideResponse>(make()).map(|_| ()).map_err(|r| r.error);
        assert_eq!(by_transport, by_check.map_err(DotOverrideError::Mailbox));
    }
}
