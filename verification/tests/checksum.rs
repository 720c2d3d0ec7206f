use dot_mailbox::mailbox_messages::{CommandId, OverrideChallengeRequest};
use dot_mailbox::mbox0_helpers::{accept_request, Mbox0Error, Mbox0Session, SessionStatus};

fn byte_sum(cmd: u32, payload: &[u32]) -> u32 {
    let mut sum = 0u32;
    for b in cmd.to_le_bytes() {
        sum = sum.wrapping_add(b as u32);
    }
    for w in payload {
        for b in w.to_le_bytes() {
            sum = sum.wrapping_add(b as u32);
        }
    }
    sum
}

fn sealed(cmd: u32, payload: &[u32]) -> Vec<u32> {
    let mut sram = vec![0u32.wrapping_sub(byte_sum(cmd, payload))];
    sram.extend_from_slice(payload);
    sram
}

#[test]
fn checksum_fails_on_empty_sram() {
    let s = Mbox0Session::new(CommandId(1), 100, Vec::new());
    assert!(!s.verify_checksum());
}

#[test]
fn checksum_zero_means_unchecked() {
    let s = Mbox0Session::new(CommandId(0x1234), 12, vec![0, 0xFFFF_FFFF, 0xFFFF_FFFF]);
    assert!(s.verify_checksum());
}

#[test]
fn checksum_covers_command_and_payload() {
    let cmd = 0x444F_5457;
    let payload = [0x0403_0201, 0xFFFF_FFFF, 7];
    let sram = sealed(cmd, &payload);
    assert_eq!(sram[0], 0u32.wrapping_sub(0x44 + 0x4F + 0x54 + 0x57 + 10 + 4 * 255 + 7));
    let s = Mbox0Session::new(CommandId(cmd), 16, sram.clone());
    assert!(s.verify_checksum());
    let wrong_cmd = Mbox0Session::new(CommandId(cmd + 1), 16, sram);
    assert!(!wrong_cmd.verify_checksum());
}

#[test]
fn checksum_detects_a_changed_payload_byte() {
    let cmd = 5;
    let payload = [1, 2, 3];
    let mut sram = sealed(cmd, &payload);
    sram[2] += 1;
    let s = Mbox0Session::new(CommandId(cmd), 16, sram);
    assert!(!s.verify_checksum());
}

#[test]
fn checksum_ignores_words_past_dlen() {
    let cmd = 5;
    let payload = [1, 2];
    let mut sram = sealed(cmd, &payload);
    sram.push(0xFFFF);
    let s = Mbox0Session::new(CommandId(cmd), 12, sram);
    assert!(s.verify_checksum());
}

#[test]
fn checksum_rounds_a_partial_word_up() {
    let cmd = 5;
    // dlen 9: four bytes of checksum and five of payload, so two payload words count.
    let payload = [1, 0x0100_0000];
    let sram = sealed(cmd, &payload);
    let s = Mbox0Session::new(CommandId(cmd), 9, sram.clone());
    assert!(s.verify_checksum());
    let short = Mbox0Session::new(CommandId(cmd), 8, sram);
    assert!(!short.verify_checksum());
}

#[test]
fn checksum_with_dlen_of_one_word_covers_only_the_command() {
    let cmd = 0x0101_0101;
    let sram = vec![0u32.wrapping_sub(4), 0xAAAA_AAAA];
    for dlen in [0u32, 3, 4] {
        let s = Mbox0Session::new(CommandId(cmd), dlen, sram.clone());
        assert!(s.verify_checksum());
    }
}

#[test]
fn checksum_payload_is_clipped_to_the_sram() {
    let cmd = 5;
    let payload = [1, 2];
    let sram = sealed(cmd, &payload);
    // dlen claims far more data than the SRAM holds.
    let s = Mbox0Session::new(CommandId(cmd), 4000, sram);
    assert!(s.verify_checksum());
}

#[test]
fn checksum_sum_wraps_modulo_2_pow_32() {
    let cmd = 0;
    let payload = vec![0xFFFF_FFFFu32; 5000];
    let sram = sealed(cmd, &payload);
    let s = Mbox0Session::new(CommandId(cmd), 4 + 4 * 5000, sram);
    assert!(s.verify_checksum());
}

#[test]
fn session_reports_command_and_length() {
    let s = Mbox0Session::new(CommandId(77), 1234, vec![1, 2, 3]);
    assert_eq!(s.cmd(), CommandId(77));
    assert_eq!(s.dlen(), 1234);
}

#[test]
fn sram_as_request_needs_dlen_and_sram() {
    let n = 674;
    let words: Vec<u32> = (0..n as u32).collect();
    let s = Mbox0Session::new(CommandId(0), 4 * n as u32, words.clone());
    let req = s.sram_as_request::<OverrideChallengeRequest>().unwrap();
    assert_eq!(req.challenge_type, 1);
    assert_eq!(req.mldsa_pub_key[647], 673);
    let short_dlen = Mbox0Session::new(CommandId(0), 4 * n as u32 - 1, words.clone());
    assert!(short_dlen.sram_as_request::<OverrideChallengeRequest>().is_none());
    let short_sram = Mbox0Session::new(CommandId(0), 4 * n as u32, words[..n - 1].to_vec());
    assert!(short_sram.sram_as_request::<OverrideChallengeRequest>().is_none());
}

#[test]
fn response_is_packed_little_endian_and_padded() {
    let s = Mbox0Session::new(CommandId(0), 0, vec![0xEEEE_EEEE; 4]);
    let w = s.send_mbox0_response(&[1, 2, 3, 4, 5, 6]);
    assert_eq!(w.sram_words, vec![0x0403_0201, 0x0000_0605]);
    assert_eq!(w.dlen, Some(6));
    assert_eq!(w.status, SessionStatus::DataReady);
}

#[test]
fn response_is_clipped_to_the_sram() {
    let s = Mbox0Session::new(CommandId(0), 0, vec![0; 2]);
    let data: Vec<u8> = (1..=12).collect();
    let w = s.send_mbox0_response(&data);
    assert_eq!(w.sram_words, vec![0x0403_0201, 0x0807_0605]);
    assert_eq!(w.dlen, Some(12));
}

#[test]
fn empty_response_writes_no_words() {
    let s = Mbox0Session::new(CommandId(0), 0, vec![0; 2]);
    let w = s.send_mbox0_response(&[]);
    assert!(w.sram_words.is_empty());
    assert_eq!(w.dlen, Some(0));
    assert_eq!(w.status, SessionStatus::DataReady);
}

#[test]
fn response_reads_back_from_the_sram() {
    let data: Vec<u8> = (0..48u8).map(|b| b.wrapping_mul(37)).collect();
    let mut sram = vec![0x5555_5555u32; 20];
    let s = Mbox0Session::new(CommandId(0), 0, sram.clone());
    let w = s.send_mbox0_response(&data);
    for (i, word) in w.sram_words.iter().enumerate() {
        sram[i] = *word;
    }
    let bytes: Vec<u8> = sram.iter().flat_map(|w| w.to_le_bytes()).collect();
    assert_eq!(&bytes[..data.len()], &data[..]);
    assert_eq!(w.dlen, Some(data.len() as u32));
}

#[test]
fn success_and_release_write_only_the_status() {
    let s = Mbox0Session::new(CommandId(0), 0, vec![1]);
    let w = s.success();
    assert!(w.sram_words.is_empty());
    assert_eq!(w.dlen, None);
    assert_eq!(w.status, SessionStatus::CmdComplete);
    let s = Mbox0Session::new(CommandId(0), 0, vec![1]);
    let w = s.release();
    assert!(w.sram_words.is_empty());
    assert_eq!(w.dlen, None);
    assert_eq!(w.status, SessionStatus::CmdFailure);
}

fn challenge_words(challenge_type: u32) -> Vec<u32> {
    let mut payload: Vec<u32> = (1..674u32).collect();
    payload[0] = challenge_type;
    sealed(0x444F_5457, &payload)
}

#[test]
fn accept_request_checks_command_first() {
    let s = Mbox0Session::new(CommandId(0x444F_5458), 0, Vec::new());
    let rej = accept_request::<OverrideChallengeRequest>(s).err().unwrap();
    assert_eq!(rej.error, Mbox0Error::UnexpectedCommand);
    assert_eq!(rej.writeback.status, SessionStatus::CmdFailure);
    assert_eq!(rej.writeback.dlen, None);
}

#[test]
fn accept_request_checks_length_second() {
    let mut sram = challenge_words(2);
    sram[0] = 1;
    let s = Mbox0Session::new(CommandId(0x444F_5457), 2695, sram);
    let rej = accept_request::<OverrideChallengeRequest>(s).err().unwrap();
    assert_eq!(rej.error, Mbox0Error::DlenTooSmall);
}

#[test]
fn accept_request_checks_checksum_last() {
    let mut sram = challenge_words(2);
    sram[0] = sram[0].wrapping_add(1);
    let s = Mbox0Session::new(CommandId(0x444F_5457), 2696, sram);
    let rej = accept_request::<OverrideChallengeRequest>(s).err().unwrap();
    assert_eq!(rej.error, Mbox0Error::ChecksumFailed);
}

#[test]
fn accept_request_keeps_a_valid_session() {
    let s = Mbox0Session::new(CommandId(0x444F_5457), 2696, challenge_words(2));
    let s = accept_request::<OverrideChallengeRequest>(s).ok().unwrap();
    assert_eq!(s.cmd(), CommandId(0x444F_5457));
    assert_eq!(s.dlen(), 2696);
}

#[test]
fn checksum_ignores_the_order_of_payload_words() {
    let cmd = 0x444F_5458;
    let payload = [0x0102_0304, 0xA0B0_C0D0, 0x0000_00FF];
    let sram = sealed(cmd, &payload);
    let permuted = vec![sram[0], payload[2], payload[0], payload[1]];
    let a = Mbox0Session::new(CommandId(cmd), 16, sram);
    let b = Mbox0Session::new(CommandId(cmd), 16, permuted);
    assert!(a.verify_checksum());
    assert!(b.verify_checksum());
}

#[test]
fn checksum_ignores_words_past_the_payload_whatever_they_hold() {
    let cmd = 9;
    let payload = [4, 5];
    let mut a = sealed(cmd, &payload);
    let mut b = a.clone();
    a.extend_from_slice(&[0xFFFF_FFFF, 1, 2]);
    b.extend_from_slice(&[7, 7, 7, 7, 7]);
    let a = Mbox0Session::new(CommandId(cmd), 12, a);
    let b = Mbox0Session::new(CommandId(cmd), 12, b);
    assert_eq!(a.verify_checksum(), b.verify_checksum());
    assert!(a.verify_checksum());
}
