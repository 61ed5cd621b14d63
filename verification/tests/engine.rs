use iso7816_tx::proto::{Error, T1Proto};
use std::cell::{Cell, RefCell};
use std::collections::VecDeque;

const NAD_CARD: u8 = 0x15;
const NAD_DEV: u8 = 0x51;

/// A card that answers each block written to it with the next reply
/// of a script and records what was written and slept.
struct Script {
    replies: RefCell<VecDeque<Vec<u8>>>,
    current: RefCell<Vec<u8>>,
    pos: Cell<usize>,
    written: RefCell<Vec<Vec<u8>>>,
}

impl Script {
    fn new(replies: Vec<Vec<u8>>) -> Script {
        Script {
            replies: RefCell::new(replies.into_iter().collect()),
            current: RefCell::new(Vec::new()),
            pos: Cell::new(0),
            written: RefCell::new(Vec::new()),
        }
    }

    fn read(&self, buf: &mut [u8]) -> Result<usize, u8> {
        let current = self.current.borrow();
        let pos = self.pos.get();
        let mut n = buf.len();
        if n > current.len() - pos {
            n = current.len() - pos;
        }
        buf[..n].copy_from_slice(&current[pos..pos + n]);
        self.pos.set(pos + n);
        Ok(n)
    }

    fn write(&self, buf: &[u8]) -> Result<usize, u8> {
        self.written.borrow_mut().push(buf.to_vec());
        let next = self.replies.borrow_mut().pop_front().unwrap_or_default();
        *self.current.borrow_mut() = next;
        self.pos.set(0);
        Ok(buf.len())
    }

    fn written(&self) -> Vec<Vec<u8>> {
        self.written.borrow().clone()
    }
}

fn lrc(bytes: &[u8]) -> u8 {
    let mut c = 0u8;
    for b in bytes {
        c ^= b;
    }
    c
}

fn block(nad: u8, pcb: u8, inf: &[u8]) -> Vec<u8> {
    let mut b = vec![nad, pcb, inf.len() as u8];
    b.extend_from_slice(inf);
    let edc = lrc(&b);
    b.push(edc);
    b
}

fn from_card(pcb: u8, inf: &[u8]) -> Vec<u8> {
    block(NAD_CARD, pcb, inf)
}

fn from_dev(pcb: u8, inf: &[u8]) -> Vec<u8> {
    block(NAD_DEV, pcb, inf)
}

fn no_sleep(_ms: u32) {}

/// An engine with both addresses set and no reset due.
fn engine() -> T1Proto<fn(u32)> {
    let mut t1: T1Proto<fn(u32)> = T1Proto::default();
    t1.set_nad(NAD_CARD, NAD_DEV);
    t1.set_sleep_cb(no_sleep);
    t1.set_soft_reset(false);
    t1
}

fn transmit(
    t1: &mut T1Proto<fn(u32)>,
    card: &Script,
    capdu: &[u8],
    room: usize,
) -> Result<Vec<u8>, Error<u8>> {
    let mut buf = vec![0u8; room];
    let rsp = t1.transmit(capdu, &mut buf, |b: &mut [u8]| card.read(b), |b: &[u8]| card.write(b))?;
    Ok(rsp.to_vec())
}

#[test]
fn happy_path_writes_one_iblock() {
    let card = Script::new(vec![vec![0x15, 0x00, 0x05, 0x9f, 0x7f, 0x55, 0x90, 0x00, 0x35]]);
    let mut t1 = engine();
    let rsp = transmit(&mut t1, &card, &[0x80, 0xca, 0x9f, 0x7f], 258);
    assert_eq!(rsp, Ok(vec![0x9f, 0x7f, 0x55, 0x90, 0x00]));
    assert_eq!(card.written(), vec![vec![0x51, 0x00, 0x04, 0x80, 0xca, 0x9f, 0x7f, 0xff]]);
}

#[test]
fn bad_card_lrc_is_reported_after_three_attempts() {
    let bad = vec![0x15, 0x00, 0x05, 0x9f, 0x7f, 0x55, 0x90, 0x00, 0x00];
    let card = Script::new(vec![bad.clone(), bad.clone(), bad]);
    let mut t1 = engine();
    let rsp = transmit(&mut t1, &card, &[0x80, 0xca, 0x9f, 0x7f], 258);
    assert_eq!(rsp, Err(Error::BadCrc(0x35, 0x00)));
    assert_eq!(
        card.written(),
        vec![
            from_dev(0x00, &[0x80, 0xca, 0x9f, 0x7f]),
            from_dev(0x81, &[]),
            from_dev(0x81, &[]),
        ]
    );
}

#[test]
fn bad_card_lrc_then_silence_ends_with_the_read_error() {
    let card = Script::new(vec![vec![0x15, 0x00, 0x05, 0x9f, 0x7f, 0x55, 0x90, 0x00, 0x00]]);
    let mut t1 = engine();
    let rsp = transmit(&mut t1, &card, &[0x80, 0xca, 0x9f, 0x7f], 258);
    assert_eq!(rsp, Err(Error::ReadNadLen(0, 1)));
    assert_eq!(card.written().len(), 2);
}

#[test]
fn bad_lrc_is_recovered_but_stays_the_last_error() {
    let card = Script::new(vec![
        vec![0x15, 0x00, 0x05, 0x9f, 0x7f, 0x55, 0x90, 0x00, 0x00],
        vec![0x15, 0x00, 0x05, 0x9f, 0x7f, 0x55, 0x90, 0x00, 0x35],
    ]);
    let mut t1 = engine();
    let mut buf = [0u8; 16];
    let rsp = t1.transmit(
        &[0x80, 0xca, 0x9f, 0x7f],
        &mut buf,
        |b: &mut [u8]| card.read(b),
        |b: &[u8]| card.write(b),
    );
    assert_eq!(rsp, Err(Error::BadCrc(0x35, 0x00)));
    assert_eq!(&buf[..5], &[0x9f, 0x7f, 0x55, 0x90, 0x00]);
}

#[test]
fn wrong_nad_runs_out_of_bytes() {
    let card = Script::new(vec![vec![0x00, 0x00, 0x07, 0x9f, 0x7f, 0x55, 0x90, 0x00, 0x35]]);
    let mut t1 = engine();
    let rsp = transmit(&mut t1, &card, &[0x80, 0xca, 0x9f, 0x7f], 258);
    assert_eq!(rsp, Err(Error::ReadNadLen(0, 1)));
    assert_eq!(card.written().len(), 1);
}

#[test]
fn wrong_nad_forever_times_out_three_times() {
    let slept = Cell::new(0u32);
    let written = RefCell::new(Vec::new());
    let mut t1: T1Proto<_> = T1Proto::default();
    t1.set_nad(NAD_CARD, NAD_DEV);
    t1.set_soft_reset(false);
    t1.set_sleep_cb(|ms: u32| slept.set(slept.get() + ms));
    let mut buf = [0u8; 8];
    let rsp = t1.transmit(
        &[0x80, 0xca, 0x9f, 0x7f],
        &mut buf,
        |b: &mut [u8]| -> Result<usize, u8> {
            for x in b.iter_mut() {
                *x = 0;
            }
            Ok(b.len())
        },
        |b: &[u8]| -> Result<usize, u8> {
            written.borrow_mut().push(b.to_vec());
            Ok(b.len())
        },
    );
    assert_eq!(rsp, Err(Error::Timeout(300)));
    assert_eq!(slept.get(), 3 * 302);
    assert_eq!(
        written.into_inner(),
        vec![
            from_dev(0x00, &[0x80, 0xca, 0x9f, 0x7f]),
            from_dev(0x80, &[]),
            from_dev(0x80, &[]),
        ]
    );
}

#[test]
fn empty_command_is_refused_without_io() {
    let card = Script::new(vec![]);
    let mut t1 = engine();
    let rsp = transmit(&mut t1, &card, &[], 258);
    assert_eq!(rsp, Err(Error::NoRespIBlock));
    assert!(card.written().is_empty());
}

#[test]
fn long_command_is_chained_in_blocks_of_ifsc() {
    let capdu: Vec<u8> = (0..1024u32).map(|i| (i % 251) as u8).collect();
    let mut replies = Vec::new();
    for i in 0..31 {
        // the card asks for the other sequence bit than the one sent
        let nr = if i % 2 == 0 { 0x10 } else { 0x00 };
        replies.push(from_card(0x80 | nr, &[]));
    }
    replies.push(from_card(0x00, &[0x90, 0x00]));
    let card = Script::new(replies);
    let mut t1 = engine();
    let rsp = transmit(&mut t1, &card, &capdu, 258);
    assert_eq!(rsp, Ok(vec![0x90, 0x00]));
    let written = card.written();
    assert_eq!(written.len(), 32);
    let mut sent = Vec::new();
    for (i, b) in written.iter().enumerate() {
        let ns = if i % 2 == 0 { 0x00 } else { 0x40 };
        let more = if i < 31 { 0x20 } else { 0x00 };
        assert_eq!(b[0], NAD_DEV);
        assert_eq!(b[1], ns | more);
        assert_eq!(b[2], 32);
        assert_eq!(b.len(), 36);
        assert_eq!(lrc(b), 0);
        sent.extend_from_slice(&b[3..35]);
    }
    assert_eq!(sent, capdu);
}

#[test]
fn long_command_without_card_fails() {
    let card = Script::new(vec![]);
    let mut t1 = engine();
    let rsp = transmit(&mut t1, &card, &[0u8; 1024], 258);
    assert_eq!(rsp, Err(Error::ReadNadLen(0, 1)));
    let written = card.written();
    assert_eq!(written.len(), 1);
    assert_eq!(written[0], from_dev(0x20, &[0u8; 32]));
}

#[test]
fn chained_response_is_acknowledged_and_joined() {
    let card = Script::new(vec![
        from_card(0x20, &[1, 2, 3]),
        from_card(0x40, &[4, 5]),
    ]);
    let mut t1 = engine();
    let rsp = transmit(&mut t1, &card, &[0x00, 0xa4, 0x04, 0x00], 258);
    assert_eq!(rsp, Ok(vec![1, 2, 3, 4, 5]));
    assert_eq!(
        card.written(),
        vec![from_dev(0x00, &[0x00, 0xa4, 0x04, 0x00]), from_dev(0x90, &[])]
    );
}

#[test]
fn response_length_is_the_sum_of_accepted_lengths_cut_at_the_room() {
    let card = Script::new(vec![
        from_card(0x20, &[1, 2, 3]),
        from_card(0x40, &[4, 5, 6, 7]),
    ]);
    let mut t1 = engine();
    let rsp = transmit(&mut t1, &card, &[0x00, 0xa4, 0x04, 0x00], 5);
    assert_eq!(rsp, Ok(vec![1, 2, 3, 4, 5]));
}

#[test]
fn iblock_out_of_sequence_is_not_stored() {
    let card = Script::new(vec![
        from_card(0x60, &[9, 9]),
        from_card(0x00, &[1, 2]),
    ]);
    let mut t1 = engine();
    let rsp = transmit(&mut t1, &card, &[0x00, 0xb0], 258);
    // the first answer carries N(S)=1 while 0 is expected: it is not
    // stored and, as nothing else is left to send or acknowledge, the
    // exchange has nothing to go on with
    assert_eq!(rsp, Err(Error::NoRespIBlock));
    assert_eq!(card.written().len(), 1);
}

#[test]
fn sequence_bits_alternate_across_transmissions() {
    let card = Script::new(vec![
        from_card(0x00, &[0x90, 0x00]),
        from_card(0x40, &[0x90, 0x00]),
        from_card(0x00, &[0x90, 0x00]),
    ]);
    let mut t1 = engine();
    for _ in 0..3 {
        assert_eq!(transmit(&mut t1, &card, &[1, 2, 3, 4], 8), Ok(vec![0x90, 0x00]));
    }
    let pcbs: Vec<u8> = card.written().iter().map(|b| b[1]).collect();
    assert_eq!(pcbs, vec![0x00, 0x40, 0x00]);
}

#[test]
fn rblock_that_does_not_acknowledge_costs_attempts() {
    // N(R) equal to N(S) asks for the same block again
    let card = Script::new(vec![
        from_card(0x80, &[]),
        from_card(0x80, &[]),
        from_card(0x80, &[]),
    ]);
    let mut t1 = engine();
    let rsp = transmit(&mut t1, &card, &[0u8; 40], 8);
    assert_eq!(rsp, Err(Error::RbTimeout));
    let written = card.written();
    assert_eq!(written.len(), 3);
    assert_eq!(written[0], written[1]);
    assert_eq!(written[1], written[2]);
}

#[test]
fn rblock_with_edc_error_code_is_prev_blk_crc() {
    let card = Script::new(vec![
        from_card(0x81, &[]),
        from_card(0x81, &[]),
        from_card(0x81, &[]),
    ]);
    let mut t1 = engine();
    let rsp = transmit(&mut t1, &card, &[1, 2, 3, 4], 8);
    assert_eq!(rsp, Err(Error::PrevBlkCrc));
    assert_eq!(card.written().len(), 3);
}

#[test]
fn rblock_with_other_error_code_halts() {
    let card = Script::new(vec![from_card(0x82, &[]), from_card(0x00, &[0x90, 0x00])]);
    let mut t1 = engine();
    let rsp = transmit(&mut t1, &card, &[1, 2, 3, 4], 8);
    assert_eq!(rsp, Err(Error::RbHalt));
    assert_eq!(card.written().len(), 1);
    // with the other sequence bit as well
    let card = Script::new(vec![from_card(0x92, &[])]);
    let mut t1 = engine();
    assert_eq!(transmit(&mut t1, &card, &[1, 2, 3, 4], 8), Err(Error::RbHalt));
}

#[test]
fn iblock_after_an_abort_is_counted_but_not_stored() {
    // the card aborts, gets its response, then sends an I-block with
    // the expected sequence bit: the exchange ends as aborted and the
    // next transmission expects the other bit
    let card = Script::new(vec![from_card(0xc2, &[]), from_card(0x00, &[7, 7, 7])]);
    let mut t1 = engine();
    let mut buf = [0u8; 8];
    let rsp = t1.transmit(
        &[1, 2, 3, 4],
        &mut buf,
        |b: &mut [u8]| card.read(b),
        |b: &[u8]| card.write(b),
    );
    assert_eq!(rsp, Err(Error::Aborted));
    assert_eq!(buf, [0u8; 8]);
    assert_eq!(card.written().len(), 2);
    let card = Script::new(vec![from_card(0x40, &[0x90, 0x00])]);
    assert_eq!(transmit(&mut t1, &card, &[1, 2, 3, 4], 8), Ok(vec![0x90, 0x00]));
}

#[test]
fn rblock_with_reserved_bits_is_not_supported() {
    let card = Script::new(vec![from_card(0x84, &[])]);
    let mut t1 = engine();
    let rsp = transmit(&mut t1, &card, &[1, 2, 3, 4], 8);
    assert_eq!(rsp, Err(Error::RbNotSupported));
    assert_eq!(card.written().len(), 1);
}

#[test]
fn rblock_code_three_starts_a_resync() {
    let card = Script::new(vec![
        from_card(0x83, &[]),
        from_card(0xe0, &[]),
        from_card(0x00, &[0x90, 0x00]),
    ]);
    let mut t1 = engine();
    let mut buf = [0u8; 8];
    let rsp = t1.transmit(
        &[1, 2, 3, 4],
        &mut buf,
        |b: &mut [u8]| card.read(b),
        |b: &[u8]| card.write(b),
    );
    // the exchange goes through, but the last error met is returned
    assert_eq!(rsp, Err(Error::RbResync));
    assert_eq!(&buf[..2], &[0x90, 0x00]);
    assert_eq!(
        card.written(),
        vec![
            from_dev(0x00, &[1, 2, 3, 4]),
            from_dev(0xc0, &[]),
            from_dev(0x00, &[1, 2, 3, 4]),
        ]
    );
}

#[test]
fn wtx_request_is_answered_with_capped_multiplier() {
    let card = Script::new(vec![from_card(0xc3, &[5]), from_card(0x00, &[0x90, 0x00])]);
    let mut t1 = engine();
    let rsp = transmit(&mut t1, &card, &[1, 2, 3, 4], 8);
    // the command is still unacknowledged when the card asks for time,
    // so after the response the I-block goes out again
    assert_eq!(rsp, Ok(vec![0x90, 0x00]));
    assert_eq!(
        card.written(),
        vec![
            from_dev(0x00, &[1, 2, 3, 4]),
            from_dev(0xe3, &[1]),
        ]
    );
}

#[test]
fn wtx_request_without_length_is_answered() {
    let card = Script::new(vec![from_card(0xc3, &[]), from_card(0x00, &[0x90, 0x00])]);
    let mut t1 = engine();
    let rsp = transmit(&mut t1, &card, &[1, 2, 3, 4], 8);
    assert_eq!(rsp, Ok(vec![0x90, 0x00]));
    assert_eq!(card.written()[1], from_dev(0xe3, &[1]));
}

#[test]
fn wtx_request_too_long_is_bad_msg4() {
    let card = Script::new(vec![from_card(0xc3, &[1, 2])]);
    let mut t1 = engine();
    assert_eq!(transmit(&mut t1, &card, &[1, 2, 3, 4], 8), Err(Error::ErrorBadMsg4(2)));
}

#[test]
fn wtx_rounds_run_out_after_two_hundred() {
    let mut replies = Vec::new();
    for _ in 0..200 {
        replies.push(from_card(0xc3, &[1]));
    }
    let card = Script::new(replies);
    let mut t1 = engine();
    let rsp = transmit(&mut t1, &card, &[1, 2, 3, 4], 8);
    assert_eq!(rsp, Err(Error::NoRoundsLeft));
    assert_eq!(card.written().len(), 200);
}

#[test]
fn ifs_request_sets_the_block_size() {
    let card = Script::new(vec![
        from_card(0xc1, &[16]),
        from_card(0x90, &[]),
        from_card(0x80, &[]),
        from_card(0x00, &[0x90, 0x00]),
    ]);
    let mut t1 = engine();
    let capdu: Vec<u8> = (0..40u8).collect();
    let rsp = transmit(&mut t1, &card, &capdu, 8);
    assert_eq!(rsp, Ok(vec![0x90, 0x00]));
    // an acknowledgement moves the window by the block size in force
    // when it arrives, here the new one
    assert_eq!(
        card.written(),
        vec![
            from_dev(0x20, &capdu[..32]),
            from_dev(0xe1, &[16]),
            from_dev(0x60, &capdu[16..32]),
            from_dev(0x00, &capdu[32..]),
        ]
    );
}

#[test]
fn ifs_request_with_bad_length_is_bad_msg1() {
    let card = Script::new(vec![from_card(0xc1, &[16, 16])]);
    let mut t1 = engine();
    assert_eq!(transmit(&mut t1, &card, &[1, 2, 3, 4], 8), Err(Error::ErrorBadMsg1(2)));
}

#[test]
fn ifs_request_for_reserved_size_is_bad_msg2() {
    let card = Script::new(vec![from_card(0xc1, &[0])]);
    let mut t1 = engine();
    assert_eq!(transmit(&mut t1, &card, &[1, 2, 3, 4], 8), Err(Error::ErrorBadMsg2(1)));
    let card = Script::new(vec![from_card(0xc1, &[0xff])]);
    let mut t1 = engine();
    assert_eq!(transmit(&mut t1, &card, &[1, 2, 3, 4], 8), Err(Error::ErrorBadMsg2(1)));
}

#[test]
fn abort_request_is_answered_and_ends_the_exchange() {
    let card = Script::new(vec![from_card(0xc2, &[]), from_card(0x00, &[0x90, 0x00])]);
    let mut t1 = engine();
    let rsp = transmit(&mut t1, &card, &[1, 2, 3, 4], 8);
    assert_eq!(rsp, Err(Error::Aborted));
    assert_eq!(
        card.written(),
        vec![from_dev(0x00, &[1, 2, 3, 4]), from_dev(0xe2, &[])]
    );
}

#[test]
fn abort_request_with_payload_is_bad_msg3() {
    let card = Script::new(vec![from_card(0xc2, &[1])]);
    let mut t1 = engine();
    assert_eq!(transmit(&mut t1, &card, &[1, 2, 3, 4], 8), Err(Error::ErrorBadMsg3(1)));
}

#[test]
fn resync_request_of_the_card_is_refused() {
    let card = Script::new(vec![from_card(0xc0, &[])]);
    let mut t1 = engine();
    assert_eq!(transmit(&mut t1, &card, &[1, 2, 3, 4], 8), Err(Error::ReqResync));
    assert_eq!(card.written().len(), 1);
}

#[test]
fn unknown_request_is_only_answered() {
    let card = Script::new(vec![from_card(0xc4, &[]), from_card(0x00, &[0x90, 0x00])]);
    let mut t1 = engine();
    let rsp = transmit(&mut t1, &card, &[1, 2, 3, 4], 8);
    assert_eq!(rsp, Ok(vec![0x90, 0x00]));
    assert_eq!(card.written()[1], from_dev(0xe4, &[]));
}

#[test]
fn both_sides_reporting_bad_edc_is_state_bad_crc() {
    let bad = vec![0x15, 0x00, 0x01, 0x00, 0xff];
    let card = Script::new(vec![bad, from_card(0x81, &[]), from_card(0x91, &[])]);
    let mut t1 = engine();
    let rsp = transmit(&mut t1, &card, &[1, 2, 3, 4], 8);
    assert_eq!(rsp, Err(Error::StateBadCrc));
    assert_eq!(card.written().len(), 3);
}

#[test]
fn reserved_length_is_refused() {
    let mut reply = vec![0x15, 0x00, 0xff];
    reply.extend_from_slice(&[0u8; 256]);
    let card = Script::new(vec![reply]);
    let mut t1 = engine();
    assert_eq!(transmit(&mut t1, &card, &[1, 2, 3, 4], 8), Err(Error::ReadLen255));
    assert_eq!(card.written().len(), 1);
}

#[test]
fn longest_block_fits_the_scratch_area() {
    let inf: Vec<u8> = (0..254u32).map(|i| i as u8).collect();
    let card = Script::new(vec![from_card(0x00, &inf)]);
    let mut t1 = engine();
    assert_eq!(transmit(&mut t1, &card, &[1, 2, 3, 4], 300), Ok(inf));
}

#[test]
fn response_longer_than_the_maximum_is_refused() {
    let inf = [0u8; 254];
    let mut replies = Vec::new();
    for i in 0..259 {
        let ns = if i % 2 == 0 { 0x00 } else { 0x40 };
        replies.push(from_card(0x20 | ns, &inf));
    }
    let card = Script::new(replies);
    let mut t1 = engine();
    let rsp = transmit(&mut t1, &card, &[1, 2, 3, 4], 16);
    assert_eq!(rsp, Err(Error::RecvMsgSize(259 * 254, 65538)));
    assert_eq!(card.written().len(), 259);
}

#[test]
fn short_write_is_write_len() {
    let mut t1 = engine();
    let mut buf = [0u8; 8];
    let rsp = t1.transmit(
        &[1, 2, 3, 4],
        &mut buf,
        |_b: &mut [u8]| -> Result<usize, u8> { Ok(0) },
        |b: &[u8]| -> Result<usize, u8> { Ok(b.len() - 1) },
    );
    assert_eq!(rsp, Err(Error::WriteLen(8, 7)));
}

#[test]
fn failed_write_is_write() {
    let mut t1 = engine();
    let mut buf = [0u8; 8];
    let rsp = t1.transmit(
        &[1, 2, 3, 4],
        &mut buf,
        |_b: &mut [u8]| -> Result<usize, u8> { Ok(0) },
        |_b: &[u8]| -> Result<usize, u8> { Err(7) },
    );
    assert_eq!(rsp, Err(Error::Write(7)));
}

/// Reads that succeed `good` times from the bytes of an I-block and
/// then fail with `then`.
fn failing_read(good: usize, then: Result<usize, u8>) -> Result<Vec<u8>, Error<u8>> {
    let card = Script::new(vec![from_card(0x00, &[0x90, 0x00])]);
    let calls = Cell::new(0usize);
    let mut t1 = engine();
    transmit_with(&mut t1, &card, &calls, good, then)
}

fn transmit_with(
    t1: &mut T1Proto<fn(u32)>,
    card: &Script,
    calls: &Cell<usize>,
    good: usize,
    then: Result<usize, u8>,
) -> Result<Vec<u8>, Error<u8>> {
    let mut buf = [0u8; 8];
    let rsp = t1.transmit(
        &[1, 2, 3, 4],
        &mut buf,
        |b: &mut [u8]| {
            let n = calls.get();
            calls.set(n + 1);
            if n < good {
                card.read(b)
            } else {
                then
            }
        },
        |b: &[u8]| card.write(b),
    )?;
    Ok(rsp.to_vec())
}

#[test]
fn read_errors_are_told_apart_by_where_they_happen() {
    assert_eq!(failing_read(0, Err(3)), Err(Error::ReadNad(3)));
    assert_eq!(failing_read(0, Ok(0)), Err(Error::ReadNadLen(0, 1)));
    assert_eq!(failing_read(1, Err(4)), Err(Error::ReadHdr(4)));
    assert_eq!(failing_read(1, Ok(2)), Err(Error::ReadHdrLen(2, 3)));
    assert_eq!(failing_read(2, Err(5)), Err(Error::ReadData(5)));
    assert_eq!(failing_read(2, Ok(1)), Err(Error::ReadDataLen(1, 2)));
    assert_eq!(failing_read(3, Ok(0)), Ok(vec![0x90, 0x00]));
}

#[test]
fn reset_flow_then_ifs() {
    let atr = [0x80, 0x91, 0x10, 0x01, 0x80];
    let card = Script::new(vec![
        from_card(0xe5, &atr),
        from_card(0xe1, &[254]),
        from_card(0x90, &[]),
        from_card(0x00, &[0x90, 0x00]),
    ]);
    let mut t1: T1Proto<fn(u32)> = T1Proto::default();
    t1.set_nad(NAD_CARD, NAD_DEV);
    let got = t1
        .atr(|b: &mut [u8]| card.read(b), |b: &[u8]| card.write(b))
        .map(|a| a.to_vec());
    assert_eq!(got, Ok(atr.to_vec()));
    // a reset has no room to receive, so the exchange stops at once and
    // the IFS request is left for the next call
    assert_eq!(card.written(), vec![from_dev(0xc5, &[])]);

    // no reset is due any more: the answer is returned without I/O
    let again = t1
        .atr(|b: &mut [u8]| card.read(b), |b: &[u8]| card.write(b))
        .map(|a| a.to_vec());
    assert_eq!(again, Ok(atr.to_vec()));
    assert_eq!(card.written().len(), 1);

    // the answer gave an IFSC of 16
    let capdu: Vec<u8> = (0..20u8).collect();
    let rsp = transmit(&mut t1, &card, &capdu, 8);
    assert_eq!(rsp, Ok(vec![0x90, 0x00]));
    assert_eq!(
        card.written(),
        vec![
            from_dev(0xc5, &[]),
            from_dev(0xc1, &[254]),
            from_dev(0x20, &capdu[..16]),
            from_dev(0x40, &capdu[16..]),
        ]
    );
}

#[test]
fn first_transmit_resets_and_negotiates() {
    let atr = [0x3b, 0x00];
    let card = Script::new(vec![
        from_card(0xe5, &atr),
        from_card(0xe1, &[254]),
        from_card(0x00, &[0x90, 0x00]),
    ]);
    let mut t1: T1Proto<fn(u32)> = T1Proto::default();
    t1.set_nad(NAD_CARD, NAD_DEV);
    let rsp = transmit(&mut t1, &card, &[1, 2, 3, 4], 8);
    assert_eq!(rsp, Ok(vec![0x90, 0x00]));
    assert_eq!(
        card.written(),
        vec![
            from_dev(0xc5, &[]),
            from_dev(0xc1, &[254]),
            from_dev(0x00, &[1, 2, 3, 4]),
        ]
    );
    let got = t1
        .atr(|b: &mut [u8]| card.read(b), |b: &[u8]| card.write(b))
        .map(|a| a.to_vec());
    assert_eq!(got, Ok(atr.to_vec()));
}

#[test]
fn reset_keeps_the_answer() {
    let card = Script::new(vec![from_card(0xe5, &[1, 2, 3])]);
    let mut t1 = engine();
    let done: Result<(), Error<u8>> =
        t1.reset(|b: &mut [u8]| card.read(b), |b: &[u8]| card.write(b));
    assert_eq!(done, Ok(()));
    let got = t1
        .atr(|b: &mut [u8]| card.read(b), |b: &[u8]| card.write(b))
        .map(|a| a.to_vec());
    assert_eq!(got, Ok(vec![1, 2, 3]));
    assert_eq!(card.written(), vec![from_dev(0xc5, &[])]);
}

#[test]
fn reset_answer_longer_than_32_bytes_is_bad_msg_rst() {
    let card = Script::new(vec![from_card(0xe5, &[0u8; 33])]);
    let mut t1 = engine();
    let done: Result<(), Error<u8>> =
        t1.reset(|b: &mut [u8]| card.read(b), |b: &[u8]| card.write(b));
    assert_eq!(done, Err(Error::BadMsgRst));
}

#[test]
fn other_block_than_the_awaited_response_is_ebade() {
    let reply = from_card(0x00, &[0x90, 0x00]);
    let card = Script::new(vec![reply.clone(), reply.clone(), reply]);
    let mut t1 = engine();
    let done: Result<(), Error<u8>> =
        t1.reset(|b: &mut [u8]| card.read(b), |b: &[u8]| card.write(b));
    assert_eq!(done, Err(Error::Ebade));
    assert_eq!(card.written().len(), 3);
}

#[test]
fn ifs_response_with_other_size_is_bad_msg_ifs() {
    let card = Script::new(vec![from_card(0xe5, &[]), from_card(0xe1, &[32])]);
    let mut t1: T1Proto<fn(u32)> = T1Proto::default();
    t1.set_nad(NAD_CARD, NAD_DEV);
    assert_eq!(transmit(&mut t1, &card, &[1, 2, 3, 4], 8), Err(Error::BadMsgIfs));
    let card = Script::new(vec![from_card(0xe5, &[]), from_card(0xe1, &[254, 0])]);
    let mut t1: T1Proto<fn(u32)> = T1Proto::default();
    t1.set_nad(NAD_CARD, NAD_DEV);
    assert_eq!(transmit(&mut t1, &card, &[1, 2, 3, 4], 8), Err(Error::BadMsgIfs));
}

#[test]
fn engine_without_sleep_callback_only_counts() {
    let card = Script::new(vec![from_card(0x00, &[0x90, 0x00])]);
    let mut t1: T1Proto<fn(u32)> = T1Proto::default();
    assert!(!t1.sleeps());
    t1.set_nad(NAD_CARD, NAD_DEV);
    t1.set_soft_reset(false);
    assert_eq!(transmit(&mut t1, &card, &[1, 2, 3, 4], 8), Ok(vec![0x90, 0x00]));
}

#[test]
fn every_block_written_has_a_zero_xor() {
    let card = Script::new(vec![
        from_card(0xc3, &[1]),
        from_card(0x20, &[1, 2, 3]),
        vec![0x15, 0x40, 0x01, 0x00, 0x00],
        from_card(0x40, &[4]),
    ]);
    let mut t1 = engine();
    let rsp = transmit(&mut t1, &card, &[1, 2, 3, 4], 8);
    assert_eq!(rsp, Err(Error::BadCrc(0x54, 0x00)));
    let written = card.written();
    assert_eq!(written.len(), 4);
    for b in &written {
        assert_eq!(lrc(b), 0);
        assert!(b.len() <= 260);
        assert_eq!(b.len(), 4 + b[2] as usize);
    }
}

#[test]
fn block_recv_polls_until_the_waiting_time_is_over() {
    let mut t1 = engine();
    let polls = Cell::new(0u32);
    let read = |b: &mut [u8]| -> Result<usize, u8> {
        polls.set(polls.get() + 1);
        for x in b.iter_mut() {
            *x = 0;
        }
        Ok(b.len())
    };
    let (r, clock) = t1.block_recv(&read);
    assert_eq!(r, Err(Error::Timeout(300)));
    assert_eq!(clock.waited(), 302);
    assert_eq!(polls.get(), 151);
}

#[test]
fn block_recv_stops_polling_when_the_card_answers() {
    let card = Script::new(vec![from_card(0x80, &[])]);
    card.write(&[]).unwrap();
    let mut t1 = engine();
    let read = |b: &mut [u8]| card.read(b);
    let (r, clock) = t1.block_recv(&read);
    assert_eq!(r, Ok(()));
    assert_eq!(clock.waited(), 2);
}

#[test]
fn rblock_that_does_not_acknowledge_costs_an_attempt() {
    let card = Script::new(vec![from_card(0x80, &[])]);
    card.write(&[]).unwrap();
    let mut t1 = engine();
    let read = |b: &mut [u8]| card.read(b);
    let (r, _) = t1.block_recv(&read);
    assert_eq!(r, Ok(()));
    assert_eq!(t1.parse_rblock::<u8>(), Ok(()));
    assert_eq!(t1.parse_rblock::<u8>(), Ok(()));
    assert_eq!(t1.parse_rblock::<u8>(), Err(Error::RbTimeout));
}

#[test]
fn rblock_that_acknowledges_refills_the_attempts() {
    let card = Script::new(vec![from_card(0x80, &[]), from_card(0x90, &[])]);
    card.write(&[]).unwrap();
    let mut t1 = engine();
    let read = |b: &mut [u8]| card.read(b);
    let (r, _) = t1.block_recv(&read);
    assert_eq!(r, Ok(()));
    assert_eq!(t1.parse_rblock::<u8>(), Ok(()));
    assert_eq!(t1.parse_rblock::<u8>(), Ok(()));
    card.write(&[]).unwrap();
    let (r, _) = t1.block_recv(&read);
    assert_eq!(r, Ok(()));
    // N(R) of the card differs from N(S): an acknowledgement.
    assert_eq!(t1.parse_rblock::<u8>(), Ok(()));
    // N(S) has flipped with it, so the same block now repeats a request.
    assert_eq!(t1.parse_rblock::<u8>(), Ok(()));
    assert_eq!(t1.parse_rblock::<u8>(), Ok(()));
    assert_eq!(t1.parse_rblock::<u8>(), Err(Error::RbTimeout));
}

#[test]
fn iblock_tells_whether_more_follows() {
    let card = Script::new(vec![from_card(0x20, &[1, 2, 3]), from_card(0x40, &[4])]);
    card.write(&[]).unwrap();
    let mut t1 = engine();
    let read = |b: &mut [u8]| card.read(b);
    let (r, _) = t1.block_recv(&read);
    assert_eq!(r, Ok(()));
    let mut rapdu = [0xaau8; 4];
    assert_eq!(t1.parse_iblock(&mut rapdu), 1);
    card.write(&[]).unwrap();
    let (r, _) = t1.block_recv(&read);
    assert_eq!(r, Ok(()));
    assert_eq!(t1.parse_iblock(&mut rapdu), 0);
    // No exchange is open, so there is no room and nothing is stored.
    assert_eq!(rapdu, [0xaau8; 4]);
    t1.ack_iblock();
}

#[test]
fn empty_command_leaves_the_response_buffer_alone() {
    let card = Script::new(vec![]);
    let mut t1 = engine();
    let mut buf = [0xaau8; 16];
    let rsp = t1
        .transmit(&[], &mut buf, |b: &mut [u8]| card.read(b), |b: &[u8]| card.write(b))
        .map(|r| r.to_vec());
    assert_eq!(rsp, Err(Error::NoRespIBlock));
    assert_eq!(buf, [0xaau8; 16]);
}

#[test]
fn response_buffer_is_unchanged_behind_the_response() {
    let card = Script::new(vec![from_card(0x00, &[0x9f, 0x7f, 0x55, 0x90, 0x00])]);
    let mut t1 = engine();
    let mut buf = [0xaau8; 16];
    let rsp = t1
        .transmit(
            &[0x80, 0xca, 0x9f, 0x7f],
            &mut buf,
            |b: &mut [u8]| card.read(b),
            |b: &[u8]| card.write(b),
        )
        .map(|r| r.to_vec());
    assert_eq!(rsp, Ok(vec![0x9f, 0x7f, 0x55, 0x90, 0x00]));
    assert_eq!(&buf[..5], &[0x9f, 0x7f, 0x55, 0x90, 0x00]);
    assert_eq!(&buf[5..], &[0xaau8; 11]);
}
