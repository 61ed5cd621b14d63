use iso7816_tx::atr;
use iso7816_tx::clock::Clock;
use iso7816_tx::codec::{self, ChkAlgo};
use iso7816_tx::transmission::{Error, TransmissionBuilder};
use std::cell::Cell;

#[test]
fn clock_times_out_after_more_than_the_timeout() {
    let slept = Cell::new(0u32);
    let sleep = |ms: u32| slept.set(slept.get() + ms);
    let mut clock = Clock::new(4, Some(&sleep));
    assert!(!clock.timeout());
    assert_eq!(clock.waited(), 0);
    clock.sleep(2);
    assert!(!clock.timeout());
    clock.sleep(2);
    assert!(!clock.timeout());
    assert_eq!(clock.waited(), 4);
    clock.sleep(1);
    assert!(clock.timeout());
    assert_eq!(clock.waited(), 5);
    assert_eq!(slept.get(), 5);
}

#[test]
fn clock_without_callback_only_counts() {
    let none: Option<&fn(u32)> = None;
    let mut clock = Clock::new(0, none);
    assert!(!clock.timeout());
    clock.sleep(1);
    assert!(clock.timeout());
}

#[test]
fn lrc_is_the_xor_of_the_bytes() {
    assert_eq!(codec::lrc8(&[], 0), 0);
    assert_eq!(codec::lrc8(&[0x15], 1), 0x15);
    assert_eq!(codec::lrc8(&[0x15, 0x00, 0x05, 0x9f, 0x7f, 0x55, 0x90, 0x00], 8), 0x35);
    assert_eq!(codec::lrc8(&[0x15, 0x00, 0x05, 0x9f, 0x7f, 0x55, 0x90, 0x00], 3), 0x10);
}

#[test]
fn encode_builds_prologue_field_and_edc() {
    let mut buf = [0xaau8; 260];
    let n = codec::encode(&mut buf, ChkAlgo::Lrc, 0x51, 0x00, &[0x80, 0xca, 0x9f, 0x7f]);
    assert_eq!(n, 8);
    assert_eq!(&buf[..8], &[0x51, 0x00, 0x04, 0x80, 0xca, 0x9f, 0x7f, 0xff]);
    assert_eq!(buf[8], 0xaa);
    assert_eq!(codec::lrc8(&buf, n), 0);
}

#[test]
fn encode_takes_an_empty_and_a_full_field() {
    let mut buf = [0u8; 260];
    assert_eq!(codec::encode(&mut buf, ChkAlgo::Lrc, 0x51, 0x80, &[]), 4);
    assert_eq!(&buf[..4], &[0x51, 0x80, 0x00, 0xd1]);
    let inf = [0x5au8; 255];
    assert_eq!(codec::encode(&mut buf, ChkAlgo::Lrc, 0x51, 0x00, &inf), 259);
    assert_eq!(buf[2], 255);
    assert_eq!(codec::lrc8(&buf, 259), 0);
}

#[test]
fn frame_is_sealed_in_two_steps() {
    let mut buf = [0u8; 260];
    codec::put_frame(&mut buf, 0x15, 0xe5, &[1, 2, 3]);
    assert_eq!(&buf[..6], &[0x15, 0xe5, 0x03, 1, 2, 3]);
    assert_eq!(codec::do_chk(&mut buf, ChkAlgo::Lrc), 7);
    assert_eq!(buf[6], 0x15 ^ 0xe5 ^ 0x03 ^ 1 ^ 2 ^ 3);
    assert_eq!(codec::append_lrc8(&mut buf, 2), 3);
    assert_eq!(buf[2], 0x15 ^ 0xe5);
}

#[test]
fn copy_bytes_replaces_a_range() {
    let mut dst = [0u8, 1, 2, 3, 4, 5];
    codec::copy_bytes(&mut dst, 2, &[9, 8, 7]);
    assert_eq!(dst, [0, 1, 9, 8, 7, 5]);
    codec::copy_bytes(&mut dst, 6, &[]);
    assert_eq!(dst, [0, 1, 9, 8, 7, 5]);
}

#[test]
fn atr_gives_the_first_ta_for_t1() {
    assert_eq!(atr::parse(&[0x80, 0x91, 0x10, 0x01, 0x80]), Some(0x10));
    // a second TA for T=1 is not taken
    assert_eq!(atr::parse(&[0x80, 0x91, 0x10, 0x91, 0x20, 0x01, 0x31]), Some(0x10));
}

#[test]
fn atr_with_bad_check_byte_gives_nothing() {
    assert_eq!(atr::parse(&[0x80, 0x91, 0x10, 0x01, 0x81]), None);
}

#[test]
fn atr_without_t1_gives_nothing() {
    assert_eq!(atr::parse(&[]), None);
    assert_eq!(atr::parse(&[0x3b, 0x00]), None);
    assert_eq!(atr::parse(&[0x80, 0x00, 0x00]), None);
}

#[test]
fn atr_that_announces_t1_without_ta_gives_255() {
    assert_eq!(atr::parse(&[0x80, 0x01, 0x01]), Some(255));
}

#[test]
fn atr_scan_follows_the_interface_bytes() {
    let start = atr::AtrScan { y: Some(0x91), protocols: 2, ifsc: None, tck: 0 };
    let ta = atr::scan_next(start, 0x20);
    assert_eq!(ta.y, Some(0x81));
    assert_eq!(ta.ifsc, Some(0x20));
    assert_eq!(ta.tck, 0x20);
    let td = atr::scan_next(ta, 0x0f);
    assert_eq!(td.y, Some(0x0f));
    assert_eq!(td.protocols, 2 | (1 << 15));
    let rest = atr::scan_next(td, 0x55);
    assert_eq!(rest.y, None);
    assert_eq!(rest.tck, 0x20 ^ 0x0f ^ 0x55);
    let more = atr::scan_next(rest, 0x01);
    assert_eq!(more.y, None);
    assert_eq!(more.ifsc, Some(0x20));
}

type Open = fn() -> Result<Option<u8>, u8>;
type Ctx = fn(Option<&u8>) -> Result<Option<u8>, u8>;
type Cold = fn(Option<&u8>) -> Result<(), u8>;
type Read = fn(Option<&u8>, &mut [u8]) -> Result<usize, u8>;
type Write = fn(Option<&u8>, &[u8]) -> Result<usize, u8>;
type Sleep = fn(u32);
type Builder = TransmissionBuilder<u8, Open, Ctx, Cold, Read, Write, Sleep>;

fn open() -> Result<Option<u8>, u8> {
    Ok(Some(7))
}

fn open_fails() -> Result<Option<u8>, u8> {
    Err(1)
}

fn close(_ifc: Option<&u8>) -> Result<Option<u8>, u8> {
    Ok(None)
}

fn close_fails(_ifc: Option<&u8>) -> Result<Option<u8>, u8> {
    Err(2)
}

fn cold(_ifc: Option<&u8>) -> Result<(), u8> {
    Ok(())
}

fn cold_fails(_ifc: Option<&u8>) -> Result<(), u8> {
    Err(3)
}

fn silent(_ifc: Option<&u8>, _buf: &mut [u8]) -> Result<usize, u8> {
    Ok(0)
}

fn sink(ifc: Option<&u8>, buf: &[u8]) -> Result<usize, u8> {
    if ifc == Some(&7) {
        Ok(buf.len())
    } else {
        Err(9)
    }
}

fn nap(_ms: u32) {}

fn complete() -> Builder {
    let b: Builder = TransmissionBuilder::new();
    b.set_init_cb(open)
        .set_release_cb(close)
        .set_reset_cb(cold)
        .set_read_cb(silent)
        .set_write_cb(sink)
        .set_sleep_cb(nap)
        .set_nad(0x15, 0x51)
}

#[test]
fn init_twice_is_refused() {
    let mut t = complete().build();
    assert_eq!(t.init(), Ok(()));
    assert_eq!(t.init(), Err(Error::AlreadyInited));
    assert_eq!(t.release(), Ok(()));
    assert_eq!(t.init(), Ok(()));
}

#[test]
fn init_reports_a_failed_open() {
    let mut t = complete().set_init_cb(open_fails).build();
    assert_eq!(t.init(), Err(Error::InitCbErr(1)));
    assert_eq!(t.reset(), Err(Error::InitCbErr(1)));
}

#[test]
fn init_needs_the_node_addresses() {
    let b: Builder = TransmissionBuilder::new();
    let mut t = b.set_sleep_cb(nap).build();
    assert_eq!(t.init(), Err(Error::NadNotSet));
}

#[test]
fn init_needs_a_sleep_callback() {
    let b: Builder = TransmissionBuilder::default();
    let mut t = b.set_nad(1, 2).build();
    assert_eq!(t.init(), Err(Error::NoSleepCb));
    let mut buf = [0u8; 4];
    assert_eq!(t.transmit(&[1, 2, 3, 4], &mut buf), Err(Error::NoSleepCb));
}

#[test]
fn exchange_needs_read_and_write_callbacks() {
    let b: Builder = TransmissionBuilder::new();
    let mut t = b.set_sleep_cb(nap).set_nad(1, 2).set_write_cb(sink).build();
    let mut buf = [0u8; 4];
    assert_eq!(t.transmit(&[1, 2, 3, 4], &mut buf), Err(Error::NoReadCb));
    assert_eq!(t.atr().map(|a| a.to_vec()), Err(Error::NoReadCb));
    assert_eq!(t.reset(), Err(Error::NoReadCb));
    let b: Builder = TransmissionBuilder::new();
    let mut t = b.set_sleep_cb(nap).set_nad(1, 2).set_read_cb(silent).build();
    assert_eq!(t.transmit(&[1, 2, 3, 4], &mut buf), Err(Error::NoWriteCb));
    assert_eq!(t.atr().map(|a| a.to_vec()), Err(Error::NoWriteCb));
    assert_eq!(t.reset(), Err(Error::NoWriteCb));
}

#[test]
fn reset_reports_a_failed_cold_reset() {
    let mut t = complete().set_reset_cb(cold_fails).build();
    assert_eq!(t.reset(), Err(Error::ResetCbErr(3)));
}

#[test]
fn release_reports_a_failed_close() {
    let mut t = complete().set_release_cb(close_fails).build();
    assert_eq!(t.init(), Ok(()));
    assert_eq!(t.release(), Err(Error::ReleaseCbErr(2)));
    // the transmission still counts as initialised
    assert_eq!(t.init(), Err(Error::AlreadyInited));
}

#[test]
fn callbacks_get_the_interface_context() {
    let mut t = complete().build();
    let mut buf = [0u8; 4];
    // the write callback only accepts the context that open returned
    assert_eq!(
        t.transmit(&[1, 2, 3, 4], &mut buf),
        Err(Error::T1(iso7816_tx::proto::Error::ReadNadLen(0, 1)))
    );
}

#[test]
fn atr_without_soft_reset_is_empty() {
    let mut t = complete().build();
    assert_eq!(t.atr().map(|a| a.to_vec()), Ok(Vec::new()));
}

#[test]
fn soft_reset_sends_a_reset_request() {
    let mut t = complete().enable_soft_reset().build();
    assert_eq!(t.reset(), Err(Error::T1(iso7816_tx::proto::Error::ReadNadLen(0, 1))));
}
