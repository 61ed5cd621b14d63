use iso7816_tx::proto;
use iso7816_tx::{Error, Transmission, TransmissionBuilder};
use std::cell::{Cell, RefCell};
use std::rc::Rc;

const NAD_CARD: u8 = 0x15;
const NAD_DEV: u8 = 0x51;

/// A card that answers with a prepared stream of bytes and records
/// every block written to it.
struct Card {
    resp: RefCell<Vec<u8>>,
    cnt: Cell<usize>,
    written: RefCell<Vec<Vec<u8>>>,
    repeats: Cell<bool>,
}

impl Card {
    fn new(resp: &[u8]) -> Rc<Card> {
        Rc::new(Card {
            resp: RefCell::new(resp.to_vec()),
            cnt: Cell::new(0),
            written: RefCell::new(Vec::new()),
            repeats: Cell::new(false),
        })
    }

    fn read(&self, buf: &mut [u8]) -> Result<usize, ()> {
        let mut resp = self.resp.borrow_mut();
        let cnt = self.cnt.get();
        let mut read_len = buf.len();
        let mut reset_resp = false;

        if read_len >= resp.len() - cnt {
            read_len = resp.len() - cnt;
            reset_resp = true;
        }
        buf[..read_len].copy_from_slice(&resp[cnt..cnt + read_len]);
        self.cnt.set(cnt + read_len);
        if reset_resp {
            self.cnt.set(0);
            if !self.repeats.get() {
                resp.clear();
            }
        }
        Ok(read_len)
    }

    fn write(&self, buf: &[u8]) -> Result<usize, ()> {
        self.cnt.set(0);
        self.written.borrow_mut().push(buf.to_vec());
        if buf[0] != NAD_DEV {
            return Ok(0);
        }
        Ok(buf.len())
    }
}

fn transmission(
    card: &Rc<Card>,
) -> Transmission<
    (),
    impl Fn() -> Result<Option<()>, ()>,
    impl Fn(Option<&()>) -> Result<Option<()>, ()>,
    impl Fn(Option<&()>) -> Result<(), ()>,
    impl Fn(Option<&()>, &mut [u8]) -> Result<usize, ()>,
    impl Fn(Option<&()>, &[u8]) -> Result<usize, ()>,
    impl Fn(u32),
> {
    builder(card).build()
}

fn builder(
    card: &Rc<Card>,
) -> TransmissionBuilder<
    (),
    impl Fn() -> Result<Option<()>, ()>,
    impl Fn(Option<&()>) -> Result<Option<()>, ()>,
    impl Fn(Option<&()>) -> Result<(), ()>,
    impl Fn(Option<&()>, &mut [u8]) -> Result<usize, ()>,
    impl Fn(Option<&()>, &[u8]) -> Result<usize, ()>,
    impl Fn(u32),
> {
    let opened = card.clone();
    let cold = card.clone();
    let reader = card.clone();
    let writer = card.clone();
    TransmissionBuilder::new()
        .set_init_cb(move || {
            opened.cnt.set(0);
            Ok(Some(()))
        })
        .set_release_cb(|_ifc: Option<&()>| Ok(None))
        .set_reset_cb(move |_ifc: Option<&()>| {
            cold.cnt.set(0);
            Ok(())
        })
        .set_read_cb(move |_ifc: Option<&()>, buf: &mut [u8]| reader.read(buf))
        .set_write_cb(move |_ifc: Option<&()>, buf: &[u8]| writer.write(buf))
        .set_sleep_cb(|_ms: u32| {})
        .set_nad(NAD_CARD, NAD_DEV)
}

#[test]
fn test_init() {
    let card = Card::new(&[]);
    let mut t = transmission(&card);
    assert_eq!(t.init(), Ok(()));
}

#[test]
fn test_reset() {
    let card = Card::new(&[]);
    let mut t = transmission(&card);
    assert_eq!(t.reset(), Ok(()));
}

#[test]
fn test_transmit_apdu() {
    let mut buf = [0u8; 258];
    let capdu = &[0x80, 0xca, 0x9f, 0x7f];
    let card = Card::new(&[0x15, 0x00, 0x05, 0x9f, 0x7f, 0x55, 0x90, 0x00, 0x35]);

    let mut t = transmission(&card);
    let rapdu = t.transmit(capdu, &mut buf).expect("Transmit failed");

    assert_eq!(rapdu, &[0x9f, 0x7f, 0x55, 0x90, 0x00]);
}

#[test]
fn test_transmit_wrong_card_crc() {
    let mut buf = [0u8; 258];
    let capdu = &[0x80, 0xca, 0x9f, 0x7f];
    let card = Card::new(&[0x15, 0x00, 0x05, 0x9f, 0x7f, 0x55, 0x90, 0x00, 0x00]);

    let mut t = transmission(&card);
    let ret = t.transmit(capdu, &mut buf);

    assert!(matches!(ret, Err(Error::T1(_))));
}

#[test]
fn test_transmit_wrong_card_nad() {
    let mut buf = [0u8; 258];
    let capdu = &[0x80, 0xca, 0x9f, 0x7f];
    let card = Card::new(&[0x00, 0x00, 0x07, 0x9f, 0x7f, 0x55, 0x90, 0x00, 0x35]);

    let mut t = transmission(&card);
    let ret = t.transmit(capdu, &mut buf);

    assert!(matches!(ret, Err(Error::T1(_))));
}

#[test]
fn test_transmit_empty() {
    let mut buf = [0u8; 258];
    let capdu = &[];
    let card = Card::new(&[]);

    let mut t = transmission(&card);
    let ret = t.transmit(capdu, &mut buf);

    assert!(matches!(ret, Err(Error::T1(_))));
}

#[test]
fn test_transmit_too_long() {
    let mut buf = [0u8; 258];
    let capdu = &[0u8; 1024];
    let card = Card::new(&[]);

    let mut t = transmission(&card);
    let ret = t.transmit(capdu, &mut buf);

    assert!(matches!(ret, Err(Error::T1(_))));
}

#[test]
fn transmit_writes_exactly_one_iblock() {
    let mut buf = [0u8; 258];
    let card = Card::new(&[0x15, 0x00, 0x05, 0x9f, 0x7f, 0x55, 0x90, 0x00, 0x35]);
    let mut t = transmission(&card);
    let rapdu = t.transmit(&[0x80, 0xca, 0x9f, 0x7f], &mut buf).expect("Transmit failed");
    assert_eq!(rapdu, &[0x9f, 0x7f, 0x55, 0x90, 0x00]);
    let written = card.written.borrow();
    assert_eq!(written.len(), 1);
    assert_eq!(written[0], vec![0x51, 0x00, 0x04, 0x80, 0xca, 0x9f, 0x7f, 0xff]);
}

#[test]
fn transmit_bad_card_lrc_is_checksum_error() {
    let mut buf = [0u8; 258];
    let card = Card::new(&[0x15, 0x00, 0x05, 0x9f, 0x7f, 0x55, 0x90, 0x00, 0x00]);
    card.repeats.set(true);
    let mut t = transmission(&card);
    let ret = t.transmit(&[0x80, 0xca, 0x9f, 0x7f], &mut buf);
    assert_eq!(ret, Err(Error::T1(proto::Error::BadCrc(0x35, 0x00))));
}

#[test]
fn transmit_empty_is_no_resp_iblock() {
    let mut buf = [0u8; 258];
    let card = Card::new(&[]);
    let mut t = transmission(&card);
    let ret = t.transmit(&[], &mut buf);
    assert_eq!(ret, Err(Error::T1(proto::Error::NoRespIBlock)));
    assert!(card.written.borrow().is_empty());
}

#[test]
fn soft_reset_gets_the_answer_to_reset() {
    // S(RESET response) with a three-byte answer
    let card = Card::new(&[0x15, 0xe5, 0x03, 0x3b, 0x00, 0x10, 0x15 ^ 0xe5 ^ 0x03 ^ 0x3b ^ 0x10]);
    let mut t = builder(&card).enable_soft_reset().build();
    let atr = t.atr().map(|a| a.to_vec());
    assert_eq!(atr, Ok(vec![0x3b, 0x00, 0x10]));
    assert_eq!(card.written.borrow().len(), 1);
    assert_eq!(card.written.borrow()[0], vec![0x51, 0xc5, 0x00, 0x51 ^ 0xc5]);
    // the answer is kept: asking again needs no exchange
    let again = t.atr().map(|a| a.to_vec());
    assert_eq!(again, Ok(vec![0x3b, 0x00, 0x10]));
    assert_eq!(card.written.borrow().len(), 1);
}

#[test]
fn soft_reset_succeeds_when_the_card_answers() {
    let card = Card::new(&[0x15, 0xe5, 0x00, 0x15 ^ 0xe5]);
    let mut t = builder(&card).enable_soft_reset().build();
    assert_eq!(t.reset(), Ok(()));
    assert_eq!(t.atr().map(|a| a.to_vec()), Ok(Vec::new()));
}

#[test]
fn release_closes_and_allows_a_new_init() {
    let card = Card::new(&[]);
    let mut t = transmission(&card);
    assert_eq!(t.init(), Ok(()));
    assert_eq!(t.init(), Err(Error::AlreadyInited));
    assert_eq!(t.release(), Ok(()));
    assert_eq!(t.init(), Ok(()));
}

type Open = fn() -> Result<Option<()>, ()>;
type Close = fn(Option<&()>) -> Result<Option<()>, ()>;
type Cold = fn(Option<&()>) -> Result<(), ()>;
type Read = fn(Option<&()>, &mut [u8]) -> Result<usize, ()>;
type Write = fn(Option<&()>, &[u8]) -> Result<usize, ()>;
type Sleep = fn(u32);

fn no_sleep(_ms: u32) {}

#[test]
fn default_transmission_is_what_an_empty_builder_builds() {
    let mut t: Transmission<(), Open, Close, Cold, Read, Write, Sleep> = Default::default();
    let mut u: Transmission<(), Open, Close, Cold, Read, Write, Sleep> =
        TransmissionBuilder::new().build();
    assert_eq!(t.init(), Err(Error::NadNotSet));
    assert_eq!(u.init(), Err(Error::NadNotSet));
    let mut buf = [0u8; 16];
    assert_eq!(
        t.transmit(&[0x00, 0xa4], &mut buf).map(|r| r.to_vec()),
        Err(Error::NadNotSet)
    );
    assert_eq!(t.release(), Ok(()));
    assert_eq!(u.release(), Ok(()));
}

#[test]
fn default_builder_takes_settings() {
    let b: TransmissionBuilder<(), Open, Close, Cold, Read, Write, Sleep> = Default::default();
    let mut t = b.set_nad(NAD_CARD, NAD_DEV).build();
    assert_eq!(t.init(), Err(Error::NoSleepCb));

    let b: TransmissionBuilder<(), Open, Close, Cold, Read, Write, Sleep> = Default::default();
    let mut t = b.set_nad(NAD_CARD, NAD_DEV).set_sleep_cb(no_sleep).build();
    assert_eq!(t.init(), Ok(()));
    assert_eq!(t.reset(), Err(Error::NoReadCb));
}
