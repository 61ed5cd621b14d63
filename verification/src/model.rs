//! Mathematical state of the protocol engine and its transitions.
//!
//! [`T1State`] is what the engine knows between two blocks. Each
//! transition is a function of that state and of what came from the
//! card; [`Run::round`] is one send and receive, and [`run`] is a
//! whole exchange over a list of transport outcomes. [`carried`] ties
//! those outcomes to what the read and write callbacks can return.
use vstd::prelude::*;
use crate::atr::{ifsc_after, ATR_SIZE};
use crate::codec::{
    bit, block, iblock_pcb, kind_of, lrc, rblock_pcb, sblock_pcb, well_framed, Block, BUF_SIZE,
    REQUEST_ABORT, REQUEST_IFS, REQUEST_RESET, REQUEST_RESYNC, REQUEST_WTX,
};
use crate::proto::Error;

verus! {

/// Attempts allowed before an exchange is given up.
pub const MAX_RETRIES: u8 = 3;

/// Waiting time extensions granted in a row.
pub const MAX_WTX_ROUNDS: i32 = 200;

/// Largest waiting time multiplier that is honoured.
pub const WTX_MAX_VALUE: u8 = 1;

/// Longest response: an extended APDU and its status word.
pub const RECV_MAX: usize = 65538;

/// Block waiting time of a new engine, in milliseconds.
pub const DEFAULT_BWT: u32 = 300;

/// Largest block waiting time the timer can count to.
pub const BWT_MAX: u32 = 0xffff_fff0;

/// Information field size announced to the card.
pub const IFSD_MAX: u8 = 254;

/// Value of the request code while no request is pending.
pub const NO_REQUEST: u8 = 0xff;

/// Milliseconds slept before each poll for the node address.
pub const POLL_MS: u32 = 2;

/// Transient condition flags of an exchange.
#[derive(Clone, Copy, Debug, PartialEq, Eq)]
pub struct State {
    pub halt: bool,
    pub request: bool,
    pub reqresp: bool,
    pub badcrc: bool,
    pub timeout: bool,
    pub aborted: bool,
}

/// Information field sizes of the card (IFSC) and the device (IFSD).
#[derive(Clone, Copy, Debug, PartialEq, Eq)]
pub struct Ifs {
    pub card: u8,
    pub dev: u8,
}

/// Node addresses of the card and the device.
#[derive(Clone, Copy, Debug, PartialEq, Eq)]
pub struct Nad {
    pub card: u8,
    pub dev: u8,
}

/// Waiting time multiplier and the extensions still allowed.
#[derive(Clone, Copy, Debug, PartialEq, Eq)]
pub struct Wtx {
    pub wtx: u8,
    pub rounds: i32,
}

/// What has to be negotiated before data can flow.
#[derive(Clone, Copy, Debug, PartialEq, Eq)]
pub struct Need {
    pub reset: bool,
    pub resync: bool,
    pub ifsd_sync: bool,
}

impl Default for State {
    fn default() -> (flags: Self)
        ensures
            flags == State::idle(),
    {
        State {
            halt: false,
            request: false,
            reqresp: false,
            badcrc: false,
            timeout: false,
            aborted: false,
        }
    }
}

impl State {
    /// No flag is raised.
    pub open spec fn idle() -> State {
        State {
            halt: false,
            request: false,
            reqresp: false,
            badcrc: false,
            timeout: false,
            aborted: false,
        }
    }
}

impl Default for Ifs {
    fn default() -> (ifs: Self)
        ensures
            ifs == (Ifs { card: 32, dev: 32 }),
    {
        Ifs { card: 32, dev: 32 }
    }
}

impl Default for Nad {
    fn default() -> (nad: Self)
        ensures
            nad == (Nad { card: 0, dev: 0 }),
    {
        Nad { card: 0, dev: 0 }
    }
}

impl Default for Wtx {
    fn default() -> (wtx: Self)
        ensures
            wtx == Wtx::fresh(),
    {
        Wtx { wtx: 1, rounds: MAX_WTX_ROUNDS }
    }
}

impl Wtx {
    /// Multiplier 1 and all extensions left.
    pub open spec fn fresh() -> Wtx {
        Wtx { wtx: 1, rounds: MAX_WTX_ROUNDS }
    }
}

impl Need {
    /// Nothing is left to negotiate.
    pub open spec fn settled() -> Need {
        Need { reset: false, resync: false, ifsd_sync: false }
    }
}

impl Default for Need {
    fn default() -> (need: Self)
        ensures
            need == (Need { reset: true, resync: false, ifsd_sync: false }),
    {
        Need { reset: true, resync: false, ifsd_sync: false }
    }
}

/// The other value of a sequence bit.
pub open spec fn flipped(b: u8) -> u8 {
    if b == 0 {
        1
    } else {
        0
    }
}

/// `after` is as long as `before` and holds the same bytes from index
/// `from` on.
pub open spec fn kept_from(after: Seq<u8>, before: Seq<u8>, from: nat) -> bool {
    &&& after.len() == before.len()
    &&& forall|i: int| from <= i < before.len() ==> after[i] == before[i]
}

/// The smaller of two numbers.
pub open spec fn smaller(a: nat, b: nat) -> nat {
    if a <= b {
        a
    } else {
        b
    }
}

/// State of the engine between two blocks.
pub struct T1State {
    pub flags: State,
    pub ifs: Ifs,
    pub nad: Nad,
    /// Block waiting time in milliseconds.
    pub bwt: u32,
    /// Attempts left.
    pub retries: u8,
    /// Code of the pending or last supervisory request.
    pub request: u8,
    pub wtx: Wtx,
    pub need: Need,
    /// Answer To Reset as last received.
    pub atr: Seq<u8>,
    /// Bytes of the command that the card has acknowledged.
    pub send_off: nat,
    /// Bytes of the command still to send.
    pub send_len: nat,
    /// Send sequence bit N(S).
    pub ns: u8,
    /// Response bytes stored so far.
    pub received: Seq<u8>,
    /// Room for the response.
    pub recv_cap: nat,
    /// Receive sequence bit N(R).
    pub nr: u8,
    /// Information bytes that accepted I-blocks carried.
    pub recv_size: nat,
    /// Longest response accepted.
    pub recv_max: nat,
    /// The block last built or received.
    pub block: Seq<u8>,
}

/// Which block goes out next.
pub enum Outbound {
    /// The pending supervisory request.
    Request,
    /// The response to a request of the card.
    Response,
    /// An R-block that reports a bad EDC.
    BadEdc,
    /// An R-block that asks again after a timeout.
    Retry,
    /// The next part of the command.
    Data,
    /// An R-block that acknowledges a chained response block.
    Ack,
    /// Nothing: the card has aborted.
    Aborted,
    /// Nothing: there is nothing to send and nothing was received.
    Nothing,
}

/// What the transport did in one round of an exchange.
pub struct Exchange<E> {
    /// What the write callback returned.
    pub wrote: Result<usize, E>,
    /// How reading and checking the block of the card ended.
    pub read: Result<(), Error<E>>,
    /// The milliseconds slept while waiting for the block.
    pub waited: nat,
    /// The bytes that were received.
    pub block: Seq<u8>,
}

/// An exchange in progress.
pub struct Run<E> {
    pub state: T1State,
    /// The last error met, if any.
    pub ret: Result<(), Error<E>>,
    /// The exchange was cut short and `ret` is its result.
    pub over: bool,
}

impl T1State {
    /// Bounds that every function of the engine keeps.
    pub open spec fn wf(self) -> bool {
        &&& self.retries <= MAX_RETRIES
        &&& self.wtx.wtx <= WTX_MAX_VALUE
        &&& 0 <= self.wtx.rounds <= MAX_WTX_ROUNDS
        &&& self.retries > 0 ==> self.wtx.rounds > 0
        &&& self.ns <= 1
        &&& self.nr <= 1
        &&& self.atr.len() <= ATR_SIZE
        &&& self.bwt <= BWT_MAX
        &&& self.received.len() == smaller(self.recv_size, self.recv_cap)
        &&& self.recv_size <= self.recv_max + 255
        &&& !self.flags.halt && !self.flags.aborted ==> self.recv_size <= self.recv_max
        &&& !self.flags.halt && self.recv_size > self.recv_max ==> self.next_outbound() is Aborted
        &&& self.flags.aborted ==> self.send_len == 0 && self.recv_cap == 0
        &&& self.recv_max <= RECV_MAX
        &&& self.block.len() <= BUF_SIZE
    }

    /// State of a new engine.
    pub open spec fn initial() -> T1State {
        T1State {
            flags: State::idle(),
            ifs: Ifs { card: 32, dev: 32 },
            nad: Nad { card: 0, dev: 0 },
            bwt: DEFAULT_BWT,
            retries: MAX_RETRIES,
            request: NO_REQUEST,
            wtx: Wtx::fresh(),
            need: Need { reset: true, resync: false, ifsd_sync: false },
            atr: Seq::empty(),
            send_off: 0,
            send_len: 0,
            ns: 0,
            received: Seq::empty(),
            recv_cap: 0,
            nr: 0,
            recv_size: 0,
            recv_max: RECV_MAX as nat,
            block: Seq::empty(),
        }
    }

    /// Room left for the response.
    pub open spec fn recv_free(self) -> nat {
        (self.recv_cap - self.received.len()) as nat
    }

    /// Start of a call: flags, retries, waiting time and both windows
    /// are reset; addresses, field sizes, the ATR, the sequence bits and
    /// what is still to negotiate stay.
    pub open spec fn cleared(self) -> T1State {
        T1State {
            flags: State::idle(),
            wtx: Wtx::fresh(),
            retries: MAX_RETRIES,
            request: NO_REQUEST,
            send_off: 0,
            send_len: 0,
            received: Seq::empty(),
            recv_cap: 0,
            recv_size: 0,
            block: Seq::empty(),
            ..self
        }
    }

    /// Start of a transmission of `send_len` bytes with room for
    /// `recv_cap` bytes of response.
    pub open spec fn opened(self, send_len: nat, recv_cap: nat) -> T1State {
        T1State { send_len, recv_cap, ..self.cleared() }
    }

    /// Start of a reset: a cleared state in which a RESET is due.
    pub open spec fn resetting(self) -> T1State {
        T1State { need: Need { reset: true, ..self.need }, ..self.cleared() }
    }

    /// The request that is due before anything else is staged: RESET,
    /// else RESYNC, else IFS with the largest IFSD.
    pub open spec fn staged(self) -> T1State {
        if self.need.reset {
            T1State {
                flags: State { request: true, ..self.flags },
                request: REQUEST_RESET,
                ..self
            }
        } else if self.need.resync {
            T1State {
                flags: State { request: true, ..self.flags },
                request: REQUEST_RESYNC,
                ..self
            }
        } else if self.need.ifsd_sync {
            T1State {
                flags: State { request: true, ..self.flags },
                request: REQUEST_IFS,
                ifs: Ifs { dev: IFSD_MAX, ..self.ifs },
                ..self
            }
        } else {
            self
        }
    }

    /// Information field of the S-block for the current request: the
    /// field size for IFS (the card's in a response, the device's in a
    /// request), the multiplier for WTX, nothing otherwise.
    pub open spec fn sblock_inf(self, mask: u8) -> Seq<u8> {
        let code = (self.request | mask) & 0x1f;
        if code == REQUEST_IFS {
            if sblock_pcb(self.request, mask) & 0x20 != 0 {
                seq![self.ifs.card]
            } else {
                seq![self.ifs.dev]
            }
        } else if code == REQUEST_WTX {
            seq![self.wtx.wtx]
        } else {
            Seq::empty()
        }
    }

    /// The S-block for the current request.
    pub open spec fn sblock(self, mask: u8) -> Seq<u8> {
        block(self.nad.dev, sblock_pcb(self.request, mask), self.sblock_inf(mask))
    }

    /// The R-block with `code` and the current N(R).
    pub open spec fn rblock(self, code: u8) -> Seq<u8> {
        block(self.nad.dev, rblock_pcb(self.nr, code), Seq::empty())
    }

    /// Bytes of the command that the next I-block carries.
    pub open spec fn chunk(self) -> nat {
        smaller(self.send_len, self.ifs.card as nat)
    }

    /// The I-block for the next part of `capdu`, chained when more
    /// remains than one block carries.
    pub open spec fn iblock(self, capdu: Seq<u8>) -> Seq<u8> {
        block(
            self.nad.dev,
            iblock_pcb(self.ns, self.send_len > self.ifs.card),
            capdu.subrange(self.send_off as int, (self.send_off + self.chunk()) as int),
        )
    }

    /// Which block goes out next, by priority.
    pub open spec fn next_outbound(self) -> Outbound {
        if self.flags.request {
            Outbound::Request
        } else if self.flags.reqresp {
            Outbound::Response
        } else if self.flags.badcrc {
            Outbound::BadEdc
        } else if self.flags.timeout {
            Outbound::Retry
        } else if self.send_len != 0 {
            Outbound::Data
        } else if self.flags.aborted {
            Outbound::Aborted
        } else if self.received.len() > 0 {
            Outbound::Ack
        } else {
            Outbound::Nothing
        }
    }

    /// The bytes of the block that goes out next.
    pub open spec fn outbound_block(self, capdu: Seq<u8>) -> Seq<u8>
        recommends
            self.next_outbound() !is Aborted,
            self.next_outbound() !is Nothing,
    {
        match self.next_outbound() {
            Outbound::Request => self.sblock(0x00),
            Outbound::Response => self.sblock(0x20),
            Outbound::BadEdc => self.rblock(1),
            Outbound::Retry => self.rblock(0),
            Outbound::Data => self.iblock(capdu),
            _ => self.rblock(0),
        }
    }

    /// State once the next block is built: it is in the scratch area,
    /// and a response that was due is no longer due.
    pub open spec fn with_outbound(self, capdu: Seq<u8>) -> T1State {
        match self.next_outbound() {
            Outbound::Aborted | Outbound::Nothing => self,
            Outbound::Response => T1State {
                flags: State { reqresp: false, ..self.flags },
                block: self.outbound_block(capdu),
                ..self
            },
            _ => T1State { block: self.outbound_block(capdu), ..self },
        }
    }

    /// Waiting time for the next block: the block waiting time times
    /// the multiplier, a multiplier of zero counting as one.
    pub open spec fn wait(self) -> nat {
        if self.wtx.wtx != 0 {
            (self.bwt * self.wtx.wtx) as nat
        } else {
            self.bwt as nat
        }
    }

    /// State once bytes were received: they are in the scratch area and
    /// the multiplier is back to one.
    pub open spec fn with_inbound(self, bytes: Seq<u8>) -> T1State {
        T1State { wtx: Wtx { wtx: 1, ..self.wtx }, block: bytes, ..self }
    }

    /// State after a block could not be read: a bad EDC and a timeout
    /// cost one attempt and are signalled to the card, anything else
    /// ends the exchange.
    pub open spec fn after_read_error<E>(self, e: Error<E>) -> T1State {
        match e {
            Error::BadCrc(_, _) => T1State {
                retries: (self.retries - 1) as u8,
                flags: State { badcrc: true, ..self.flags },
                ..self
            },
            Error::Timeout(_) => T1State {
                retries: (self.retries - 1) as u8,
                flags: State { timeout: true, ..self.flags },
                ..self
            },
            _ => T1State { retries: 0, ..self },
        }
    }

    /// The card answers our bad-EDC report with its own: its R-block
    /// carries code 1, whatever its sequence bit.
    pub open spec fn edc_standoff(self) -> bool {
        self.flags.badcrc && self.block[1] & 0xef == 0x81
    }

    /// The received S-block is a response and carries the code of the
    /// pending request.
    pub open spec fn is_answer(self) -> bool {
        self.block[1] & 0x20 != 0 && self.block[1] & 0x1f == self.request
    }

    /// Verdict on an S-block that arrived while a request was pending.
    /// `Ok(false)`: it is not the awaited response. `Ok(true)`: the
    /// response is taken. An error: the response is malformed.
    pub open spec fn answer_verdict<E>(self) -> Result<bool, Error<E>> {
        let b = self.block;
        if !self.is_answer() {
            Ok(false)
        } else if self.request == REQUEST_IFS {
            if b[2] != 1 || b[3] != self.ifs.dev {
                Err(Error::BadMsgIfs)
            } else {
                Ok(true)
            }
        } else if self.request == REQUEST_RESET {
            if b[2] <= ATR_SIZE {
                Ok(true)
            } else {
                Err(Error::BadMsgRst)
            }
        } else if self.request == REQUEST_RESYNC {
            Ok(true)
        } else {
            Err(Error::NeverReq)
        }
    }

    /// State after an S-block arrived while a request was pending. The
    /// awaited response settles what was to negotiate, even when it is
    /// malformed: an IFS response ends the IFSD negotiation, a RESET
    /// response brings the Answer To Reset and with it the IFSC, a
    /// RESYNC response zeroes both sequence bits. Anything else
    /// changes nothing.
    #[verifier::opaque]
    pub open spec fn answered(self) -> T1State {
        let b = self.block;
        if !self.is_answer() {
            self
        } else if self.request == REQUEST_IFS {
            T1State { need: Need { ifsd_sync: false, ..self.need }, ..self }
        } else if self.request == REQUEST_RESET {
            if b[2] <= ATR_SIZE {
                let atr = b.subrange(3, 3 + b[2]);
                T1State {
                    need: Need { reset: false, ..self.need },
                    atr,
                    ifs: Ifs { card: ifsc_after(atr, self.ifs.card), ..self.ifs },
                    ..self
                }
            } else {
                T1State { need: Need { reset: false, ..self.need }, ..self }
            }
        } else if self.request == REQUEST_RESYNC {
            T1State { need: Need { resync: false, ..self.need }, ns: 0, nr: 0, ..self }
        } else {
            self
        }
    }

    /// State after a pending request was answered: attempts are
    /// refilled, the exchange halts when there is no room to receive,
    /// and a RESET is followed at once by an IFS request with the
    /// largest IFSD.
    #[verifier::opaque]
    pub open spec fn settled(self) -> T1State {
        let flags = State {
            request: self.request == REQUEST_RESET,
            halt: self.flags.halt || self.recv_free() == 0,
            ..self.flags
        };
        if self.request == REQUEST_RESET {
            T1State {
                flags,
                retries: MAX_RETRIES,
                request: REQUEST_IFS,
                ifs: Ifs { dev: IFSD_MAX, ..self.ifs },
                need: Need { ifsd_sync: true, ..self.need },
                ..self
            }
        } else {
            T1State { flags, retries: MAX_RETRIES, ..self }
        }
    }

    /// State after the card acknowledged the last I-block: the send
    /// window moves past it and N(S) flips.
    pub open spec fn acked(self) -> T1State {
        T1State {
            send_off: self.send_off + self.chunk(),
            send_len: (self.send_len - self.chunk()) as nat,
            ns: flipped(self.ns),
            ..self
        }
    }

    /// Bytes of the received information field for which there is room.
    pub open spec fn fitting(self) -> nat {
        smaller(self.block[2] as nat, self.recv_free())
    }

    /// State after the information field was added to the response, as
    /// far as there is room.
    pub open spec fn appended(self) -> T1State {
        T1State {
            received: self.received + self.block.subrange(3, 3 + self.fitting() as int),
            ..self
        }
    }

    /// The received I-block carries the sequence bit we expect.
    pub open spec fn in_sequence(self) -> bool {
        self.nr == bit(self.block[1] & 0x40)
    }

    /// The received I-block announces that more follows.
    pub open spec fn more_follows(self) -> bool {
        self.block[1] & 0x20 != 0
    }

    /// State after an I-block: one in sequence flips N(R), adds its
    /// information field to the response as far as there is room, and
    /// adds its length to the bytes counted; one out of sequence
    /// changes nothing.
    pub open spec fn after_iblock(self) -> T1State {
        if self.in_sequence() {
            T1State {
                nr: flipped(self.nr),
                recv_size: self.recv_size + self.block[2] as nat,
                ..self.appended()
            }
        } else {
            self
        }
    }

    /// The received R-block acknowledges the last I-block: it reports
    /// no error and asks for the other sequence bit than the one sent.
    pub open spec fn is_ack(self) -> bool {
        self.block[1] & 0x2f == 0 && self.ns != bit(self.block[1] & 0x10)
    }

    /// Verdict on an R-block, by the error code in its PCB.
    pub open spec fn rblock_verdict<E>(self) -> Result<(), Error<E>> {
        let code = self.block[1] & 0x2f;
        if code == 0 {
            if !self.is_ack() && self.retries == 1 {
                Err(Error::RbTimeout)
            } else {
                Ok(())
            }
        } else if code == 1 {
            Err(Error::PrevBlkCrc)
        } else if code == 2 {
            Err(Error::RbHalt)
        } else if code == 3 {
            Err(Error::RbResync)
        } else {
            Err(Error::RbNotSupported)
        }
    }

    /// State after an R-block. An acknowledgement refills the attempts
    /// and moves the send window; a repeated request for the same
    /// block and a reported EDC error cost an attempt, the latter
    /// taking N(S) from the card; a report of another error halts; a
    /// request to resynchronise stages RESYNC; reserved bits halt.
    #[verifier::opaque]
    pub open spec fn after_rblock(self) -> T1State {
        let pcb = self.block[1];
        let next = bit(pcb & 0x10);
        let code = pcb & 0x2f;
        if code == 0 {
            if self.ns != next {
                T1State { retries: MAX_RETRIES, ..self }.acked()
            } else {
                T1State { retries: (self.retries - 1) as u8, ..self }
            }
        } else if code == 1 {
            T1State { retries: (self.retries - 1) as u8, ns: next, ..self }
        } else if code == 2 {
            T1State { flags: State { halt: true, ..self.flags }, ..self }
        } else if code == 3 {
            T1State {
                retries: (self.retries - 1) as u8,
                flags: State { request: true, ..self.flags },
                request: REQUEST_RESYNC,
                ..self
            }
        } else {
            T1State { flags: State { halt: true, ..self.flags }, ..self }
        }
    }

    /// The waiting time extension asked for uses up the last round.
    pub open spec fn out_of_rounds(self) -> bool {
        self.block[1] & 0x3f == REQUEST_WTX && self.block[2] == 1 && self.wtx.rounds <= 1
    }

    /// Verdict on a request of the card.
    pub open spec fn request_verdict<E>(self) -> Result<(), Error<E>> {
        let b = self.block;
        let request = b[1] & 0x3f;
        if request == REQUEST_RESYNC {
            Err(Error::ReqResync)
        } else if request == REQUEST_IFS {
            if b[2] != 1 {
                Err(Error::ErrorBadMsg1(b[2]))
            } else if b[3] == 0 || b[3] == 0xff {
                Err(Error::ErrorBadMsg2(b[2]))
            } else {
                Ok(())
            }
        } else if request == REQUEST_ABORT {
            if b[2] == 0 {
                Ok(())
            } else {
                Err(Error::ErrorBadMsg3(b[2]))
            }
        } else if request == REQUEST_WTX {
            if b[2] >= 2 {
                Err(Error::ErrorBadMsg4(b[2]))
            } else if self.out_of_rounds() {
                Err(Error::NoRoundsLeft)
            } else {
                Ok(())
            }
        } else {
            Ok(())
        }
    }

    /// State after an IFS request of the card: a request of one byte
    /// other than 0 and 255 sets the IFSC, and a response is due.
    #[verifier::opaque]
    pub open spec fn ifs_requested(self) -> T1State {
        let b = self.block;
        if b[2] != 1 || b[3] == 0 || b[3] == 0xff {
            self
        } else {
            T1State {
                flags: State { reqresp: true, ..self.flags },
                ifs: Ifs { card: b[3], ..self.ifs },
                ..self
            }
        }
    }

    /// State after an ABORT request of the card: one without
    /// information field closes both windows, and a response is due.
    #[verifier::opaque]
    pub open spec fn abort_requested(self) -> T1State {
        if self.block[2] == 0 {
            T1State {
                flags: State { reqresp: true, aborted: true, ..self.flags },
                send_off: self.send_off + self.send_len,
                send_len: 0,
                received: Seq::empty(),
                recv_cap: 0,
                ..self
            }
        } else {
            self
        }
    }

    /// State after a WTX request of the card: one of one byte sets the
    /// multiplier, capped, and uses up a round, the last one leaving
    /// no attempt; unless it is longer or the rounds are used up, a
    /// response is due.
    #[verifier::opaque]
    pub open spec fn wtx_requested(self) -> T1State {
        let b = self.block;
        if b[2] >= 2 {
            self
        } else if b[2] == 1 {
            let wtx: u8 = if b[3] > WTX_MAX_VALUE {
                WTX_MAX_VALUE
            } else {
                b[3]
            };
            let rounds = (self.wtx.rounds - 1) as i32;
            if rounds <= 0 {
                T1State { wtx: Wtx { wtx, rounds }, retries: 0, ..self }
            } else {
                T1State {
                    flags: State { reqresp: true, ..self.flags },
                    wtx: Wtx { wtx, rounds },
                    ..self
                }
            }
        } else {
            T1State { flags: State { reqresp: true, ..self.flags }, ..self }
        }
    }

    /// State after a request of the card: its code is noted and the
    /// request is handled by its kind. A resynchronisation is refused;
    /// a request of any other kind is only answered.
    #[verifier::opaque]
    pub open spec fn after_request(self) -> T1State {
        let request = self.block[1] & 0x3f;
        let s = T1State { request, ..self };
        if request == REQUEST_RESYNC {
            s
        } else if request == REQUEST_IFS {
            s.ifs_requested()
        } else if request == REQUEST_ABORT {
            s.abort_requested()
        } else if request == REQUEST_WTX {
            s.wtx_requested()
        } else {
            T1State { flags: State { reqresp: true, ..s.flags }, ..s }
        }
    }

    /// State after a request of the card was handled with verdict
    /// `verdict`: any error but running out of extensions halts.
    pub open spec fn judged<E>(self, verdict: Result<(), Error<E>>) -> T1State {
        match verdict {
            Ok(()) => T1State { flags: State { reqresp: true, ..self.flags }, ..self },
            Err(Error::NoRoundsLeft) => self,
            Err(_) => T1State { flags: State { halt: true, ..self.flags }, ..self },
        }
    }
}

impl<E> Run<E> {
    /// A run in state `state` whose last error is `ret` and that was
    /// not cut short.
    pub open spec fn going(state: T1State, ret: Result<(), Error<E>>) -> Run<E> {
        Run { state, ret, over: false }
    }

    /// The exchange goes on: it was not cut short, it has not halted
    /// and attempts are left.
    pub open spec fn live(self) -> bool {
        !self.over && !self.state.flags.halt && self.state.retries > 0
    }

    /// The same run in state `state`.
    pub open spec fn at(self, state: T1State) -> Run<E> {
        Run { state, ..self }
    }

    /// The same run in state `state` after error `e`.
    pub open spec fn failed(self, state: T1State, e: Error<E>) -> Run<E> {
        Run { state, ret: Err(e), ..self }
    }

    /// The run cut short in state `state` with error `e`.
    pub open spec fn cut(self, state: T1State, e: Error<E>) -> Run<E> {
        Run { state, ret: Err(e), over: true }
    }

    /// The run after an I-block arrived while no request was pending.
    #[verifier::opaque]
    pub open spec fn on_iblock(self) -> Run<E> {
        let s0 = T1State { retries: MAX_RETRIES, ..self.state };
        let s1 = if s0.send_len != 0 {
            s0.acked()
        } else {
            s0
        };
        let s2 = s1.after_iblock();
        if s2.flags.aborted {
            self.at(s2)
        } else if s2.recv_size > s2.recv_max {
            self.failed(
                T1State { flags: State { halt: true, ..s2.flags }, ..s2 },
                Error::RecvMsgSize(s2.recv_size as usize, s2.recv_max as usize),
            )
        } else {
            let done = !s1.more_follows() && s2.send_len == 0;
            self.at(
                T1State {
                    flags: State { halt: s2.flags.halt || done, ..s2.flags },
                    wtx: Wtx { rounds: MAX_WTX_ROUNDS, ..s2.wtx },
                    ..s2
                },
            )
        }
    }

    /// The run after an R-block arrived while no request was pending.
    #[verifier::opaque]
    pub open spec fn on_rblock(self) -> Run<E> {
        let s = self.state.after_rblock();
        Run {
            state: T1State { wtx: Wtx { rounds: MAX_WTX_ROUNDS, ..s.wtx }, ..s },
            ret: self.state.rblock_verdict(),
            ..self
        }
    }

    /// The run after an S-block arrived while no request was pending.
    #[verifier::opaque]
    pub open spec fn on_sblock(self) -> Run<E> {
        let verdict = self.state.request_verdict::<E>();
        Run { state: self.state.after_request().judged(verdict), ret: verdict, ..self }
    }

    /// The run after a block arrived while a request was pending: only
    /// the response to that request is taken, anything else costs an
    /// attempt.
    #[verifier::opaque]
    pub open spec fn on_pending(self) -> Run<E> {
        let unexpected = self.failed(
            T1State { retries: (self.state.retries - 1) as u8, ..self.state },
            Error::Ebade,
        );
        if kind_of(self.state.block[1]) == Block::S {
            let s = self.state.answered();
            match self.state.answer_verdict::<E>() {
                Ok(false) => unexpected,
                Ok(true) => self.at(s.settled()),
                Err(e) => self.failed(T1State { flags: State { halt: true, ..s.flags }, ..s }, e),
            }
        } else {
            unexpected
        }
    }

    /// The run after a block was received and found good.
    #[verifier::opaque]
    pub open spec fn on_block(self) -> Run<E> {
        let s = self.state;
        if s.edc_standoff() {
            self.failed(T1State { retries: (s.retries - 1) as u8, ..s }, Error::StateBadCrc)
        } else {
            let calm = self.at(
                T1State { flags: State { badcrc: false, timeout: false, ..s.flags }, ..s },
            );
            if s.flags.request {
                calm.on_pending()
            } else {
                match kind_of(s.block[1]) {
                    Block::I => calm.on_iblock(),
                    Block::R => calm.on_rblock(),
                    Block::S => calm.on_sblock(),
                }
            }
        }
    }

    /// The run after the block of the card was read with outcome
    /// `read`: a good block is handled, an error is noted.
    #[verifier::opaque]
    pub open spec fn on_read(self, read: Result<(), Error<E>>) -> Run<E> {
        match read {
            Ok(()) => self.on_block(),
            Err(e) => self.failed(self.state.after_read_error(e), e),
        }
    }

    /// The round gets as far as reading: there is a block to send and
    /// it is written whole.
    pub open spec fn reads_after(self, capdu: Seq<u8>, wrote: Result<usize, E>) -> bool {
        &&& self.state.next_outbound() !is Aborted
        &&& self.state.next_outbound() !is Nothing
        &&& wrote == Ok::<usize, E>(self.state.outbound_block(capdu).len() as usize)
    }

    /// One round of a live run: the next block is built and written,
    /// and what comes back is handled. The run is cut short when there
    /// is nothing to send or the block cannot be written whole.
    #[verifier::opaque]
    pub open spec fn round(self, capdu: Seq<u8>, ex: Exchange<E>) -> Run<E> {
        let s = self.state;
        match s.next_outbound() {
            Outbound::Aborted => self.cut(s, Error::Aborted),
            Outbound::Nothing => self.cut(s, Error::NoRespIBlock),
            _ => {
                let sent = s.with_outbound(capdu);
                match ex.wrote {
                    Err(e) => self.cut(sent, Error::Write(e)),
                    Ok(n) => if n != sent.block.len() {
                        self.cut(sent, Error::WriteLen(sent.block.len() as usize, n))
                    } else {
                        self.at(sent.with_inbound(ex.block)).on_read(ex.read)
                    },
                }
            },
        }
    }
}

/// `waited` milliseconds can have been slept while polling for the
/// node address with a waiting time of `wait` milliseconds: there was
/// at least one poll, the same sleep went before each, and the last
/// poll began before more than the waiting time had been slept.
pub open spec fn polled(wait: nat, waited: nat) -> bool {
    &&& waited % (POLL_MS as nat) == 0
    &&& POLL_MS <= waited <= wait + POLL_MS
}

/// What receiving a block can end in before the block is checked, for
/// a card at address `nad` and a waiting time of `wait` milliseconds,
/// of which `waited` were slept: a well-framed block from the card, or
/// a transport error with at most a partial block. The waiting time
/// runs out only once more than `wait` milliseconds have been slept.
pub open spec fn receivable<E>(
    nad: u8,
    wait: nat,
    waited: nat,
    recv: Result<(), Error<E>>,
    bytes: Seq<u8>,
) -> bool {
    &&& bytes.len() <= BUF_SIZE
    &&& polled(wait, waited)
    &&& match recv {
        Ok(()) => well_framed(bytes) && bytes[0] == nad,
        Err(Error::ReadNad(_)) => bytes.len() <= 1,
        Err(Error::ReadNadLen(got, want)) => want == 1 && got != 1 && bytes.len() <= 1,
        Err(Error::Timeout(ms)) => ms == wait && waited > wait && bytes.len() == 1 && bytes[0]
            != nad,
        Err(Error::ReadHdr(_)) => bytes.len() == 1,
        Err(Error::ReadHdrLen(got, want)) => want == 3 && got != 3 && bytes.len() == 1,
        Err(Error::ReadData(_)) => bytes.len() == 4,
        Err(Error::ReadDataLen(got, want)) => want == bytes[2] && got != want && bytes.len() == 4,
        Err(_) => false,
    }
}

/// Result of checking a received block against the address `nad` of
/// the card: it has to be as long as a prologue, come from the card,
/// not have the reserved length 255, and carry the EDC that is
/// computed over it.
pub open spec fn check<E>(nad: u8, b: Seq<u8>) -> Result<(), Error<E>> {
    if b.len() < 3 {
        Err(Error::ReadLen(b.len() as usize))
    } else if b[0] != nad {
        Err(Error::ReadNadVal(b[0]))
    } else if b[2] == 255 {
        Err(Error::ReadLen255)
    } else if lrc(b.take(3 + b[2])) != b[3 + b[2]] {
        Err(Error::BadCrc(lrc(b.take(3 + b[2])), b[3 + b[2]]))
    } else {
        Ok(())
    }
}

/// What reading a block can end in, for a card at address `nad` and a
/// waiting time of `wait` milliseconds, of which `waited` were slept:
/// receiving fails and that is the outcome, or a block is received and
/// the outcome is that of the check.
pub open spec fn readable<E>(
    nad: u8,
    wait: nat,
    waited: nat,
    read: Result<(), Error<E>>,
    bytes: Seq<u8>,
) -> bool {
    ||| read is Err && receivable(nad, wait, waited, read, bytes)
    ||| receivable(nad, wait, waited, Ok::<(), Error<E>>(()), bytes) && read == check::<E>(
        nad,
        bytes,
    )
}

/// Every round of `trace` that gets as far as reading holds an
/// outcome that reading a block can end in.
pub open spec fn admissible<E>(start: Run<E>, capdu: Seq<u8>, trace: Seq<Exchange<E>>) -> bool
    decreases trace.len(),
{
    if trace.len() == 0 {
        true
    } else {
        let before = run(start, capdu, trace.drop_last());
        &&& admissible(start, capdu, trace.drop_last())
        &&& before.live() && before.reads_after(capdu, trace.last().wrote) ==> readable(
            before.state.nad.card,
            before.state.wait(),
            trace.last().waited,
            trace.last().read,
            trace.last().block,
        )
    }
}

/// The run after the rounds of `trace`, each played on the state that
/// the one before left. Rounds after the run has ended change nothing.
pub open spec fn run<E>(start: Run<E>, capdu: Seq<u8>, trace: Seq<Exchange<E>>) -> Run<E>
    decreases trace.len(),
{
    if trace.len() == 0 {
        start
    } else {
        let before = run(start, capdu, trace.drop_last());
        if before.live() {
            before.round(capdu, trace.last())
        } else {
            before
        }
    }
}

/// What the write callback returned when sending failed with `e`.
pub open spec fn wrote_of<E>(e: Error<E>) -> Result<usize, E> {
    match e {
        Error::Write(cause) => Err(cause),
        Error::WriteLen(_, n) => Ok(n),
        _ => Ok(0),
    }
}

/// A round led the run `before` to `after` when the transport did
/// `ex`: `after` is what the round makes of `ex`, and `ex` holds an
/// outcome that reading can end in, if the round got as far.
pub open spec fn rounded<E>(
    before: Run<E>,
    capdu: Seq<u8>,
    ex: Exchange<E>,
    after: Run<E>,
) -> bool {
    &&& after == before.round(capdu, ex)
    &&& before.reads_after(capdu, ex.wrote) ==> readable(
        before.state.nad.card,
        before.state.wait(),
        ex.waited,
        ex.read,
        ex.block,
    )
}

/// Rounds after which an exchange is given up, whatever its state.
/// No exchange that moves data comes near this number; it makes sure
/// that every call returns.
pub const MAX_ROUNDS: u64 = 0xffff_ffff_ffff_ffff;

/// The exchange that starts in state `start` and meets the transport
/// outcomes of `trace` ends in state `end` with result `result`: what
/// is due is staged, the rounds are played, and the result is the
/// last error met, if any. A run that is still live after
/// `MAX_ROUNDS` rounds is given up.
pub open spec fn plays<E>(
    start: T1State,
    capdu: Seq<u8>,
    trace: Seq<Exchange<E>>,
    end: T1State,
    result: Result<(), Error<E>>,
) -> bool {
    let first = Run { state: start.staged(), ret: Ok(()), over: false };
    let last = run(first, capdu, trace);
    &&& admissible(first, capdu, trace)
    &&& trace.len() <= MAX_ROUNDS
    &&& end == last.state
    &&& if last.live() {
        trace.len() == MAX_ROUNDS && result == Err::<(), Error<E>>(Error::NoRoundsLeft)
    } else {
        result == last.ret
    }
}

/// Some list of transport outcomes leads the exchange from `start`
/// to `end` and `result`.
pub open spec fn exchanged<E>(
    start: T1State,
    capdu: Seq<u8>,
    end: T1State,
    result: Result<(), Error<E>>,
) -> bool {
    exists|trace: Seq<Exchange<E>>| #[trigger] plays(start, capdu, trace, end, result)
}

/// `wrote` is a result that the write callback can give for the
/// bytes `block`.
pub open spec fn written<E, W: Fn(&[u8]) -> Result<usize, E>>(
    write: W,
    block: Seq<u8>,
    wrote: Result<usize, E>,
) -> bool {
    exists|b: &[u8]| b@ == block && #[trigger] write.ensures((b,), wrote)
}

/// `got` is a result that the read callback can give for a slice of
/// `len` bytes.
pub open spec fn heard<E, R: Fn(&mut [u8]) -> Result<usize, E>>(
    read: R,
    len: nat,
    got: Result<usize, E>,
) -> bool {
    exists|b: &mut [u8]| b@.len() == len && #[trigger] read.ensures((b,), got)
}

/// What the read callback can give, as a relation between the length
/// of the slice to fill and the result.
pub open spec fn reads_of<E, R: Fn(&mut [u8]) -> Result<usize, E>>(read: R) -> spec_fn(
    nat,
    Result<usize, E>,
) -> bool {
    |len: nat, got: Result<usize, E>| heard(read, len, got)
}

/// How receiving ended, given how reading and checking ended: an
/// error of the transport is one of receiving; with any other outcome
/// a block was received.
pub open spec fn received<E>(read: Result<(), Error<E>>) -> Result<(), Error<E>> {
    match read {
        Err(Error::ReadNad(_)) => read,
        Err(Error::ReadNadLen(_, _)) => read,
        Err(Error::Timeout(_)) => read,
        Err(Error::ReadHdr(_)) => read,
        Err(Error::ReadHdrLen(_, _)) => read,
        Err(Error::ReadData(_)) => read,
        Err(Error::ReadDataLen(_, _)) => read,
        _ => Ok(()),
    }
}

/// The outcome `recv` of receiving `bytes` is backed by results that
/// reading can give according to `reads`. A block is received by
/// reads of one byte for the node address, one of three bytes for the
/// rest of the prologue and the byte behind it, and one of as many
/// bytes as the length byte says; receiving fails with the first
/// read that fails or comes short.
pub open spec fn told<E>(
    reads: spec_fn(nat, Result<usize, E>) -> bool,
    recv: Result<(), Error<E>>,
    bytes: Seq<u8>,
) -> bool {
    match recv {
        Ok(()) => {
            &&& reads(1, Ok(1))
            &&& reads(3, Ok(3))
            &&& bytes[2] != 0 ==> reads(bytes[2] as nat, Ok(bytes[2] as usize))
        },
        Err(Error::ReadNad(e)) => reads(1, Err(e)),
        Err(Error::ReadNadLen(got, _)) => reads(1, Ok(got)),
        Err(Error::Timeout(_)) => reads(1, Ok(1)),
        Err(Error::ReadHdr(e)) => reads(1, Ok(1)) && reads(3, Err(e)),
        Err(Error::ReadHdrLen(got, _)) => reads(1, Ok(1)) && reads(3, Ok(got)),
        Err(Error::ReadData(e)) => {
            &&& reads(1, Ok(1))
            &&& reads(3, Ok(3))
            &&& reads(bytes[2] as nat, Err(e))
        },
        Err(Error::ReadDataLen(got, _)) => {
            &&& reads(1, Ok(1))
            &&& reads(3, Ok(3))
            &&& reads(bytes[2] as nat, Ok(got))
        },
        Err(_) => true,
    }
}

/// What the write callback can give, as a relation between the bytes
/// written and the result.
pub open spec fn writes_of<E, W: Fn(&[u8]) -> Result<usize, E>>(write: W) -> spec_fn(
    Seq<u8>,
    Result<usize, E>,
) -> bool {
    |block: Seq<u8>, wrote: Result<usize, E>| written(write, block, wrote)
}

/// In every round of `trace` that has a block to send, what was
/// written is a result that writing that block can give according to
/// `writes`; and in every round that gets as far as reading, how
/// receiving ended is backed by results that reading can give
/// according to `reads`.
pub open spec fn carried<E>(
    writes: spec_fn(Seq<u8>, Result<usize, E>) -> bool,
    reads: spec_fn(nat, Result<usize, E>) -> bool,
    start: Run<E>,
    capdu: Seq<u8>,
    trace: Seq<Exchange<E>>,
) -> bool
    decreases trace.len(),
{
    if trace.len() == 0 {
        true
    } else {
        let before = run(start, capdu, trace.drop_last());
        &&& carried(writes, reads, start, capdu, trace.drop_last())
        &&& before.live() && before.state.next_outbound() !is Aborted
            && before.state.next_outbound() !is Nothing ==> writes(
            before.state.outbound_block(capdu),
            trace.last().wrote,
        )
        &&& before.live() && before.reads_after(capdu, trace.last().wrote) ==> told(
            reads,
            received(trace.last().read),
            trace.last().block,
        )
    }
}

/// Some list of transport outcomes leads the exchange from `start`
/// to `end` and `result`, and what it holds as written and as read is
/// backed by results that the callbacks can give according to
/// `writes` and `reads`.
pub open spec fn exchanged_over<E>(
    writes: spec_fn(Seq<u8>, Result<usize, E>) -> bool,
    reads: spec_fn(nat, Result<usize, E>) -> bool,
    start: T1State,
    capdu: Seq<u8>,
    end: T1State,
    result: Result<(), Error<E>>,
) -> bool {
    exists|trace: Seq<Exchange<E>>|
        {
            &&& #[trigger] plays(start, capdu, trace, end, result)
            &&& carried(
                writes,
                reads,
                Run::going(start.staged(), Ok::<(), Error<E>>(())),
                capdu,
                trace,
            )
        }
}

/// What one more round adds to `carried`.
pub proof fn lemma_carried_push<E>(
    writes: spec_fn(Seq<u8>, Result<usize, E>) -> bool,
    reads: spec_fn(nat, Result<usize, E>) -> bool,
    start: Run<E>,
    capdu: Seq<u8>,
    trace: Seq<Exchange<E>>,
    ex: Exchange<E>,
)
    ensures
        carried(writes, reads, start, capdu, trace.push(ex)) == ({
            let before = run(start, capdu, trace);
            &&& carried(writes, reads, start, capdu, trace)
            &&& before.live() && before.state.next_outbound() !is Aborted
                && before.state.next_outbound() !is Nothing ==> writes(
                before.state.outbound_block(capdu),
                ex.wrote,
            )
            &&& before.live() && before.reads_after(capdu, ex.wrote) ==> told(
                reads,
                received(ex.read),
                ex.block,
            )
        }),
{
    assert(trace.push(ex).drop_last() =~= trace);
}

/// The relation `wide` allows all that `narrow` allows.
pub open spec fn wider<A, B>(narrow: spec_fn(A, B) -> bool, wide: spec_fn(A, B) -> bool) -> bool {
    forall|a: A, b: B| #[trigger] narrow(a, b) ==> wide(a, b)
}

/// What is carried according to two relations is carried according to
/// any two that allow all that those allow.
pub proof fn lemma_carried_wider<E>(
    writes: spec_fn(Seq<u8>, Result<usize, E>) -> bool,
    reads: spec_fn(nat, Result<usize, E>) -> bool,
    wide_writes: spec_fn(Seq<u8>, Result<usize, E>) -> bool,
    wide_reads: spec_fn(nat, Result<usize, E>) -> bool,
    start: Run<E>,
    capdu: Seq<u8>,
    trace: Seq<Exchange<E>>,
)
    requires
        carried(writes, reads, start, capdu, trace),
        wider(writes, wide_writes),
        wider(reads, wide_reads),
    ensures
        carried(wide_writes, wide_reads, start, capdu, trace),
    decreases trace.len(),
{
    if trace.len() > 0 {
        lemma_carried_wider(
            writes,
            reads,
            wide_writes,
            wide_reads,
            start,
            capdu,
            trace.drop_last(),
        );
    }
}

/// An exchange over two relations is an exchange over any two that
/// allow all that those allow.
pub proof fn lemma_exchanged_wider<E>(
    writes: spec_fn(Seq<u8>, Result<usize, E>) -> bool,
    reads: spec_fn(nat, Result<usize, E>) -> bool,
    wide_writes: spec_fn(Seq<u8>, Result<usize, E>) -> bool,
    wide_reads: spec_fn(nat, Result<usize, E>) -> bool,
    start: T1State,
    capdu: Seq<u8>,
    end: T1State,
    result: Result<(), Error<E>>,
)
    requires
        exchanged_over(writes, reads, start, capdu, end, result),
        wider(writes, wide_writes),
        wider(reads, wide_reads),
    ensures
        exchanged_over(wide_writes, wide_reads, start, capdu, end, result),
{
    let first = Run::going(start.staged(), Ok::<(), Error<E>>(()));
    let trace = choose|trace: Seq<Exchange<E>>|
        {
            &&& #[trigger] plays(start, capdu, trace, end, result)
            &&& carried(writes, reads, first, capdu, trace)
        };
    lemma_carried_wider(writes, reads, wide_writes, wide_reads, first, capdu, trace);
}

/// Playing one more round.
pub proof fn lemma_run_push<E>(
    start: Run<E>,
    capdu: Seq<u8>,
    trace: Seq<Exchange<E>>,
    ex: Exchange<E>,
)
    ensures
        run(start, capdu, trace.push(ex)) == (if run(start, capdu, trace).live() {
            run(start, capdu, trace).round(capdu, ex)
        } else {
            run(start, capdu, trace)
        }),
        admissible(start, capdu, trace.push(ex)) == (admissible(start, capdu, trace) && (run(
            start,
            capdu,
            trace,
        ).live() && run(start, capdu, trace).reads_after(capdu, ex.wrote) ==> readable(
            run(start, capdu, trace).state.nad.card,
            run(start, capdu, trace).state.wait(),
            ex.waited,
            ex.read,
            ex.block,
        ))),
{
    assert(trace.push(ex).drop_last() =~= trace);
}

} // verus!
