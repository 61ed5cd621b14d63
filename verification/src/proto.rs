//! The T=1 protocol engine.
//!
//! [`T1Proto`] sequences I-, R- and S-blocks over a transport that is
//! given as a read and a write callback. Its state is fixed in size;
//! the command and the response live in the caller's buffers for the
//! length of one call.
use vstd::prelude::*;
use vstd::slice::slice_subrange;
use crate::atr::ATR_SIZE;
use crate::codec::{BUF_SIZE, REQUEST_IFS, REQUEST_RESET, REQUEST_RESYNC};
pub use crate::codec::ChkAlgo;
use crate::laws::{lemma_nothing_to_send, lemma_reset_done, lemma_response_length};
use crate::model::{
    carried, exchanged_over, kept_from, plays, reads_of, smaller, writes_of, Exchange, Ifs, Nad,
    Need, Run, State, T1State, Wtx, DEFAULT_BWT, IFSD_MAX, MAX_RETRIES, NO_REQUEST, RECV_MAX,
};

mod dispatch;
mod frame;
mod link;
mod parse;

verus! {

/// Why an exchange failed. `E` is the error of the transport.
#[derive(Debug, PartialEq)]
pub enum Error<E> {
    /// The command has a length that cannot be sent. The engine takes
    /// a command of any length and never returns this.
    CApduLen(usize),
    /// There is no Answer To Reset. The engine returns an empty answer
    /// instead and never returns this.
    NoAtr,
    /// Nothing to send and nothing received.
    NoRespIBlock,
    /// The transport failed while the node address was read.
    ReadNad(E),
    /// The transport failed while the rest of the prologue was read.
    ReadHdr(E),
    /// The transport failed while the information field was read.
    ReadData(E),
    /// The transport failed to write.
    Write(E),
    /// The block is shorter than a prologue.
    ReadLen(usize),
    /// The block comes from another node.
    ReadNadVal(u8),
    /// The block has the reserved length 255.
    ReadLen255,
    /// The EDC computed and the EDC received differ.
    BadCrc(u8, u8),
    /// No block started within this many milliseconds.
    Timeout(u32),
    /// Bytes to write and bytes written.
    WriteLen(usize, usize),
    /// Bytes read and bytes wanted.
    ReadNadLen(usize, usize),
    /// Bytes read and bytes wanted.
    ReadHdrLen(usize, usize),
    /// Bytes read and bytes wanted.
    ReadDataLen(usize, usize),
    /// The block announced is longer than the scratch area. No length
    /// byte announces that much, so the engine never returns this.
    RecvLen(usize, usize),
    /// The card aborted the chain.
    Aborted,
    /// Malformed response to an IFS request.
    BadMsgIfs,
    /// Malformed response to a RESET request.
    BadMsgRst,
    /// Response to a request that is never made.
    NeverReq,
    /// The card did not acknowledge and no attempt is left.
    RbTimeout,
    /// The card reports a bad EDC in the last block.
    PrevBlkCrc,
    /// The card reports an error other than a bad EDC; the exchange
    /// halts.
    RbHalt,
    /// The card asks for a resynchronisation.
    RbResync,
    /// R-block with reserved bits set.
    RbNotSupported,
    /// The card requests a resynchronisation, which only the device
    /// may do.
    ReqResync,
    /// IFS request whose length is not 1.
    ErrorBadMsg1(u8),
    /// IFS request for a size of 0 or 255.
    ErrorBadMsg2(u8),
    /// ABORT request with an information field.
    ErrorBadMsg3(u8),
    /// WTX request longer than one byte.
    ErrorBadMsg4(u8),
    /// No round of the exchange is left.
    NoRoundsLeft,
    /// Both sides report a bad EDC.
    StateBadCrc,
    /// A block other than the awaited response.
    Ebade,
    /// Bytes received and the most that is accepted.
    RecvMsgSize(usize, usize),
}

/// Answer To Reset as stored.
struct Atr {
    buf: [u8; ATR_SIZE],
    len: usize,
}

/// Send window: where in the command the next block starts, how much
/// is left, and N(S).
#[derive(Clone, Copy)]
struct Snd {
    off: usize,
    len: usize,
    next: u8,
}

/// Receive window: bytes stored, N(R), and the room there is.
#[derive(Clone, Copy)]
struct Recv {
    len: usize,
    next: u8,
    size: usize,
}

/// What the engine keeps besides its buffers.
#[derive(Clone, Copy)]
struct Core {
    state: State,
    ifs: Ifs,
    nad: Nad,
    bwt: u32,
    retries: u8,
    request: u8,
    wtx: Wtx,
    need: Need,
    send: Snd,
    recv: Recv,
    recv_max: usize,
    recv_size: usize,
}

/// Protocol engine. `S` is the type of the sleep callback.
pub struct T1Proto<S> {
    core: Core,
    chk_algo: ChkAlgo,
    atr: Atr,
    buf: [u8; BUF_SIZE],
    n: usize,
    sleep_cb: Option<S>,
    received: Ghost<Seq<u8>>,
}

impl<S> View for T1Proto<S> {
    type V = T1State;

    closed spec fn view(&self) -> T1State {
        T1State {
            flags: self.core.state,
            ifs: self.core.ifs,
            nad: self.core.nad,
            bwt: self.core.bwt,
            retries: self.core.retries,
            request: self.core.request,
            wtx: self.core.wtx,
            need: self.core.need,
            atr: self.atr.buf@.take(self.atr.len as int),
            send_off: self.core.send.off as nat,
            send_len: self.core.send.len as nat,
            ns: self.core.send.next,
            received: self.received@,
            recv_cap: self.core.recv.size as nat,
            nr: self.core.recv.next,
            recv_size: self.core.recv_size as nat,
            recv_max: self.core.recv_max as nat,
            block: self.buf@.take(self.n as int),
        }
    }
}

impl<S: Fn(u32)> Default for T1Proto<S> {
    fn default() -> (t1: Self)
        ensures
            t1@ == T1State::initial(),
            t1.wf(),
            !t1.has_sleep_cb(),
    {
        let t1 = T1Proto {
            core: Core {
                state: State::default(),
                ifs: Ifs::default(),
                nad: Nad::default(),
                bwt: DEFAULT_BWT,
                retries: MAX_RETRIES,
                request: NO_REQUEST,
                wtx: Wtx::default(),
                need: Need::default(),
                send: Snd { off: 0, len: 0, next: 0 },
                recv: Recv { len: 0, next: 0, size: 0 },
                recv_max: RECV_MAX,
                recv_size: 0,
            },
            chk_algo: ChkAlgo::Lrc,
            atr: Atr { buf: [0u8; ATR_SIZE], len: 0 },
            buf: [0u8; BUF_SIZE],
            n: 0,
            sleep_cb: None,
            received: Ghost(Seq::empty()),
        };
        assert(t1@.atr =~= Seq::<u8>::empty());
        assert(t1@.block =~= Seq::<u8>::empty());
        t1
    }
}

impl<S: Fn(u32)> T1Proto<S> {
    /// What the machine representation keeps besides the bounds of the
    /// state: lengths within their buffers, and a sleep callback that
    /// takes any duration.
    pub closed spec fn inv(&self) -> bool {
        &&& self.n <= BUF_SIZE
        &&& self.atr.len <= ATR_SIZE
        &&& self.core.recv.len == self.received@.len()
        &&& self.core.send.off + self.core.send.len <= usize::MAX
        &&& self.sleep_cb matches Some(cb) ==> forall|ms: u32| cb.requires((ms,))
    }

    /// The engine is in a state that its functions accept and keep.
    pub open spec fn wf(&self) -> bool {
        self.inv() && self@.wf()
    }

    /// The sleep callback, if one is installed.
    pub closed spec fn on_sleep(&self) -> Option<S> {
        self.sleep_cb
    }

    /// A sleep callback is installed.
    pub open spec fn has_sleep_cb(&self) -> bool {
        self.on_sleep() is Some
    }

    /// The send window lies within the command `capdu`.
    pub open spec fn reads(&self, capdu: Seq<u8>) -> bool {
        self@.send_off + self@.send_len <= capdu.len()
    }

    /// The receive window lies within the response buffer `rapdu`,
    /// whose front holds what was received.
    pub open spec fn fills(&self, rapdu: Seq<u8>) -> bool {
        &&& self@.recv_cap <= rapdu.len()
        &&& rapdu.take(self@.received.len() as int) == self@.received
    }

    /// Tells whether a sleep callback is installed.
    pub fn sleeps(&self) -> (yes: bool)
        ensures
            yes == self.has_sleep_cb(),
    {
        self.sleep_cb.is_some()
    }

    /// Sets the node addresses of the card and of the device.
    pub fn set_nad(&mut self, card_nad: u8, dev_nad: u8)
        ensures
            final(self)@ == (T1State { nad: Nad { card: card_nad, dev: dev_nad }, ..old(self)@ }),
            old(self).wf() ==> final(self).wf(),
            final(self).on_sleep() == old(self).on_sleep(),
    {
        self.core.nad = Nad { card: card_nad, dev: dev_nad };
    }

    /// Installs the callback that waits between two polls of the line.
    pub fn set_sleep_cb(&mut self, cb: S)
        requires
            forall|ms: u32| cb.requires((ms,)),
        ensures
            final(self)@ == old(self)@,
            old(self).wf() ==> final(self).wf(),
            final(self).on_sleep() == Some(cb),
    {
        self.sleep_cb = Some(cb);
    }

    /// With `enable`, the card is reset by an S(RESET) request before
    /// the next exchange; without, no reset is due.
    pub fn set_soft_reset(&mut self, enable: bool)
        ensures
            final(self)@ == (T1State {
                need: Need { reset: enable, ..old(self)@.need },
                ..old(self)@
            }),
            old(self).wf() ==> final(self).wf(),
            final(self).on_sleep() == old(self).on_sleep(),
    {
        let mut need = self.core.need;
        need.reset = enable;
        self.core.need = need;
    }

    /// Resets the card by an S(RESET) request and keeps its Answer To
    /// Reset. The exchange starts from a cleared state in which a RESET
    /// is due, with nothing to send and no room to receive.
    pub fn reset<E, R, W>(&mut self, read: R, write: W) -> (r: Result<(), Error<E>>) where
        R: Fn(&mut [u8]) -> Result<usize, E>,
        W: Fn(&[u8]) -> Result<usize, E>,

        requires
            old(self).wf(),
            forall|b: &mut [u8]| read.requires((b,)),
            forall|b: &[u8]| write.requires((b,)),
        ensures
            exchanged_over(
                writes_of(write),
                reads_of(read),
                old(self)@.resetting(),
                Seq::<u8>::empty(),
                final(self)@,
                r,
            ),
            r is Ok ==> !final(self)@.need.reset && final(self)@.need.ifsd_sync,
            final(self).wf(),
            final(self).on_sleep() == old(self).on_sleep(),
    {
        self.clear_states();
        self.core.need.reset = true;

        let none: [u8; 0] = [];
        let mut room: [u8; 0] = [];
        assert(room@.take(0) =~= Seq::<u8>::empty());
        assert(none@ =~= Seq::<u8>::empty());
        let r: Result<(), Error<E>> = self.process(none.as_slice(), &mut room, &read, &write);
        proof {
            let start = old(self)@.resetting();
            let trace = choose|trace: Seq<Exchange<E>>|
                {
                    &&& #[trigger] plays(start, Seq::<u8>::empty(), trace, self@, r)
                    &&& carried(
                        writes_of(write),
                        reads_of(read),
                        Run::going(start.staged(), Ok::<(), Error<E>>(())),
                        Seq::<u8>::empty(),
                        trace,
                    )
                };
            if r is Ok {
                lemma_reset_done(old(self)@, trace, self@, r);
            }
        }
        r
    }

    /// Returns the Answer To Reset, first resetting the card if a reset
    /// is due.
    pub fn atr<E, R, W>(&mut self, read: R, write: W) -> (r: Result<&[u8], Error<E>>) where
        R: Fn(&mut [u8]) -> Result<usize, E>,
        W: Fn(&[u8]) -> Result<usize, E>,

        requires
            old(self).wf(),
            forall|b: &mut [u8]| read.requires((b,)),
            forall|b: &[u8]| write.requires((b,)),
        ensures
            !old(self)@.need.reset ==> final(self)@ == old(self)@ && (r matches Ok(atr) && atr@
                == old(self)@.atr),
            old(self)@.need.reset ==> exists|reset: Result<(), Error<E>>|
                {
                    &&& #[trigger] exchanged_over(
                        writes_of(write),
                        reads_of(read),
                        old(self)@.resetting(),
                        Seq::<u8>::empty(),
                        final(self)@,
                        reset,
                    )
                    &&& match reset {
                        Ok(()) => r matches Ok(atr) && atr@ == final(self)@.atr,
                        Err(e) => r matches Err(cause) && cause == e,
                    }
                },
            r is Ok ==> !final(self)@.need.reset,
            final(self).wf(),
            final(self).on_sleep() == old(self).on_sleep(),
    {
        if self.core.need.reset {
            let reset: Result<(), Error<E>> = self.reset(read, write);
            match reset {
                Ok(()) => {},
                Err(e) => {
                    return Err(e);
                },
            }
        }
        Ok(slice_subrange(self.atr.buf.as_slice(), 0, self.atr.len))
    }

    /// Sends the command `capdu` and returns the response, which is
    /// stored at the front of `rapdu`. The exchange starts from a
    /// cleared state with all of `capdu` to send and all of `rapdu` as
    /// room; on success the response is what the exchange received.
    pub fn transmit<'a, E, R, W>(
        &mut self,
        capdu: &[u8],
        rapdu: &'a mut [u8],
        read: R,
        write: W,
    ) -> (r: Result<&'a [u8], Error<E>>) where
        R: Fn(&mut [u8]) -> Result<usize, E>,
        W: Fn(&[u8]) -> Result<usize, E>,

        requires
            old(self).wf(),
            forall|b: &mut [u8]| read.requires((b,)),
            forall|b: &[u8]| write.requires((b,)),
        ensures
            exists|sent: Result<(), Error<E>>|
                {
                    &&& #[trigger] exchanged_over(
                        writes_of(write),
                        reads_of(read),
                        old(self)@.opened(capdu@.len(), old(rapdu)@.len()),
                        capdu@,
                        final(self)@,
                        sent,
                    )
                    &&& match sent {
                        Ok(()) => r matches Ok(rsp) && rsp@ == final(self)@.received,
                        Err(e) => r matches Err(cause) && cause == e,
                    }
                },
            r matches Ok(rsp) ==> {
                &&& rsp@.len() == smaller(final(self)@.recv_size, old(rapdu)@.len())
                &&& final(self)@.recv_size <= RECV_MAX
            },
            final(rapdu)@.len() == old(rapdu)@.len(),
            final(rapdu)@.take(final(self)@.received.len() as int) == final(self)@.received,
            kept_from(
                final(rapdu)@,
                old(rapdu)@,
                smaller(final(self)@.recv_size, old(rapdu)@.len()),
            ),
            r matches Ok(rsp) ==> kept_from(final(rapdu)@, old(rapdu)@, rsp@.len()),
            final(self)@.recv_size == 0 ==> final(rapdu)@ == old(rapdu)@,
            capdu@.len() == 0 && old(self)@.need == Need::settled() ==> {
                &&& r matches Err(e) && e == Error::<E>::NoRespIBlock
                &&& final(self)@ == old(self)@.opened(0, old(rapdu)@.len())
                &&& final(rapdu)@ == old(rapdu)@
            },
            final(self).wf(),
            final(self).on_sleep() == old(self).on_sleep(),
    {
        self.clear_states();

        let mut send = self.core.send;
        let mut recv = self.core.recv;
        send.len = capdu.len();
        recv.len = 0;
        recv.size = rapdu.len();
        self.core = Core { send, recv, ..self.core };
        assert(rapdu@.take(0) =~= Seq::<u8>::empty());

        let sent: Result<(), Error<E>> = self.process(capdu, rapdu, &read, &write);
        proof {
            let start = old(self)@.opened(capdu@.len(), old(rapdu)@.len());
            let trace = choose|trace: Seq<Exchange<E>>|
                {
                    &&& #[trigger] plays(start, capdu@, trace, self@, sent)
                    &&& carried(
                        writes_of(write),
                        reads_of(read),
                        Run::going(start.staged(), Ok::<(), Error<E>>(())),
                        capdu@,
                        trace,
                    )
                };
            if sent is Ok {
                lemma_response_length(old(self)@, capdu@, old(rapdu)@.len(), trace, self@, sent);
            }
            if capdu@.len() == 0 && old(self)@.need == Need::settled() {
                lemma_nothing_to_send(start, capdu@, trace, self@, sent);
            }
        }
        match sent {
            Ok(()) => {},
            Err(e) => {
                return Err(e);
            },
        }
        let all: &'a [u8] = rapdu;
        Ok(slice_subrange(all, 0, self.core.recv.len))
    }

    fn clear_states(&mut self)
        requires
            old(self).wf(),
        ensures
            final(self)@ == old(self)@.cleared(),
            final(self).wf(),
            final(self).on_sleep() == old(self).on_sleep(),
    {
        let mut core = self.core;
        core.state = State::default();
        core.wtx = Wtx::default();
        core.retries = MAX_RETRIES;
        core.request = NO_REQUEST;
        core.send.off = 0;
        core.send.len = 0;
        core.recv.len = 0;
        core.recv.size = 0;
        core.recv_size = 0;
        self.core = core;
        self.n = 0;
        self.received = Ghost(Seq::empty());
        assert(self@.block =~= Seq::<u8>::empty());
    }

    fn process_init(&mut self)
        requires
            old(self).wf(),
            old(self)@.recv_size <= old(self)@.recv_max,
        ensures
            final(self)@ == old(self)@.staged(),
            final(self).wf(),
            final(self).on_sleep() == old(self).on_sleep(),
    {
        let mut core = self.core;
        if core.need.reset {
            core.state.request = true;
            core.request = REQUEST_RESET;
        } else if core.need.resync {
            core.state.request = true;
            core.request = REQUEST_RESYNC;
        } else if core.need.ifsd_sync {
            core.state.request = true;
            core.request = REQUEST_IFS;
            core.ifs.dev = IFSD_MAX;
        }
        self.core = core;
    }
}

} // verus!
