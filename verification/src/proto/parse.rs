//! Taking in the blocks of the card.
use vstd::prelude::*;
use vstd::slice::slice_subrange;
use super::{Core, Error, Recv, Snd, T1Proto};
use crate::atr::{ifsc_after, ATR_SIZE};
use crate::codec::{
    copy_bytes, lemma_xor_differs, lemma_xor_one, well_framed, REQUEST_ABORT, REQUEST_IFS,
    REQUEST_RESET, REQUEST_RESYNC, REQUEST_WTX,
};
use crate::model::{flipped, Ifs, T1State, MAX_RETRIES, WTX_MAX_VALUE};

verus! {

impl Snd {
    /// Bytes that one I-block carries of what is left to send, for a
    /// card that takes `ifsc` bytes.
    pub(super) open spec fn chunk(self, ifsc: u8) -> usize {
        if self.len > ifsc {
            ifsc as usize
        } else {
            self.len
        }
    }

    /// The window after the card acknowledged the last I-block.
    pub(super) fn ack(self, ifsc: u8) -> (send: Snd)
        requires
            self.next <= 1,
            self.off + self.len <= usize::MAX,
        ensures
            send.off == self.off + self.chunk(ifsc),
            send.len == self.len - self.chunk(ifsc),
            send.next == flipped(self.next),
    {
        let mut n: usize = self.len;

        if n > ifsc as usize {
            n = ifsc as usize;
        }
        proof {
            lemma_xor_one(self.next);
        }
        Snd { off: self.off + n, len: self.len - n, next: self.next ^ 1 }
    }

    /// The window with nothing left to send.
    pub(super) fn close(self) -> (send: Snd)
        requires
            self.off + self.len <= usize::MAX,
        ensures
            send.off == self.off + self.len,
            send.len == 0,
            send.next == self.next,
    {
        Snd { off: self.off + self.len, len: 0, next: self.next }
    }
}

impl Recv {
    /// The window with no room and nothing stored.
    pub(super) fn close(self) -> (recv: Recv)
        ensures
            recv.len == 0,
            recv.size == 0,
            recv.next == self.next,
    {
        Recv { len: 0, next: self.next, size: 0 }
    }
}

impl<S: Fn(u32)> T1Proto<S> {
    /// Reads the stored Answer To Reset and adopts the IFSC it gives.
    pub(super) fn parse_atr(&mut self)
        requires
            old(self).inv(),
        ensures
            final(self)@ == (T1State {
                ifs: Ifs {
                    card: ifsc_after(old(self)@.atr, old(self)@.ifs.card),
                    ..old(self)@.ifs
                },
                ..old(self)@
            }),
            final(self).inv(),
            final(self).on_sleep() == old(self).on_sleep(),
    {
        let atr: &[u8] = slice_subrange(self.atr.buf.as_slice(), 0, self.atr.len);
        let found: Option<u8> = crate::atr::parse(atr);
        let mut ifs = self.core.ifs;
        match found {
            Some(ifsc) => {
                ifs.card = ifsc;
            },
            None => {},
        }
        self.core.ifs = ifs;
    }

    /// Stores the information field of the block in the scratch area
    /// as the Answer To Reset and reads it.
    pub(super) fn capture_atr(&mut self)
        requires
            old(self).inv(),
            well_framed(old(self)@.block),
            old(self)@.block[2] <= ATR_SIZE,
        ensures
            final(self)@ == ({
                let atr = old(self)@.block.subrange(3, 3 + old(self)@.block[2]);
                T1State {
                    atr,
                    ifs: Ifs { card: ifsc_after(atr, old(self)@.ifs.card), ..old(self)@.ifs },
                    ..old(self)@
                }
            }),
            final(self).inv(),
            final(self).on_sleep() == old(self).on_sleep(),
    {
        let len: usize = self.buf[2] as usize;
        let inf: &[u8] = slice_subrange(self.buf.as_slice(), 3, 3 + len);
        copy_bytes(&mut self.atr.buf, 0, inf);
        self.atr.len = len;
        assert(self@.atr =~= old(self)@.block.subrange(3, 3 + len));
        self.parse_atr();
    }

    /// Takes the S-block in the scratch area as the response to the
    /// pending request, if it is that.
    pub(super) fn parse_response<E>(&mut self) -> (r: Result<bool, Error<E>>)
        requires
            old(self).wf(),
            well_framed(old(self)@.block),
        ensures
            final(self)@ == old(self)@.answered(),
            r == old(self)@.answer_verdict::<E>(),
            final(self).wf(),
            final(self).on_sleep() == old(self).on_sleep(),
    {
        proof {
            reveal(T1State::answered);
        }
        let pcb: u8 = self.buf[1];
        let code: u8 = pcb & 0x1f;
        let len: u8 = self.buf[2];
        let mut need = self.core.need;
        let mut send_next: u8 = self.core.send.next;
        let mut recv_next: u8 = self.core.recv.next;
        let mut r: Result<bool, Error<E>> = Ok(false);
        let mut is_atr: bool = false;

        if pcb & 0x20 != 0 && code == self.core.request {
            if code == REQUEST_IFS {
                need.ifsd_sync = false;
                if len != 1 || self.buf[3] != self.core.ifs.dev {
                    r = Err(Error::BadMsgIfs);
                } else {
                    r = Ok(true);
                }
            } else if code == REQUEST_RESET {
                need.reset = false;
                if len as usize <= ATR_SIZE {
                    is_atr = true;
                    r = Ok(true);
                } else {
                    r = Err(Error::BadMsgRst);
                }
            } else if code == REQUEST_RESYNC {
                need.resync = false;
                send_next = 0;
                recv_next = 0;
                r = Ok(true);
            } else {
                r = Err(Error::NeverReq);
            }
        }
        self.core = Core {
            need,
            send: Snd { next: send_next, ..self.core.send },
            recv: Recv { next: recv_next, ..self.core.recv },
            ..self.core
        };
        if is_atr {
            self.capture_atr();
        }
        r
    }

    /// Adds the information field of the block in the scratch area to
    /// the response, as far as there is room.
    pub(super) fn recv_window_append(&mut self, rapdu: &mut [u8])
        requires
            old(self).wf(),
            well_framed(old(self)@.block),
            old(self).fills(old(rapdu)@),
        ensures
            final(self)@ == old(self)@.appended(),
            final(self).inv(),
            final(self).on_sleep() == old(self).on_sleep(),
            final(self).fills(final(rapdu)@),
            final(rapdu)@.len() == old(rapdu)@.len(),
            final(rapdu)@.skip(final(self)@.received.len() as int) == old(rapdu)@.skip(
                final(self)@.received.len() as int,
            ),
    {
        let free: usize = self.recv_window_free_size();
        let mut n: usize = self.buf[2] as usize;

        if n > free {
            n = free;
        }
        let start: usize = self.core.recv.len;
        let inf: &[u8] = slice_subrange(self.buf.as_slice(), 3, 3 + n);
        copy_bytes(rapdu, start, inf);
        self.core.recv.len = start + n;
        self.received = Ghost(self.received@ + inf@);
        assert(inf@ =~= old(self)@.block.subrange(3, 3 + n));
        assert(rapdu@.take(start + n) =~= old(rapdu)@.take(start as int) + inf@);
        assert(rapdu@.skip(start + n) =~= old(rapdu)@.skip(start + n));
    }

    /// Moves the send window past the block that was acknowledged and
    /// flips N(S).
    pub fn ack_iblock(&mut self)
        requires
            old(self).wf(),
        ensures
            final(self)@ == old(self)@.acked(),
            final(self).wf(),
            final(self).on_sleep() == old(self).on_sleep(),
    {
        let send: Snd = self.core.send.ack(self.core.ifs.card);
        self.core.send = send;
    }

    /// Takes the I-block in the scratch area. When it carries the
    /// sequence bit that is expected, N(R) flips, its information
    /// field is added to `rapdu` as far as there is room, and its
    /// length is counted; else nothing changes. Returns 1 when the
    /// card announces that more follows, else 0.
    pub fn parse_iblock(&mut self, rapdu: &mut [u8]) -> (more: usize)
        requires
            old(self).wf(),
            old(self)@.recv_size <= old(self)@.recv_max,
            !old(self)@.flags.halt,
            well_framed(old(self)@.block),
            old(self).fills(old(rapdu)@),
        ensures
            final(self)@ == old(self)@.after_iblock(),
            (more != 0) == old(self)@.more_follows(),
            more <= 1,
            final(self).inv(),
            final(self).on_sleep() == old(self).on_sleep(),
            final(self).fills(final(rapdu)@),
            final(rapdu)@.len() == old(rapdu)@.len(),
            final(rapdu)@.skip(final(self)@.received.len() as int) == old(rapdu)@.skip(
                final(self)@.received.len() as int,
            ),
    {
        let pcb: u8 = self.buf[1];
        let next: u8 = Self::zero(pcb & 0x40);

        if self.core.recv.next == next {
            proof {
                lemma_xor_one(self.core.recv.next);
            }
            self.core.recv.next = self.core.recv.next ^ 1;
            self.recv_window_append(rapdu);
            self.core.recv_size = self.core.recv_size + self.buf[2] as usize;
        }
        Self::zero(pcb & 0x20) as usize
    }

    /// Takes the R-block in the scratch area. An acknowledgement moves
    /// the send window and refills the attempts; a request for the
    /// block that was sent costs an attempt, and is an error when it
    /// was the last; a reported EDC error costs an attempt and takes
    /// N(S) from the card; a request to resynchronise costs an attempt
    /// and stages RESYNC; any other report halts the exchange. All
    /// reports are returned as errors.
    pub fn parse_rblock<E>(&mut self) -> (r: Result<(), Error<E>>)
        requires
            old(self).wf(),
            old(self)@.recv_size <= old(self)@.recv_max,
            old(self)@.retries > 0,
            well_framed(old(self)@.block),
        ensures
            final(self)@ == old(self)@.after_rblock(),
            r == old(self)@.rblock_verdict::<E>(),
            final(self)@.recv_cap <= old(self)@.recv_cap,
            final(self)@.received == old(self)@.received || final(self)@.received
                == Seq::<u8>::empty(),
            final(self)@.send_off + final(self)@.send_len == old(self)@.send_off + old(
                self,
            )@.send_len,
            final(self)@.recv_size == old(self)@.recv_size,
            final(self)@.recv_max == old(self)@.recv_max,
            final(self).wf(),
            final(self).on_sleep() == old(self).on_sleep(),
    {
        proof {
            reveal(T1State::after_rblock);
        }
        let pcb: u8 = self.buf[1];
        let next: u8 = Self::zero(pcb & 0x10);
        let code: u8 = pcb & 0x2f;
        let mut retries: u8 = self.core.retries;
        let mut flags = self.core.state;
        let mut send = self.core.send;
        let mut request: u8 = self.core.request;
        let mut r: Result<(), Error<E>> = Ok(());

        if code == 0 {
            proof {
                lemma_xor_differs(send.next, next);
            }
            if send.next ^ next != 0 {
                retries = MAX_RETRIES;
                send = send.ack(self.core.ifs.card);
            } else {
                retries = retries - 1;
                if retries == 0 {
                    r = Err(Error::RbTimeout);
                }
            }
        } else if code == 1 {
            retries = retries - 1;
            send.next = next;
            r = Err(Error::PrevBlkCrc);
        } else if code == 2 {
            flags.halt = true;
            r = Err(Error::RbHalt);
        } else if code == 3 {
            retries = retries - 1;
            flags.request = true;
            request = REQUEST_RESYNC;
            r = Err(Error::RbResync);
        } else {
            flags.halt = true;
            r = Err(Error::RbNotSupported);
        }
        self.core = Core { retries, state: flags, send, request, ..self.core };
        r
    }

    /// Takes an IFS request of the card.
    fn on_ifs_request(&mut self)
        requires
            old(self).wf(),
            old(self)@.recv_size <= old(self)@.recv_max,
            well_framed(old(self)@.block),
        ensures
            final(self)@ == old(self)@.ifs_requested(),
            final(self)@.recv_cap <= old(self)@.recv_cap,
            final(self)@.received == old(self)@.received || final(self)@.received
                == Seq::<u8>::empty(),
            final(self)@.send_off + final(self)@.send_len == old(self)@.send_off + old(
                self,
            )@.send_len,
            final(self)@.recv_size == old(self)@.recv_size,
            final(self)@.recv_max == old(self)@.recv_max,
            final(self).wf(),
            final(self).on_sleep() == old(self).on_sleep(),
    {
        proof {
            reveal(T1State::ifs_requested);
        }
        let mut ifs = self.core.ifs;
        let mut flags = self.core.state;
        if self.buf[2] == 1 && self.buf[3] != 0 && self.buf[3] != 0xFF {
            ifs.card = self.buf[3];
            flags.reqresp = true;
        }
        self.core = Core { ifs, state: flags, ..self.core };
    }

    /// Takes an ABORT request of the card.
    fn on_abort_request(&mut self)
        requires
            old(self).wf(),
            old(self)@.recv_size <= old(self)@.recv_max,
            well_framed(old(self)@.block),
        ensures
            final(self)@ == old(self)@.abort_requested(),
            final(self)@.recv_cap <= old(self)@.recv_cap,
            final(self)@.received == old(self)@.received || final(self)@.received
                == Seq::<u8>::empty(),
            final(self)@.send_off + final(self)@.send_len == old(self)@.send_off + old(
                self,
            )@.send_len,
            final(self)@.recv_size == old(self)@.recv_size,
            final(self)@.recv_max == old(self)@.recv_max,
            final(self).wf(),
            final(self).on_sleep() == old(self).on_sleep(),
    {
        proof {
            reveal(T1State::abort_requested);
        }
        let mut flags = self.core.state;
        let mut send = self.core.send;
        let mut recv = self.core.recv;
        let abort: bool = self.buf[2] == 0;
        if abort {
            flags.aborted = true;
            flags.reqresp = true;
            send = send.close();
            recv = recv.close();
        }
        self.core = Core { state: flags, send, recv, ..self.core };
        self.received = Ghost(
            if abort {
                Seq::empty()
            } else {
                self.received@
            },
        );
    }

    /// Takes a WTX request of the card.
    fn on_wtx_request(&mut self)
        requires
            old(self).wf(),
            old(self)@.recv_size <= old(self)@.recv_max,
            old(self)@.retries > 0,
            well_framed(old(self)@.block),
        ensures
            final(self)@ == old(self)@.wtx_requested(),
            final(self)@.recv_cap <= old(self)@.recv_cap,
            final(self)@.received == old(self)@.received || final(self)@.received
                == Seq::<u8>::empty(),
            final(self)@.send_off + final(self)@.send_len == old(self)@.send_off + old(
                self,
            )@.send_len,
            final(self)@.recv_size == old(self)@.recv_size,
            final(self)@.recv_max == old(self)@.recv_max,
            final(self).wf(),
            final(self).on_sleep() == old(self).on_sleep(),
    {
        proof {
            reveal(T1State::wtx_requested);
        }
        let len: u8 = self.buf[2];
        let mut wtx = self.core.wtx;
        let mut retries: u8 = self.core.retries;
        let mut flags = self.core.state;
        if len == 1 {
            wtx.wtx = self.buf[3];
            if wtx.wtx > WTX_MAX_VALUE {
                wtx.wtx = WTX_MAX_VALUE;
            }
            wtx.rounds = wtx.rounds - 1;
            if wtx.rounds <= 0 {
                retries = 0;
            } else {
                flags.reqresp = true;
            }
        } else if len == 0 {
            flags.reqresp = true;
        }
        self.core = Core { wtx, retries, state: flags, ..self.core };
    }

    /// Verdict on the request of the card in the scratch area.
    fn judge_request<E>(&self) -> (r: Result<(), Error<E>>)
        requires
            self.wf(),
            well_framed(self@.block),
        ensures
            r == self@.request_verdict::<E>(),
    {
        let request: u8 = self.buf[1] & 0x3f;
        let len: u8 = self.buf[2];
        if request == REQUEST_RESYNC {
            Err(Error::ReqResync)
        } else if request == REQUEST_IFS {
            if len != 1 {
                Err(Error::ErrorBadMsg1(len))
            } else if self.buf[3] == 0 || self.buf[3] == 0xFF {
                Err(Error::ErrorBadMsg2(len))
            } else {
                Ok(())
            }
        } else if request == REQUEST_ABORT {
            if len == 0 {
                Ok(())
            } else {
                Err(Error::ErrorBadMsg3(len))
            }
        } else if request == REQUEST_WTX {
            if len >= 2 {
                Err(Error::ErrorBadMsg4(len))
            } else if len == 1 && self.core.wtx.rounds <= 1 {
                Err(Error::NoRoundsLeft)
            } else {
                Ok(())
            }
        } else {
            Ok(())
        }
    }

    /// Takes the S-block in the scratch area as a request of the card.
    pub(super) fn parse_request<E>(&mut self) -> (r: Result<(), Error<E>>)
        requires
            old(self).wf(),
            old(self)@.recv_size <= old(self)@.recv_max,
            old(self)@.retries > 0,
            well_framed(old(self)@.block),
        ensures
            final(self)@ == old(self)@.after_request(),
            r == old(self)@.request_verdict::<E>(),
            final(self)@.recv_cap <= old(self)@.recv_cap,
            final(self)@.received == old(self)@.received || final(self)@.received
                == Seq::<u8>::empty(),
            final(self)@.send_off + final(self)@.send_len == old(self)@.send_off + old(
                self,
            )@.send_len,
            final(self)@.recv_size == old(self)@.recv_size,
            final(self)@.recv_max == old(self)@.recv_max,
            final(self).wf(),
            final(self).on_sleep() == old(self).on_sleep(),
    {
        proof {
            reveal(T1State::after_request);
        }
        let request: u8 = self.buf[1] & 0x3f;
        let r: Result<(), Error<E>> = self.judge_request();

        self.core.request = request;
        if request == REQUEST_RESYNC {
        } else if request == REQUEST_IFS {
            self.on_ifs_request();
        } else if request == REQUEST_ABORT {
            self.on_abort_request();
        } else if request == REQUEST_WTX {
            self.on_wtx_request();
        } else {
            self.core.state.reqresp = true;
        }
        r
    }
}

} // verus!
