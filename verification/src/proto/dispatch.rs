//! What the engine does with a block of the card.
use vstd::prelude::*;
use super::{Core, Error, T1Proto};
use crate::codec::{kind_of, well_framed, Block, REQUEST_IFS, REQUEST_RESET};
use crate::model::{kept_from, Run, T1State, IFSD_MAX, MAX_RETRIES, MAX_WTX_ROUNDS};

verus! {

impl<S: Fn(u32)> T1Proto<S> {
    /// Takes the block in the scratch area as the response to the
    /// pending request if it is an S-block.
    fn take_answer<E>(&mut self) -> (verdict: Result<bool, Error<E>>)
        requires
            old(self).wf(),
            old(self)@.recv_size <= old(self)@.recv_max,
            well_framed(old(self)@.block),
        ensures
            final(self)@ == (if kind_of(old(self)@.block[1]) == Block::S {
                old(self)@.answered()
            } else {
                old(self)@
            }),
            verdict == (if kind_of(old(self)@.block[1]) == Block::S {
                old(self)@.answer_verdict::<E>()
            } else {
                Ok(false)
            }),
            verdict == Ok::<bool, Error<E>>(false) ==> final(self)@ == old(self)@,
            final(self)@.recv_cap == old(self)@.recv_cap,
            final(self)@.received == old(self)@.received,
            final(self)@.send_off == old(self)@.send_off,
            final(self)@.send_len == old(self)@.send_len,
            final(self)@.retries == old(self)@.retries,
            final(self)@.wtx == old(self)@.wtx,
            final(self)@.recv_size == old(self)@.recv_size,
            final(self)@.recv_max == old(self)@.recv_max,
            final(self).wf(),
            final(self).on_sleep() == old(self).on_sleep(),
    {
        proof {
            reveal(T1State::answered);
        }
        match self.block_kind() {
            Block::S => self.parse_response(),
            _ => Ok(false),
        }
    }

    /// Ends a request that the card has answered.
    fn settle(&mut self)
        requires
            old(self).wf(),
            old(self)@.recv_size <= old(self)@.recv_max,
            old(self)@.retries > 0,
        ensures
            final(self)@ == old(self)@.settled(),
            final(self)@.recv_cap == old(self)@.recv_cap,
            final(self)@.received == old(self)@.received,
            final(self)@.send_off == old(self)@.send_off,
            final(self)@.send_len == old(self)@.send_len,
            final(self)@.recv_size == old(self)@.recv_size,
            final(self)@.recv_max == old(self)@.recv_max,
            final(self).wf(),
            final(self).on_sleep() == old(self).on_sleep(),
    {
        proof {
            reveal(T1State::settled);
        }
        let free: usize = self.recv_window_free_size();
        let chained: bool = self.core.request == REQUEST_RESET;
        let mut flags = self.core.state;
        let mut need = self.core.need;
        let mut ifs = self.core.ifs;
        let mut request: u8 = self.core.request;

        flags.request = chained;
        if free == 0 {
            flags.halt = true;
        }
        if chained {
            request = REQUEST_IFS;
            ifs.dev = IFSD_MAX;
            need.ifsd_sync = true;
        }
        self.core = Core { state: flags, retries: MAX_RETRIES, request, ifs, need, ..self.core };
    }

    /// Takes a block that arrived while a request was pending.
    fn on_pending<E>(&mut self, ret: Result<(), Error<E>>) -> (out: Result<(), Error<E>>)
        requires
            old(self).wf(),
            old(self)@.recv_size <= old(self)@.recv_max,
            old(self)@.retries > 0,
            well_framed(old(self)@.block),
        ensures
            final(self)@ == Run::going(old(self)@, ret).on_pending().state,
            out == Run::going(old(self)@, ret).on_pending().ret,
            !Run::going(old(self)@, ret).on_pending().over,
            final(self)@.recv_cap <= old(self)@.recv_cap,
            final(self)@.received == old(self)@.received || final(self)@.received
                == Seq::<u8>::empty(),
            final(self)@.send_off + final(self)@.send_len == old(self)@.send_off + old(
                self,
            )@.send_len,
            final(self)@.recv_size >= old(self)@.recv_size,
            final(self).wf(),
            final(self).on_sleep() == old(self).on_sleep(),
    {
        proof {
            reveal(Run::on_pending);
        }
        let retries: u8 = self.core.retries;
        let verdict: Result<bool, Error<E>> = self.take_answer();
        match verdict {
            Ok(false) => {
                self.core.retries = retries - 1;
                Err(Error::Ebade)
            },
            Ok(true) => {
                self.settle();
                ret
            },
            Err(e) => {
                self.core.state.halt = true;
                Err(e)
            },
        }
    }

    /// Takes an I-block that arrived while no request was pending.
    fn on_iblock<E>(&mut self, ret: Result<(), Error<E>>, rapdu: &mut [u8]) -> (out: Result<
        (),
        Error<E>,
    >)
        requires
            old(self).wf(),
            old(self)@.recv_size <= old(self)@.recv_max,
            !old(self)@.flags.request,
            !old(self)@.flags.reqresp,
            !old(self)@.flags.badcrc,
            !old(self)@.flags.timeout,
            old(self)@.retries > 0,
            !old(self)@.flags.halt,
            well_framed(old(self)@.block),
            old(self).fills(old(rapdu)@),
        ensures
            final(self)@ == Run::going(old(self)@, ret).on_iblock().state,
            out == Run::going(old(self)@, ret).on_iblock().ret,
            !Run::going(old(self)@, ret).on_iblock().over,
            final(self)@.send_off + final(self)@.send_len == old(self)@.send_off + old(
                self,
            )@.send_len,
            final(self)@.recv_size >= old(self)@.recv_size,
            final(self).wf(),
            final(self).on_sleep() == old(self).on_sleep(),
            final(self).fills(final(rapdu)@),
            final(rapdu)@.len() == old(rapdu)@.len(),
            final(rapdu)@.skip(final(self)@.received.len() as int) == old(rapdu)@.skip(
                final(self)@.received.len() as int,
            ),
    {
        proof {
            reveal(Run::on_iblock);
        }
        self.core.retries = MAX_RETRIES;
        if self.send_window_size() != 0 {
            self.ack_iblock();
        }
        let more: usize = self.parse_iblock(rapdu);
        let over: bool = self.core.recv_size > self.core.recv_max;
        let done: bool = more == 0 && self.send_window_size() == 0;
        let mut flags = self.core.state;
        let mut wtx = self.core.wtx;
        let mut out: Result<(), Error<E>> = ret;

        if flags.aborted {
        } else if over {
            out = Err(Error::RecvMsgSize(self.core.recv_size, self.core.recv_max));
            flags.halt = true;
        } else {
            if done {
                flags.halt = true;
            }
            wtx.rounds = MAX_WTX_ROUNDS;
        }
        self.core = Core { state: flags, wtx, ..self.core };
        out
    }

    /// Takes an R-block that arrived while no request was pending.
    fn on_rblock<E>(&mut self, ret: Result<(), Error<E>>) -> (out: Result<(), Error<E>>)
        requires
            old(self).wf(),
            old(self)@.recv_size <= old(self)@.recv_max,
            old(self)@.retries > 0,
            well_framed(old(self)@.block),
        ensures
            final(self)@ == Run::going(old(self)@, ret).on_rblock().state,
            out == Run::going(old(self)@, ret).on_rblock().ret,
            !Run::going(old(self)@, ret).on_rblock().over,
            final(self)@.recv_cap <= old(self)@.recv_cap,
            final(self)@.received == old(self)@.received || final(self)@.received
                == Seq::<u8>::empty(),
            final(self)@.send_off + final(self)@.send_len == old(self)@.send_off + old(
                self,
            )@.send_len,
            final(self)@.recv_size >= old(self)@.recv_size,
            final(self).wf(),
            final(self).on_sleep() == old(self).on_sleep(),
    {
        proof {
            reveal(Run::on_rblock);
        }
        let out: Result<(), Error<E>> = self.parse_rblock();
        self.core.wtx.rounds = MAX_WTX_ROUNDS;
        out
    }

    /// Takes an S-block that arrived while no request was pending.
    fn on_sblock<E>(&mut self, ret: Result<(), Error<E>>) -> (out: Result<(), Error<E>>)
        requires
            old(self).wf(),
            old(self)@.recv_size <= old(self)@.recv_max,
            old(self)@.retries > 0,
            well_framed(old(self)@.block),
        ensures
            final(self)@ == Run::going(old(self)@, ret).on_sblock().state,
            out == Run::going(old(self)@, ret).on_sblock().ret,
            !Run::going(old(self)@, ret).on_sblock().over,
            final(self)@.recv_cap <= old(self)@.recv_cap,
            final(self)@.received == old(self)@.received || final(self)@.received
                == Seq::<u8>::empty(),
            final(self)@.send_off + final(self)@.send_len == old(self)@.send_off + old(
                self,
            )@.send_len,
            final(self)@.recv_size >= old(self)@.recv_size,
            final(self).wf(),
            final(self).on_sleep() == old(self).on_sleep(),
    {
        proof {
            reveal(Run::on_sblock);
        }
        let out: Result<(), Error<E>> = self.parse_request();
        let mut flags = self.core.state;
        match &out {
            Ok(()) => {
                flags.reqresp = true;
            },
            Err(Error::NoRoundsLeft) => {},
            Err(_) => {
                flags.halt = true;
            },
        }
        self.core.state = flags;
        out
    }

    /// Takes a good block of the card.
    pub(super) fn on_block<E>(&mut self, ret: Result<(), Error<E>>, rapdu: &mut [u8]) -> (out:
        Result<(), Error<E>>)
        requires
            old(self).wf(),
            old(self)@.recv_size <= old(self)@.recv_max,
            !old(self)@.flags.request ==> !old(self)@.flags.reqresp,
            old(self)@.retries > 0,
            !old(self)@.flags.halt,
            well_framed(old(self)@.block),
            old(self).fills(old(rapdu)@),
        ensures
            final(self)@ == Run::going(old(self)@, ret).on_block().state,
            out == Run::going(old(self)@, ret).on_block().ret,
            !Run::going(old(self)@, ret).on_block().over,
            final(self)@.send_off + final(self)@.send_len == old(self)@.send_off + old(
                self,
            )@.send_len,
            final(self)@.recv_size >= old(self)@.recv_size,
            final(self).wf(),
            final(self).on_sleep() == old(self).on_sleep(),
            final(self).fills(final(rapdu)@),
            final(rapdu)@.len() == old(rapdu)@.len(),
            kept_from(final(rapdu)@, old(rapdu)@, final(self)@.received.len()),
    {
        proof {
            reveal(Run::on_block);
        }
        let mut flags = self.core.state;
        let standoff: bool = flags.badcrc && self.buf[1] & 0xef == 0x81;
        let mut retries: u8 = self.core.retries;
        if standoff {
            retries = retries - 1;
        } else {
            flags.badcrc = false;
            flags.timeout = false;
        }
        self.core = Core { state: flags, retries, ..self.core };
        let ghost calm = Run::going(self@, ret);

        let out: Result<(), Error<E>> = if standoff {
            Err(Error::StateBadCrc)
        } else if flags.request {
            self.on_pending(ret)
        } else {
            match self.block_kind() {
                Block::I => self.on_iblock(ret, rapdu),
                Block::R => self.on_rblock(ret),
                Block::S => self.on_sblock(ret),
            }
        };
        proof {
            assert(rapdu@.take(0) =~= Seq::<u8>::empty());
            let from = self@.received.len() as int;
            assert forall|i: int| from <= i < rapdu@.len() implies rapdu@[i] == old(rapdu)@[i] by {
                assert(rapdu@[i] == rapdu@.skip(from)[i - from]);
                assert(old(rapdu)@[i] == old(rapdu)@.skip(from)[i - from]);
            }
        }
        out
    }

    /// Takes what reading the block of the card ended in.
    pub(super) fn on_read<E>(
        &mut self,
        read: Result<(), Error<E>>,
        ret: Result<(), Error<E>>,
        rapdu: &mut [u8],
    ) -> (out: Result<(), Error<E>>)
        requires
            old(self).wf(),
            old(self)@.recv_size <= old(self)@.recv_max,
            !old(self)@.flags.request ==> !old(self)@.flags.reqresp,
            old(self)@.retries > 0,
            !old(self)@.flags.halt,
            read is Ok ==> well_framed(old(self)@.block),
            old(self).fills(old(rapdu)@),
        ensures
            final(self)@ == Run::going(old(self)@, ret).on_read(read).state,
            out == Run::going(old(self)@, ret).on_read(read).ret,
            !Run::going(old(self)@, ret).on_read(read).over,
            final(self)@.send_off + final(self)@.send_len == old(self)@.send_off + old(
                self,
            )@.send_len,
            final(self)@.recv_size >= old(self)@.recv_size,
            final(self).wf(),
            final(self).on_sleep() == old(self).on_sleep(),
            final(self).fills(final(rapdu)@),
            final(rapdu)@.len() == old(rapdu)@.len(),
            kept_from(final(rapdu)@, old(rapdu)@, final(self)@.received.len()),
    {
        proof {
            reveal(Run::on_read);
        }
        match read {
            Ok(()) => self.on_block(ret, rapdu),
            Err(e) => {
                let mut retries: u8 = self.core.retries - 1;
                let mut flags = self.core.state;
                match &e {
                    Error::BadCrc(_, _) => {
                        flags.badcrc = true;
                    },
                    Error::Timeout(_) => {
                        flags.timeout = true;
                    },
                    _ => {
                        retries = 0;
                    },
                }
                self.core = Core { retries, state: flags, ..self.core };
                Err(e)
            },
        }
    }
}

} // verus!
