//! Moving blocks over the transport and driving an exchange.
use vstd::prelude::*;
use vstd::slice::slice_subrange;
use super::{Error, T1Proto};
use crate::clock::Clock;
use crate::codec::BUF_SIZE;
use crate::model::{
    admissible, carried, exchanged_over, kept_from, lemma_carried_push, lemma_run_push, plays,
    readable, reads_of, receivable, received, rounded, run, smaller, told, writes_of, written,
    wrote_of, Exchange, Outbound, Run, BWT_MAX, MAX_ROUNDS, POLL_MS,
};

verus! {

/// Receives one block into `buf`: polls one byte at a time, with a
/// sleep on `clock` before each poll, until the node address of the
/// card shows or the waiting time of the clock is over, then reads the
/// rest of the prologue and as many bytes as the EDC is long, then as
/// many bytes as the length byte says. Returns how many bytes were
/// received and how it ended. What was received is what the read
/// callback left in the slices it was given.
fn recv_block<E, R, S>(
    buf: &mut [u8; BUF_SIZE],
    nad: u8,
    bwt: u32,
    edc_len: usize,
    clock: &mut Clock<'_, S>,
    read: &R,
) -> (out: (usize, Result<(), Error<E>>)) where
    R: Fn(&mut [u8]) -> Result<usize, E>,
    S: Fn(u32),

    requires
        bwt <= BWT_MAX,
        edc_len == 1,
        old(clock).elapsed() == 0,
        old(clock).limit() == bwt,
        old(clock).callable(),
        forall|b: &mut [u8]| read.requires((b,)),
    ensures
        out.0 <= BUF_SIZE,
        final(clock).limit() == bwt,
        final(clock).on_sleep() == old(clock).on_sleep(),
        receivable(
            nad,
            bwt as nat,
            final(clock).elapsed(),
            out.1,
            final(buf)@.take(out.0 as int),
        ),
        told(reads_of(*read), out.1, final(buf)@.take(out.0 as int)),
        out.0 >= 1 && !(out.1 matches Err(Error::ReadNad(_))) && !(out.1 matches Err(
            Error::ReadNadLen(_, _),
        )) ==> exists|b: &mut [u8]|
            {
                &&& b@.len() == 1
                &&& #[trigger] read.ensures((b,), Ok(1))
                &&& final(b)@ == final(buf)@.subrange(0, 1)
            },
        out.0 >= 4 ==> exists|b: &mut [u8]|
            {
                &&& b@.len() == 3
                &&& #[trigger] read.ensures((b,), Ok(3))
                &&& final(b)@ == final(buf)@.subrange(1, 4)
            },
        out.0 > 4 ==> exists|b: &mut [u8]|
            {
                &&& b@.len() == out.0 - 4
                &&& #[trigger] read.ensures((b,), Ok((out.0 - 4) as usize))
                &&& final(b)@ == final(buf)@.subrange(4, out.0 as int)
            },
{
    let mut n: usize = 0;

    loop
        invariant_except_break
            clock.elapsed() <= bwt,
        invariant
            clock.callable(),
            clock.limit() == bwt <= BWT_MAX,
            clock.on_sleep() == old(clock).on_sleep(),
            clock.elapsed() % (POLL_MS as nat) == 0,
            n <= 1,
            n == 1 ==> clock.elapsed() >= POLL_MS,
            n == 1 ==> exists|b: &mut [u8]|
                {
                    &&& b@.len() == 1
                    &&& #[trigger] read.ensures((b,), Ok(1))
                    &&& final(b)@ == buf@.subrange(0, 1)
                },
            forall|b: &mut [u8]| read.requires((b,)),
        ensures
            n == 1,
            buf[0] == nad,
            POLL_MS <= clock.elapsed() <= bwt + POLL_MS,
        decreases bwt - clock.elapsed(),
    {
        clock.sleep(POLL_MS);
        let all: &mut [u8] = buf;
        let (head, _) = all.split_at_mut(1);
        let got: usize = match read(head) {
            Ok(got) => got,
            Err(e) => {
                return (n, Err(Error::ReadNad(e)));
            },
        };
        if got != 1 {
            return (n, Err(Error::ReadNadLen(got, 1)));
        }
        n = got;
        if buf[0] == nad {
            break ;
        }
        if clock.timeout() {
            return (n, Err(Error::Timeout(bwt)));
        }
    }

    let mut max: usize = 2 + edc_len;
    let all: &mut [u8] = buf;
    let (_, rest) = all.split_at_mut(1);
    let (hdr, _) = rest.split_at_mut(3);
    let got: usize = match read(hdr) {
        Ok(got) => got,
        Err(e) => {
            return (n, Err(Error::ReadHdr(e)));
        },
    };
    if got != max {
        return (n, Err(Error::ReadHdrLen(got, max)));
    }
    n = n + got;

    let len: usize = buf[2] as usize;
    max = max + len;
    if max > BUF_SIZE {
        return (n, Err(Error::RecvLen(max, len)));
    }
    if len != 0 {
        let all: &mut [u8] = buf;
        let (_, rest) = all.split_at_mut(4);
        let (data, _) = rest.split_at_mut(len);
        let got: usize = match read(data) {
            Ok(got) => got,
            Err(e) => {
                return (n, Err(Error::ReadData(e)));
            },
        };
        if got != len {
            return (n, Err(Error::ReadDataLen(got, len)));
        }
        n = n + got;
        proof {
            assert(buf@.subrange(4, n as int) =~= data@);
        }
    }
    (n, Ok(()))
}

impl<S: Fn(u32)> T1Proto<S> {
    /// Receives the block of the card into the scratch area. A clock is
    /// started with the waiting time; the line is polled for the node
    /// address of the card, with a sleep before each poll, until the
    /// address shows or more than the waiting time was slept; then the
    /// rest of the block is read. Returns how receiving ended and the
    /// clock, which tells how long was slept. The multiplier of the
    /// waiting time is back to one afterwards.
    pub fn block_recv<'a, E, R>(&'a mut self, read: &R) -> (out: (
        Result<(), Error<E>>,
        Clock<'a, S>,
    )) where R: Fn(&mut [u8]) -> Result<usize, E>

        requires
            old(self).wf(),
            forall|b: &mut [u8]| read.requires((b,)),
        ensures
            final(self)@ == old(self)@.with_inbound(final(self)@.block),
            out.1.limit() == old(self)@.wait(),
            receivable(
                old(self)@.nad.card,
                old(self)@.wait(),
                out.1.elapsed(),
                out.0,
                final(self)@.block,
            ),
            told(reads_of(*read), out.0, final(self)@.block),
            final(self)@.block.len() >= 1 && !(out.0 matches Err(Error::ReadNad(_))) && !(out.0 matches Err(
                Error::ReadNadLen(_, _),
            )) ==> exists|b: &mut [u8]|
                {
                    &&& b@.len() == 1
                    &&& #[trigger] read.ensures((b,), Ok(1))
                    &&& final(b)@ == final(self)@.block.subrange(0, 1)
                },
            final(self)@.block.len() >= 4 ==> exists|b: &mut [u8]|
                {
                    &&& b@.len() == 3
                    &&& #[trigger] read.ensures((b,), Ok(3))
                    &&& final(b)@ == final(self)@.block.subrange(1, 4)
                },
            final(self)@.block.len() > 4 ==> exists|b: &mut [u8]|
                {
                    &&& b@.len() == final(self)@.block.len() - 4
                    &&& #[trigger] read.ensures(
                        (b,),
                        Ok((final(self)@.block.len() - 4) as usize),
                    )
                    &&& final(b)@ == final(self)@.block.subrange(
                        4,
                        final(self)@.block.len() as int,
                    )
                },
            final(self).inv(),
            final(self).on_sleep() == old(self).on_sleep(),
    {
        let wtx: u8 = self.core.wtx.wtx;
        let factor: u32 = if wtx != 0 {
            wtx as u32
        } else {
            1
        };
        assert(self.core.bwt * factor == self.core.bwt) by (nonlinear_arith)
            requires
                factor == 1,
        ;
        let bwt: u32 = self.core.bwt * factor;
        self.core.wtx.wtx = 1;
        let edc_len: usize = self.chk_algo_len();
        let mut clock = Clock::new(bwt, self.sleep_cb.as_ref());
        let (n, r) = recv_block(&mut self.buf, self.core.nad.card, bwt, edc_len, &mut clock, read);
        self.n = n;
        (r, clock)
    }

    /// Receives the block of the card and checks it. Returns how that
    /// ended and the milliseconds slept while waiting for the block.
    pub(super) fn read_block<E, R>(&mut self, read: &R) -> (out: (
        Result<(), Error<E>>,
        u32,
    )) where R: Fn(&mut [u8]) -> Result<usize, E>

        requires
            old(self).wf(),
            forall|b: &mut [u8]| read.requires((b,)),
        ensures
            final(self)@ == old(self)@.with_inbound(final(self)@.block),
            readable(
                old(self)@.nad.card,
                old(self)@.wait(),
                out.1 as nat,
                out.0,
                final(self)@.block,
            ),
            told(reads_of(*read), received(out.0), final(self)@.block),
            final(self)@.block.len() >= 1 && !(out.0 matches Err(Error::ReadNad(_))) && !(out.0 matches Err(
                Error::ReadNadLen(_, _),
            )) ==> exists|b: &mut [u8]|
                {
                    &&& b@.len() == 1
                    &&& #[trigger] read.ensures((b,), Ok(1))
                    &&& final(b)@ == final(self)@.block.subrange(0, 1)
                },
            final(self)@.block.len() >= 4 ==> exists|b: &mut [u8]|
                {
                    &&& b@.len() == 3
                    &&& #[trigger] read.ensures((b,), Ok(3))
                    &&& final(b)@ == final(self)@.block.subrange(1, 4)
                },
            final(self)@.block.len() > 4 ==> exists|b: &mut [u8]|
                {
                    &&& b@.len() == final(self)@.block.len() - 4
                    &&& #[trigger] read.ensures(
                        (b,),
                        Ok((final(self)@.block.len() - 4) as usize),
                    )
                    &&& final(b)@ == final(self)@.block.subrange(
                        4,
                        final(self)@.block.len() as int,
                    )
                },
            final(self).inv(),
            final(self).on_sleep() == old(self).on_sleep(),
    {
        let (got, clock) = self.block_recv(read);
        let waited: u32 = clock.waited();
        match got {
            Ok(()) => {},
            Err(e) => {
                return (Err(e), waited);
            },
        }
        let r: Result<(), Error<E>> = if self.n < 3 {
            Err(Error::ReadLen(self.n))
        } else if self.buf[0] != self.core.nad.card {
            Err(Error::ReadNadVal(self.buf[0]))
        } else if self.buf[2] == 255 {
            Err(Error::ReadLen255)
        } else {
            self.chk_is_good()
        };
        (r, waited)
    }

    /// Builds the next block and writes it.
    fn send<E, W>(&mut self, capdu: &[u8], write: &W) -> (r: Result<(), Error<E>>) where
        W: Fn(&[u8]) -> Result<usize, E>,

        requires
            old(self).wf(),
            old(self).reads(capdu@),
            forall|b: &[u8]| write.requires((b,)),
        ensures
            final(self)@ == old(self)@.with_outbound(capdu@),
            final(self).wf(),
            final(self).on_sleep() == old(self).on_sleep(),
            match old(self)@.next_outbound() {
                Outbound::Aborted => r == Err::<(), Error<E>>(Error::Aborted),
                Outbound::Nothing => r == Err::<(), Error<E>>(Error::NoRespIBlock),
                _ => match r {
                    Ok(()) => written(
                        *write,
                        final(self)@.block,
                        Ok(final(self)@.block.len() as usize),
                    ),
                    Err(Error::Write(e)) => written(*write, final(self)@.block, Err(e)),
                    Err(Error::WriteLen(len, n)) => len == final(self)@.block.len() && n != len
                        && written(*write, final(self)@.block, Ok(n)),
                    Err(_) => false,
                },
            },
    {
        match self.request_init(capdu) {
            Ok(()) => {},
            Err(e) => {
                return Err(e);
            },
        }
        let n: usize = match write(slice_subrange(self.buf.as_slice(), 0, self.n)) {
            Ok(n) => n,
            Err(e) => {
                return Err(Error::Write(e));
            },
        };
        if n != self.n {
            return Err(Error::WriteLen(self.n, n));
        }
        Ok(())
    }

    /// Plays one round of an exchange whose last error is `ret`.
    /// Returns whether the exchange is cut short, and the last error.
    fn round<E, R, W>(
        &mut self,
        ret: Result<(), Error<E>>,
        capdu: &[u8],
        rapdu: &mut [u8],
        read: &R,
        write: &W,
    ) -> (out: (bool, Result<(), Error<E>>)) where
        R: Fn(&mut [u8]) -> Result<usize, E>,
        W: Fn(&[u8]) -> Result<usize, E>,

        requires
            old(self).wf(),
            old(self)@.retries > 0,
            !old(self)@.flags.halt,
            old(self).reads(capdu@),
            old(self).fills(old(rapdu)@),
            forall|b: &mut [u8]| read.requires((b,)),
            forall|b: &[u8]| write.requires((b,)),
        ensures
            exists|ex: Exchange<E>|
                {
                    &&& #[trigger] rounded(
                        Run::going(old(self)@, ret),
                        capdu@,
                        ex,
                        Run { state: final(self)@, ret: out.1, over: out.0 },
                    )
                    &&& old(self)@.next_outbound() !is Aborted && old(self)@.next_outbound()
                        !is Nothing ==> written(
                        *write,
                        old(self)@.outbound_block(capdu@),
                        ex.wrote,
                    )
                    &&& Run::going(old(self)@, ret).reads_after(capdu@, ex.wrote) ==> told(
                        reads_of(*read),
                        received(ex.read),
                        ex.block,
                    )
                },
            final(self).wf(),
            final(self).on_sleep() == old(self).on_sleep(),
            final(self).reads(capdu@),
            final(self).fills(final(rapdu)@),
            final(rapdu)@.len() == old(rapdu)@.len(),
            final(self)@.recv_size >= old(self)@.recv_size,
            kept_from(
                final(rapdu)@,
                old(rapdu)@,
                smaller(final(self)@.recv_size, old(rapdu)@.len()),
            ),
    {
        let ghost before = Run::going(self@, ret);
        match self.send(capdu, write) {
            Ok(()) => {},
            Err(e) => {
                proof {
                    reveal(Run::round);
                    let ex = Exchange {
                        wrote: wrote_of(e),
                        read: Ok(()),
                        waited: 0,
                        block: Seq::empty(),
                    };
                    assert(rounded(
                        before,
                        capdu@,
                        ex,
                        Run { state: self@, ret: Err(e), over: true },
                    ));
                }
                return (true, Err(e));
            },
        }
        let ghost sent = self@;
        let (got, waited) = self.read_block(read);
        let ghost ex = Exchange {
            wrote: Ok(sent.block.len() as usize),
            read: got,
            waited: waited as nat,
            block: self@.block,
        };
        let out: Result<(), Error<E>> = self.on_read(got, ret, rapdu);
        proof {
            reveal(Run::round);
            let after = Run { state: self@, ret: out, over: false };
            assert(rounded(before, capdu@, ex, after));
        }
        (false, out)
    }

    /// Runs an exchange: stages what is due, then sends a block and
    /// takes the answer, round after round, until the exchange halts,
    /// no attempt is left, or it is cut short. Returns the last error
    /// met, if any.
    pub(super) fn process<E, R, W>(
        &mut self,
        capdu: &[u8],
        rapdu: &mut [u8],
        read: &R,
        write: &W,
    ) -> (r: Result<(), Error<E>>) where
        R: Fn(&mut [u8]) -> Result<usize, E>,
        W: Fn(&[u8]) -> Result<usize, E>,

        requires
            old(self).wf(),
            old(self)@.recv_size <= old(self)@.recv_max,
            old(self).reads(capdu@),
            old(self).fills(old(rapdu)@),
            forall|b: &mut [u8]| read.requires((b,)),
            forall|b: &[u8]| write.requires((b,)),
        ensures
            exchanged_over(
                writes_of(*write),
                reads_of(*read),
                old(self)@,
                capdu@,
                final(self)@,
                r,
            ),
            final(self).wf(),
            final(self).on_sleep() == old(self).on_sleep(),
            final(self).reads(capdu@),
            final(self).fills(final(rapdu)@),
            final(rapdu)@.len() == old(rapdu)@.len(),
            kept_from(
                final(rapdu)@,
                old(rapdu)@,
                smaller(final(self)@.recv_size, old(rapdu)@.len()),
            ),
    {
        let mut ret: Result<(), Error<E>> = Ok(());
        let ghost start = self@;
        let ghost sleep_cb = self.sleep_cb;
        let ghost room = rapdu@.len();

        self.process_init();

        let ghost first = Run::going(self@, ret);
        let ghost mut trace: Seq<Exchange<E>> = Seq::empty();
        let mut rounds: u64 = 0;

        while !self.core.state.halt && self.core.retries > 0 && rounds < MAX_ROUNDS
            invariant
                self.wf(),
                self.reads(capdu@),
                self.fills(rapdu@),
                rapdu@.len() == room,
                kept_from(rapdu@, old(rapdu)@, smaller(self@.recv_size, room)),
                self.sleep_cb == sleep_cb,
                forall|b: &mut [u8]| read.requires((b,)),
                forall|b: &[u8]| write.requires((b,)),
                start == old(self)@,
                sleep_cb == old(self).sleep_cb,
                room == old(rapdu)@.len(),
                first == Run::going(start.staged(), Ok::<(), Error<E>>(())),
                trace.len() == rounds <= MAX_ROUNDS,
                admissible(first, capdu@, trace),
                carried(writes_of(*write), reads_of(*read), first, capdu@, trace),
                run(first, capdu@, trace) == Run::going(self@, ret),
            decreases MAX_ROUNDS - rounds,
        {
            rounds = rounds + 1;
            let ghost before = Run::going(self@, ret);
            let (over, last) = self.round(ret, capdu, rapdu, read, write);
            proof {
                let after = Run { state: self@, ret: last, over };
                let ex = choose|ex: Exchange<E>|
                    {
                        &&& #[trigger] rounded(before, capdu@, ex, after)
                        &&& before.state.next_outbound() !is Aborted
                            && before.state.next_outbound() !is Nothing ==> written(
                            *write,
                            before.state.outbound_block(capdu@),
                            ex.wrote,
                        )
                        &&& before.reads_after(capdu@, ex.wrote) ==> told(
                            reads_of(*read),
                            received(ex.read),
                            ex.block,
                        )
                    };
                lemma_run_push(first, capdu@, trace, ex);
                lemma_carried_push(writes_of(*write), reads_of(*read), first, capdu@, trace, ex);
                trace = trace.push(ex);
            }
            if over {
                proof {
                    assert(plays(start, capdu@, trace, self@, last));
                }
                return last;
            }
            ret = last;
        }
        if !self.core.state.halt && self.core.retries > 0 {
            ret = Err(Error::NoRoundsLeft);
        }
        proof {
            assert(plays(start, capdu@, trace, self@, ret));
        }
        ret
    }
}

} // verus!
