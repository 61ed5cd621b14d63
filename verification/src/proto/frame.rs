//! Building and checking blocks in the scratch area.
use vstd::prelude::*;
use vstd::slice::slice_subrange;
use super::{Error, T1Proto};
use crate::codec::{
    bit, edc_len, edc_ok, encode, kind_of, lrc, lrc8, Block, ChkAlgo, REQUEST_IFS, REQUEST_WTX,
};
use crate::model::{Outbound, State, T1State};

verus! {

impl<S: Fn(u32)> T1Proto<S> {
    /// 0 for 0 and 1 for anything else.
    pub(super) fn zero(val: u8) -> (b: u8)
        ensures
            b == bit(val),
    {
        if val == 0 {
            0
        } else {
            1
        }
    }

    /// Length of the EDC of the algorithm in use.
    pub(super) fn chk_algo_len(&self) -> (len: usize)
        ensures
            len == edc_len(self.chk_algo),
    {
        match self.chk_algo {
            ChkAlgo::Lrc => 1,
        }
    }

    /// Builds the S-block for the current request.
    pub(super) fn write_request(&mut self, mask: u8)
        requires
            old(self).inv(),
        ensures
            final(self)@ == (T1State { block: old(self)@.sblock(mask), ..old(self)@ }),
            final(self).inv(),
            final(self).on_sleep() == old(self).on_sleep(),
    {
        let request: u8 = self.core.request | mask;
        let pcb: u8 = 0xc0 | request;
        let code: u8 = request & 0x1f;
        let mut one: [u8; 1] = [0];
        let mut len: usize = 0;
        if code == REQUEST_IFS {
            len = 1;
            if pcb & 0x20 != 0 {
                one[0] = self.core.ifs.card;
            } else {
                one[0] = self.core.ifs.dev;
            }
        } else if code == REQUEST_WTX {
            len = 1;
            one[0] = self.core.wtx.wtx;
        }
        let inf: &[u8] = slice_subrange(one.as_slice(), 0, len);
        assert(inf@ =~= old(self)@.sblock_inf(mask));
        self.n = encode(&mut self.buf, self.chk_algo, self.core.nad.dev, pcb, inf);
    }

    /// Builds the R-block with code `n`.
    pub(super) fn write_rblock(&mut self, n: u8)
        requires
            old(self).inv(),
        ensures
            final(self)@ == (T1State { block: old(self)@.rblock(n), ..old(self)@ }),
            final(self).inv(),
            final(self).on_sleep() == old(self).on_sleep(),
    {
        let mut pcb: u8 = 0x80 | (n & 3);
        if self.core.recv.next != 0 {
            pcb = pcb | 0x10;
        }
        let none: [u8; 0] = [];
        let inf: &[u8] = none.as_slice();
        self.n = encode(&mut self.buf, self.chk_algo, self.core.nad.dev, pcb, inf);
    }

    /// Builds the I-block for the next part of the command.
    pub(super) fn write_iblock(&mut self, capdu: &[u8])
        requires
            old(self).inv(),
            old(self).reads(capdu@),
        ensures
            final(self)@ == (T1State { block: old(self)@.iblock(capdu@), ..old(self)@ }),
            final(self).inv(),
            final(self).on_sleep() == old(self).on_sleep(),
    {
        let mut n: usize = self.send_window_size();
        let mut pcb: u8;

        if n > self.core.ifs.card as usize {
            n = self.core.ifs.card as usize;
            pcb = 0x20;
        } else {
            pcb = 0;
        }
        if self.core.send.next != 0 {
            pcb = pcb | 0x40;
        }
        let off: usize = self.core.send.off;
        let inf: &[u8] = slice_subrange(capdu, off, off + n);
        self.n = encode(&mut self.buf, self.chk_algo, self.core.nad.dev, pcb, inf);
    }

    /// Bytes of the command still to send.
    pub(super) fn send_window_size(&self) -> (len: usize)
        ensures
            len == self@.send_len,
    {
        self.core.send.len
    }

    /// Bytes of the response stored so far.
    pub(super) fn recv_window_size(&self) -> (len: usize)
        requires
            self.inv(),
        ensures
            len == self@.received.len(),
    {
        self.core.recv.len
    }

    /// Room left for the response.
    pub(super) fn recv_window_free_size(&self) -> (free: usize)
        requires
            self.wf(),
        ensures
            free == self@.recv_free(),
    {
        self.core.recv.size - self.core.recv.len
    }

    /// Chooses and builds the next outbound block.
    pub(super) fn request_init<E>(&mut self, capdu: &[u8]) -> (r: Result<(), Error<E>>)
        requires
            old(self).wf(),
            old(self).reads(capdu@),
        ensures
            final(self)@ == old(self)@.with_outbound(capdu@),
            final(self).inv(),
            final(self).on_sleep() == old(self).on_sleep(),
            match old(self)@.next_outbound() {
                Outbound::Aborted => r == Err::<(), Error<E>>(Error::Aborted),
                Outbound::Nothing => r == Err::<(), Error<E>>(Error::NoRespIBlock),
                _ => r is Ok,
            },
    {
        let flags: State = self.core.state;
        if flags.request {
            self.write_request(0x00);
        } else if flags.reqresp {
            self.write_request(0x20);
            self.core.state.reqresp = false;
        } else if flags.badcrc {
            self.write_rblock(1);
        } else if flags.timeout {
            self.write_rblock(0);
        } else if self.send_window_size() != 0 {
            self.write_iblock(capdu);
        } else if flags.aborted {
            return Err(Error::Aborted);
        } else if self.recv_window_size() > 0 {
            self.write_rblock(0);
        } else {
            return Err(Error::NoRespIBlock);
        }

        Ok(())
    }

    /// Kind of the block in the scratch area.
    pub(super) fn block_kind(&self) -> (kind: Block)
        requires
            self.n >= 2,
            self.inv(),
        ensures
            kind == kind_of(self@.block[1]),
    {
        if self.buf[1] & 0x80 == 0 {
            return Block::I;
        } else if self.buf[1] & 0x40 == 0 {
            return Block::R;
        }
        Block::S
    }

    /// Compares the EDC of the block in the scratch area with the one
    /// computed over the block.
    pub(super) fn chk_is_good<E>(&self) -> (r: Result<(), Error<E>>)
        requires
            self.inv(),
            self.n == 4 + self.buf[2],
        ensures
            r == (if edc_ok(self@.block) {
                Ok::<(), Error<E>>(())
            } else {
                Err(
                    Error::BadCrc(
                        lrc(self@.block.take(3 + self@.block[2])),
                        self@.block[3 + self@.block[2]],
                    ),
                )
            }),
    {
        let n: usize = 3 + self.buf[2] as usize;
        assert(self@.block.take(n as int) =~= self.buf@.take(n as int));
        match self.chk_algo {
            ChkAlgo::Lrc => {
                let chk: u8 = lrc8(self.buf.as_slice(), n);
                if chk != self.buf[n] {
                    return Err(Error::BadCrc(chk, self.buf[n]));
                }
            },
        }
        Ok(())
    }
}

} // verus!
