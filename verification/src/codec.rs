//! Layout of a T=1 block and its longitudinal redundancy check.
//!
//! A block is `NAD | PCB | LEN | INF[LEN] | EDC`. The two upper bits of
//! the PCB tell information, receive-ready and supervisory blocks
//! apart; the EDC is the XOR of every byte before it.
use vstd::prelude::*;

verus! {

/// Prologue (3 bytes), 255 bytes of information field and up to two
/// bytes of error detection code.
pub const BUF_SIZE: usize = 260;

/// Code of the request to resynchronise.
pub const REQUEST_RESYNC: u8 = 0x00;

/// Code of the request to change an information field size.
pub const REQUEST_IFS: u8 = 0x01;

/// Code of the request to abort a chain.
pub const REQUEST_ABORT: u8 = 0x02;

/// Code of the request to extend the waiting time.
pub const REQUEST_WTX: u8 = 0x03;

/// Code of the request to reset the card.
pub const REQUEST_RESET: u8 = 0x05;

/// Error detection code in use. Only the one-byte LRC is implemented.
#[derive(Clone, Copy, Debug, PartialEq, Eq)]
pub enum ChkAlgo {
    Lrc,
}

/// Bytes of error detection code that `algo` puts behind a block: one
/// for the LRC.
pub open spec fn edc_len(algo: ChkAlgo) -> nat {
    match algo {
        ChkAlgo::Lrc => 1,
    }
}

/// The three kinds of block.
#[derive(Clone, Copy, Debug, PartialEq, Eq)]
pub enum Block {
    I,
    R,
    S,
}

/// XOR of all bytes of `bytes`.
pub open spec fn lrc(bytes: Seq<u8>) -> u8
    decreases bytes.len(),
{
    if bytes.len() == 0 {
        0u8
    } else {
        lrc(bytes.drop_last()) ^ bytes.last()
    }
}

/// Prologue and information field of a block, without its EDC.
pub open spec fn frame(nad: u8, pcb: u8, inf: Seq<u8>) -> Seq<u8>
    recommends
        inf.len() <= 255,
{
    seq![nad, pcb, inf.len() as u8] + inf
}

/// `frame` followed by its LRC.
pub open spec fn sealed(frame: Seq<u8>) -> Seq<u8> {
    frame.push(lrc(frame))
}

/// The complete block with the given address, control byte and
/// information field.
pub open spec fn block(nad: u8, pcb: u8, inf: Seq<u8>) -> Seq<u8>
    recommends
        inf.len() <= 255,
{
    sealed(frame(nad, pcb, inf))
}

/// `b` is a prologue, as many information bytes as its LEN says, and
/// one byte of EDC.
pub open spec fn well_framed(b: Seq<u8>) -> bool {
    b.len() >= 4 && b.len() == 4 + b[2]
}

/// Information field of a well-framed block.
pub open spec fn inf_of(b: Seq<u8>) -> Seq<u8>
    recommends
        well_framed(b),
{
    b.subrange(3, 3 + b[2])
}

/// The EDC of `b` is the LRC of everything before it.
pub open spec fn edc_ok(b: Seq<u8>) -> bool {
    well_framed(b) && lrc(b.take(3 + b[2])) == b[3 + b[2]]
}

/// Kind of block that a PCB announces: bit 7 clear for an I-block,
/// else bit 6 clear for an R-block, else an S-block.
pub open spec fn kind_of(pcb: u8) -> Block {
    if pcb & 0x80 == 0 {
        Block::I
    } else if pcb & 0x40 == 0 {
        Block::R
    } else {
        Block::S
    }
}

/// 0 for 0 and 1 for anything else.
pub open spec fn bit(val: u8) -> u8 {
    if val == 0 {
        0
    } else {
        1
    }
}

/// PCB of an I-block with send sequence bit `ns` and the chaining bit.
pub open spec fn iblock_pcb(ns: u8, more: bool) -> u8 {
    let chain: u8 = if more {
        0x20
    } else {
        0
    };
    if ns != 0 {
        chain | 0x40
    } else {
        chain
    }
}

/// PCB of an R-block that carries `code` and receive sequence bit `nr`.
pub open spec fn rblock_pcb(nr: u8, code: u8) -> u8 {
    let base: u8 = 0x80 | (code & 3);
    if nr != 0 {
        base | 0x10
    } else {
        base
    }
}

/// PCB of an S-block for `request`; `mask` is 0x00 in a request and
/// 0x20 in a response.
pub open spec fn sblock_pcb(request: u8, mask: u8) -> u8 {
    0xc0 | (request | mask)
}

/// XOR with 1 flips a sequence bit.
pub proof fn lemma_xor_one(b: u8)
    by (bit_vector)
    requires
        b <= 1,
    ensures
        b ^ 1 == (if b == 0 {
            1u8
        } else {
            0u8
        }),
{
}

/// Two bytes differ exactly when their XOR is not zero.
pub proof fn lemma_xor_differs(a: u8, b: u8)
    by (bit_vector)
    ensures
        (a ^ b != 0) == (a != b),
{
}

/// The LRC of a sequence extended by one byte.
pub proof fn lemma_lrc_push(bytes: Seq<u8>, last: u8)
    ensures
        lrc(bytes.push(last)) == lrc(bytes) ^ last,
{
    assert(bytes.push(last).drop_last() =~= bytes);
}

/// A prefix that is one byte longer adds that byte to the LRC.
pub proof fn lemma_lrc_take(bytes: Seq<u8>, k: int)
    requires
        0 <= k < bytes.len(),
    ensures
        lrc(bytes.take(k + 1)) == lrc(bytes.take(k)) ^ bytes[k],
{
    assert(bytes.take(k + 1).drop_last() =~= bytes.take(k));
}

/// What the fields of a built block are.
pub proof fn lemma_block_fields(nad: u8, pcb: u8, inf: Seq<u8>)
    requires
        inf.len() <= 255,
    ensures
        block(nad, pcb, inf).len() == 4 + inf.len(),
        block(nad, pcb, inf)[0] == nad,
        block(nad, pcb, inf)[1] == pcb,
        block(nad, pcb, inf)[2] == inf.len(),
        well_framed(block(nad, pcb, inf)),
        inf_of(block(nad, pcb, inf)) == inf,
        block(nad, pcb, inf).take(3 + inf.len() as int) == frame(nad, pcb, inf),
{
    let f = frame(nad, pcb, inf);
    let b = block(nad, pcb, inf);
}

/// Every block that the codec builds passes the codec's own check.
pub proof fn lemma_built_block_verifies(nad: u8, pcb: u8, inf: Seq<u8>)
    requires
        inf.len() <= 255,
    ensures
        edc_ok(block(nad, pcb, inf)),
{
    lemma_block_fields(nad, pcb, inf);
}

/// The XOR over a whole sealed frame, EDC included, is zero.
pub proof fn lemma_sealed_lrc_is_zero(frame: Seq<u8>)
    ensures
        lrc(sealed(frame)) == 0,
{
    lemma_lrc_push(frame, lrc(frame));
    let c = lrc(frame);
    assert(c ^ c == 0) by (bit_vector);
}

/// A block whose EDC byte is replaced by another value no longer
/// verifies.
pub proof fn lemma_lrc_detects_changed_edc(b: Seq<u8>, edc: u8)
    requires
        edc_ok(b),
        edc != b[3 + b[2]],
    ensures
        !edc_ok(b.update(3 + b[2], edc)),
{
    let k = 3 + b[2];
    assert(b.update(k, edc).take(k) =~= b.take(k));
}

/// The PCBs that the builders make are of the kind they are named for.
pub proof fn lemma_pcb_kinds(ns: u8, more: bool, nr: u8, code: u8, request: u8, mask: u8)
    ensures
        kind_of(iblock_pcb(ns, more)) == Block::I,
        kind_of(rblock_pcb(nr, code)) == Block::R,
        kind_of(sblock_pcb(request, mask)) == Block::S,
{
    assert(0u8 & 0x80 == 0 && 0x20u8 & 0x80 == 0 && (0u8 | 0x40) & 0x80 == 0 && (0x20u8 | 0x40)
        & 0x80 == 0) by (bit_vector);
    assert((0x80u8 | (code & 3)) & 0x80 != 0 && (0x80u8 | (code & 3)) & 0x40 == 0 && ((0x80u8 | (
    code & 3)) | 0x10) & 0x80 != 0 && ((0x80u8 | (code & 3)) | 0x10) & 0x40 == 0) by (bit_vector);
    assert((0xc0u8 | (request | mask)) & 0x80 != 0 && (0xc0u8 | (request | mask)) & 0x40 != 0)
        by (bit_vector);
}

/// XOR of the first `n` bytes of `buf`.
pub fn lrc8(buf: &[u8], n: usize) -> (c: u8)
    requires
        n <= buf@.len(),
    ensures
        c == lrc(buf@.take(n as int)),
{
    let mut c: u8 = 0;
    let mut i: usize = 0;
    while i < n
        invariant
            i <= n <= buf@.len(),
            c == lrc(buf@.take(i as int)),
        decreases n - i,
    {
        proof {
            lemma_lrc_take(buf@, i as int);
        }
        c = c ^ buf[i];
        i = i + 1;
    }
    c
}

/// Puts the LRC of the first `n` bytes of `buf` behind them and
/// returns the length with it.
pub fn append_lrc8(buf: &mut [u8; BUF_SIZE], n: usize) -> (end: usize)
    requires
        n < BUF_SIZE,
    ensures
        end == n + 1,
        final(buf)@ == old(buf)@.update(n as int, lrc(old(buf)@.take(n as int))),
{
    let c: u8 = lrc8(buf.as_slice(), n);
    buf[n] = c;
    n + 1
}

/// Seals the frame at the front of `buf` with its EDC and returns
/// the length of the block.
pub fn do_chk(buf: &mut [u8; BUF_SIZE], algo: ChkAlgo) -> (n: usize)
    ensures
        n == 4 + old(buf)[2],
        final(buf)@.take(n as int) == sealed(old(buf)@.take(3 + old(buf)[2])),
        final(buf)@.skip(n as int) == old(buf)@.skip(n as int),
{
    let n: usize = 3 + buf[2] as usize;
    match algo {
        ChkAlgo::Lrc => append_lrc8(buf, n),
    }
}

/// Writes prologue and information field of a block to the front of
/// `buf`.
pub fn put_frame(buf: &mut [u8; BUF_SIZE], nad: u8, pcb: u8, inf: &[u8])
    requires
        inf@.len() <= 255,
    ensures
        final(buf)@.take(3 + inf@.len() as int) == frame(nad, pcb, inf@),
        final(buf)@.skip(3 + inf@.len() as int) == old(buf)@.skip(3 + inf@.len() as int),
        final(buf)[2] == inf@.len(),
{
    let n: usize = inf.len();
    buf[0] = nad;
    buf[1] = pcb;
    buf[2] = n as u8;
    let mut i: usize = 0;
    while i < n
        invariant
            i <= n <= 255,
            n == inf@.len(),
            buf@.take(3) == seq![nad, pcb, n as u8],
            buf@.subrange(3, 3 + i) == inf@.take(i as int),
            buf@.skip(3 + n) == old(buf)@.skip(3 + n),
        decreases n - i,
    {
        buf[3 + i] = inf[i];
        i = i + 1;
    }
    assert(buf@.take(3 + n) =~= frame(nad, pcb, inf@)) by {
        let built = buf@.take(3 + n);
        let wanted = frame(nad, pcb, inf@);
        assert forall|k: int| 0 <= k < 3 + n implies built[k] == wanted[k] by {
            if k >= 3 {
                assert(built[k] == buf@.subrange(3, 3 + n)[k - 3]);
            }
        }
    }
}

/// Builds the block with the given address, control byte and
/// information field at the front of `buf` and returns its length.
pub fn encode(buf: &mut [u8; BUF_SIZE], algo: ChkAlgo, nad: u8, pcb: u8, inf: &[u8]) -> (n: usize)
    requires
        inf@.len() <= 255,
    ensures
        n == 4 + inf@.len(),
        final(buf)@.take(n as int) == block(nad, pcb, inf@),
        final(buf)@.skip(n as int) == old(buf)@.skip(n as int),
{
    put_frame(buf, nad, pcb, inf);
    let ghost framed = buf@;
    let n: usize = do_chk(buf, algo);
    assert(buf@.skip(n as int) =~= old(buf)@.skip(n as int)) by {
        assert forall|k: int| n <= k < BUF_SIZE implies buf@[k] == old(buf)@[k] by {
            assert(framed[k] == framed.skip(n as int)[k - n]);
            assert(old(buf)@[k] == old(buf)@.skip(n - 1)[k - n + 1]);
        }
    }
    n
}

/// Copies `src` into `dst` from index `at` on.
pub fn copy_bytes(dst: &mut [u8], at: usize, src: &[u8])
    requires
        at + src@.len() <= old(dst)@.len(),
    ensures
        final(dst)@ == old(dst)@.take(at as int) + src@ + old(dst)@.skip(at + src@.len()),
{
    let n: usize = src.len();
    let mut i: usize = 0;
    while i < n
        invariant
            i <= n,
            n == src@.len(),
            at + n <= dst.len(),
            dst@.len() == old(dst)@.len(),
            dst@ == old(dst)@.take(at as int) + src@.take(i as int) + old(dst)@.skip(at + i),
        decreases n - i,
    {
        dst[at + i] = src[i];
        i = i + 1;
    }
}

} // verus!
