//! What the transitions of the engine guarantee.
//!
//! The lemmas here are stated over the model alone; the engine refines
//! the model function by function, so they hold of every exchange that
//! the engine runs.
use vstd::prelude::*;
use crate::codec::{
    bit, edc_ok, iblock_pcb, inf_of, kind_of, lemma_block_fields, lemma_built_block_verifies,
    lemma_pcb_kinds, rblock_pcb, sblock_pcb, well_framed, Block, BUF_SIZE,
};
use crate::model::{
    admissible, carried, exchanged_over, flipped, plays, readable, received, run, smaller, told,
    Exchange, Run, State, T1State, MAX_RETRIES, POLL_MS,
};
use crate::proto::Error;

verus! {

/// Every block that the engine sends passes the check that the engine
/// applies to the blocks it receives: it is well framed, it fits the
/// scratch area, and its EDC is the LRC of what comes before.
pub proof fn lemma_outbound_verifies(s: T1State, capdu: Seq<u8>)
    requires
        s.send_off + s.send_len <= capdu.len(),
    ensures
        edc_ok(s.outbound_block(capdu)),
        s.outbound_block(capdu).len() <= BUF_SIZE,
        s.outbound_block(capdu)[0] == s.nad.dev,
{
    lemma_built_block_verifies(s.nad.dev, sblock_pcb(s.request, 0x00), s.sblock_inf(0x00));
    lemma_built_block_verifies(s.nad.dev, sblock_pcb(s.request, 0x20), s.sblock_inf(0x20));
    lemma_built_block_verifies(s.nad.dev, rblock_pcb(s.nr, 0), Seq::empty());
    lemma_built_block_verifies(s.nad.dev, rblock_pcb(s.nr, 1), Seq::empty());
    let inf = capdu.subrange(s.send_off as int, (s.send_off + s.chunk()) as int);
    lemma_built_block_verifies(
        s.nad.dev,
        iblock_pcb(s.ns, s.send_len > s.ifs.card),
        inf,
    );
    lemma_block_fields(s.nad.dev, sblock_pcb(s.request, 0x00), s.sblock_inf(0x00));
    lemma_block_fields(s.nad.dev, sblock_pcb(s.request, 0x20), s.sblock_inf(0x20));
    lemma_block_fields(s.nad.dev, rblock_pcb(s.nr, 0), Seq::empty());
    lemma_block_fields(s.nad.dev, rblock_pcb(s.nr, 1), Seq::empty());
    lemma_block_fields(s.nad.dev, iblock_pcb(s.ns, s.send_len > s.ifs.card), inf);
}

/// Each sequence bit of `after` is what it was in `before` or the
/// other value, and both are still 0 or 1.
pub open spec fn flips_once(before: T1State, after: T1State) -> bool {
    &&& after.ns == before.ns || after.ns == flipped(before.ns)
    &&& after.nr == before.nr || after.nr == flipped(before.nr)
    &&& after.ns <= 1
    &&& after.nr <= 1
}

/// A good block moves each sequence bit at most once.
pub proof fn lemma_block_flips_once<E>(s: T1State, ret: Result<(), Error<E>>)
    requires
        s.wf(),
        s.retries > 0,
        well_framed(s.block),
    ensures
        flips_once(s, Run::going(s, ret).on_block().state),
{
    reveal(Run::on_block);
    if !s.edc_standoff() {
        let calm = T1State { flags: State { badcrc: false, timeout: false, ..s.flags }, ..s };
        if s.flags.request {
            lemma_answer_flips_once(calm, ret);
        } else {
            match kind_of(s.block[1]) {
                Block::I => lemma_iblock_flips_once(calm, ret),
                Block::R => lemma_rblock_flips_once(calm, ret),
                Block::S => lemma_request_flips_once(calm, ret),
            }
        }
    }
}

proof fn lemma_answer_flips_once<E>(s: T1State, ret: Result<(), Error<E>>)
    requires
        s.wf(),
        s.retries > 0,
    ensures
        flips_once(s, Run::going(s, ret).on_pending().state),
{
    reveal(Run::on_pending);
    reveal(T1State::answered);
    reveal(T1State::settled);
}

proof fn lemma_iblock_flips_once<E>(s: T1State, ret: Result<(), Error<E>>)
    requires
        s.wf(),
    ensures
        flips_once(s, Run::going(s, ret).on_iblock().state),
{
    reveal(Run::on_iblock);
}

proof fn lemma_rblock_flips_once<E>(s: T1State, ret: Result<(), Error<E>>)
    requires
        s.wf(),
        s.retries > 0,
    ensures
        flips_once(s, Run::going(s, ret).on_rblock().state),
{
    reveal(Run::on_rblock);
    reveal(T1State::after_rblock);
}

proof fn lemma_request_flips_once<E>(s: T1State, ret: Result<(), Error<E>>)
    requires
        s.wf(),
    ensures
        flips_once(s, Run::going(s, ret).on_sblock().state),
{
    reveal(Run::on_sblock);
    reveal(T1State::after_request);
    reveal(T1State::ifs_requested);
    reveal(T1State::abort_requested);
    reveal(T1State::wtx_requested);
}

/// N(R) flips exactly when an I-block with the expected sequence bit
/// arrives while no request is pending; its information field is then
/// added to the response as far as there is room, and its length to
/// the bytes counted, whether or not the card has aborted.
pub proof fn lemma_nr_counts_iblocks<E>(s: T1State, ret: Result<(), Error<E>>)
    requires
        s.wf(),
        s.retries > 0,
        well_framed(s.block),
        !s.flags.request,
    ensures
        ({
            let after = Run::going(s, ret).on_block().state;
            let taken = !s.edc_standoff() && kind_of(s.block[1]) == Block::I && s.in_sequence();
            &&& taken ==> after.nr == flipped(s.nr)
            &&& !taken ==> after.nr == s.nr
            &&& taken ==> {
                &&& after.recv_size == s.recv_size + s.block[2]
                &&& after.received == s.received + s.block.subrange(3, 3 + s.fitting() as int)
            }
            &&& !taken ==> after.recv_size == s.recv_size
        }),
{
    reveal(Run::on_block);
    reveal(Run::on_iblock);
    reveal(Run::on_rblock);
    reveal(Run::on_sblock);
    reveal(T1State::after_rblock);
    reveal(T1State::after_request);
    reveal(T1State::ifs_requested);
    reveal(T1State::abort_requested);
    reveal(T1State::wtx_requested);
}

/// After an I-block was sent, an R-block moves the send window exactly
/// when it acknowledges that block: it reports no error and asks for
/// the other sequence bit. The window then moves by what the block
/// carried, N(S) flips and the attempts are refilled. Any other
/// R-block leaves the window where it is and costs an attempt or is
/// reported as an error.
pub proof fn lemma_rblock_acks_or_fails<E>(s: T1State, ret: Result<(), Error<E>>)
    requires
        s.wf(),
        s.retries > 0,
        well_framed(s.block),
        !s.flags.request,
        !s.edc_standoff(),
        kind_of(s.block[1]) == Block::R,
    ensures
        ({
            let after = Run::going(s, ret).on_block();
            &&& s.is_ack() ==> {
                &&& after.state.send_off == s.send_off + s.chunk()
                &&& after.state.send_len == s.send_len - s.chunk()
                &&& after.state.ns == flipped(s.ns)
                &&& after.state.retries == MAX_RETRIES
                &&& after.ret is Ok
            }
            &&& !s.is_ack() ==> {
                &&& after.state.send_off == s.send_off
                &&& after.state.send_len == s.send_len
                &&& after.ret is Err || after.state.retries < s.retries
            }
        }),
{
    reveal(Run::on_block);
    reveal(Run::on_rblock);
    reveal(T1State::after_rblock);
}

/// What holds of a run at every round: the state keeps its bounds;
/// what was acknowledged and what is left to send make up the command
/// of `cmd` bytes; the receive
/// window has `room` bytes unless the card aborted; and whenever the
/// run was cut short, has no attempt left, has received too much
/// without being aborted, or was aborted and then halted or made to
/// wait for an answer, its last error is set.
pub open spec fn sound<E>(run: Run<E>, cmd: nat, room: nat) -> bool {
    let s = run.state;
    &&& s.wf()
    &&& s.send_off + s.send_len == cmd
    &&& !s.flags.aborted ==> s.recv_cap == room
    &&& run.over ==> run.ret is Err
    &&& s.retries == 0 ==> run.ret is Err
    &&& s.recv_size > s.recv_max && !s.flags.aborted ==> run.ret is Err
    &&& s.flags.aborted && (s.flags.halt || s.flags.request) ==> run.ret is Err
}

/// Information bytes of the I-block that a round accepts: the length
/// of the block read, if the round gets as far as reading, a good
/// I-block with the expected sequence bit arrives and no request is
/// pending; else nothing.
pub open spec fn taken_len<E>(before: Run<E>, capdu: Seq<u8>, ex: Exchange<E>) -> nat {
    let s = before.state.with_outbound(capdu).with_inbound(ex.block);
    if before.reads_after(capdu, ex.wrote) && ex.read is Ok && !s.edc_standoff()
        && !s.flags.request && kind_of(s.block[1]) == Block::I && s.in_sequence() {
        ex.block[2] as nat
    } else {
        0
    }
}

/// Information bytes of all I-blocks that the rounds of `trace` accept.
pub open spec fn taken_total<E>(
    start: Run<E>,
    capdu: Seq<u8>,
    trace: Seq<Exchange<E>>,
) -> nat
    decreases trace.len(),
{
    if trace.len() == 0 {
        0
    } else {
        let before = run(start, capdu, trace.drop_last());
        taken_total(start, capdu, trace.drop_last()) + (if before.live() {
            taken_len(before, capdu, trace.last())
        } else {
            0
        })
    }
}

/// A good block keeps a run sound and adds to the bytes received
/// exactly what `taken_len` counts.
proof fn lemma_block_sound<E>(run: Run<E>, cmd: nat, room: nat)
    requires
        sound(run, cmd, room),
        run.live(),
        well_framed(run.state.block),
        run.state.recv_size <= run.state.recv_max,
        !run.state.flags.request ==> !run.state.flags.reqresp,
    ensures
        sound(run.on_block(), cmd, room),
        run.on_block().state.recv_size == run.state.recv_size + (if !run.state.edc_standoff()
            && !run.state.flags.request && kind_of(run.state.block[1]) == Block::I
            && run.state.in_sequence() {
            run.state.block[2] as nat
        } else {
            0
        }),
        run.on_block().state.nad == run.state.nad,
{
    reveal(Run::on_block);
    let s = run.state;
    if s.edc_standoff() {
    } else {
        let calm = run.at(
            T1State { flags: State { badcrc: false, timeout: false, ..s.flags }, ..s },
        );
        if s.flags.request {
            lemma_pending_sound(calm, cmd, room);
        } else {
            match kind_of(s.block[1]) {
                Block::I => lemma_iblock_sound(calm, cmd, room),
                Block::R => lemma_rblock_sound(calm, cmd, room),
                Block::S => lemma_sblock_sound(calm, cmd, room),
            }
        }
    }
}

proof fn lemma_pending_sound<E>(run: Run<E>, cmd: nat, room: nat)
    requires
        sound(run, cmd, room),
        run.live(),
        run.state.flags.request,
        well_framed(run.state.block),
        run.state.recv_size <= run.state.recv_max,
    ensures
        sound(run.on_pending(), cmd, room),
        run.on_pending().state.recv_size == run.state.recv_size,
        run.on_pending().state.nad == run.state.nad,
{
    reveal(Run::on_pending);
    reveal(T1State::answered);
    reveal(T1State::settled);
}

proof fn lemma_iblock_sound<E>(run: Run<E>, cmd: nat, room: nat)
    requires
        sound(run, cmd, room),
        run.live(),
        !run.state.flags.request,
        well_framed(run.state.block),
        run.state.recv_size <= run.state.recv_max,
        !run.state.flags.reqresp,
        !run.state.flags.badcrc,
        !run.state.flags.timeout,
    ensures
        sound(run.on_iblock(), cmd, room),
        run.on_iblock().state.recv_size == run.state.recv_size + (if run.state.in_sequence() {
            run.state.block[2] as nat
        } else {
            0
        }),
        run.on_iblock().state.nad == run.state.nad,
{
    reveal(Run::on_iblock);
}

proof fn lemma_rblock_sound<E>(run: Run<E>, cmd: nat, room: nat)
    requires
        sound(run, cmd, room),
        run.live(),
        !run.state.flags.request,
        well_framed(run.state.block),
        run.state.recv_size <= run.state.recv_max,
    ensures
        sound(run.on_rblock(), cmd, room),
        run.on_rblock().state.recv_size == run.state.recv_size,
        run.on_rblock().state.nad == run.state.nad,
{
    reveal(Run::on_rblock);
    reveal(T1State::after_rblock);
}

proof fn lemma_sblock_sound<E>(run: Run<E>, cmd: nat, room: nat)
    requires
        sound(run, cmd, room),
        run.live(),
        !run.state.flags.request,
        well_framed(run.state.block),
        run.state.recv_size <= run.state.recv_max,
    ensures
        sound(run.on_sblock(), cmd, room),
        run.on_sblock().state.recv_size == run.state.recv_size,
        run.on_sblock().state.nad == run.state.nad,
{
    reveal(Run::on_sblock);
    reveal(T1State::after_request);
    reveal(T1State::ifs_requested);
    reveal(T1State::abort_requested);
    reveal(T1State::wtx_requested);
}

/// A round keeps a run sound and adds to the bytes received exactly
/// what `taken_len` counts.
pub proof fn lemma_round_sound<E>(
    before: Run<E>,
    capdu: Seq<u8>,
    room: nat,
    ex: Exchange<E>,
)
    requires
        sound(before, capdu.len(), room),
        before.live(),
        before.reads_after(capdu, ex.wrote) ==> readable(
            before.state.nad.card,
            before.state.wait(),
            ex.waited,
            ex.read,
            ex.block,
        ),
    ensures
        sound(before.round(capdu, ex), capdu.len(), room),
        before.round(capdu, ex).state.recv_size == before.state.recv_size + taken_len(
            before,
            capdu,
            ex,
        ),
        before.round(capdu, ex).state.nad == before.state.nad,
{
    reveal(Run::round);
    reveal(Run::on_read);
    lemma_outbound_verifies(before.state, capdu);
    let sent = before.state.with_outbound(capdu);
    if before.reads_after(capdu, ex.wrote) {
        let got = before.at(sent.with_inbound(ex.block));
        if ex.read is Ok {
            lemma_block_sound(got, capdu.len(), room);
        }
    }
}

/// Every run that starts sound stays sound, and its state counts as
/// received what its rounds accepted.
pub proof fn lemma_run_sound<E>(
    start: Run<E>,
    capdu: Seq<u8>,
    room: nat,
    trace: Seq<Exchange<E>>,
)
    requires
        sound(start, capdu.len(), room),
        admissible(start, capdu, trace),
    ensures
        sound(run(start, capdu, trace), capdu.len(), room),
        run(start, capdu, trace).state.recv_size == start.state.recv_size
            + taken_total(start, capdu, trace),
        run(start, capdu, trace).state.nad == start.state.nad,
    decreases trace.len(),
{
    if trace.len() > 0 {
        lemma_run_sound(start, capdu, room, trace.drop_last());
        let before = run(start, capdu, trace.drop_last());
        if before.live() {
            lemma_round_sound(before, capdu, room, trace.last());
        }
    }
}

/// The response of a successful transmission is as long as the
/// information fields of all accepted I-blocks together, cut at the
/// room there is; and together they are no longer than the longest
/// response accepted.
pub proof fn lemma_response_length<E>(
    start: T1State,
    capdu: Seq<u8>,
    room: nat,
    trace: Seq<Exchange<E>>,
    end: T1State,
    result: Result<(), Error<E>>,
)
    requires
        start.wf(),
        result is Ok,
        plays(start.opened(capdu.len(), room), capdu, trace, end, result),
    ensures
        ({
            let first = Run::going(
        start.opened(capdu.len(), room).staged(),
        Ok::<(), Error<E>>(()),
    );
            let total = taken_total(first, capdu, trace);
            &&& end.received.len() == smaller(total, room)
            &&& total <= end.recv_max
            &&& end.recv_size == total
        }),
{
    let first = Run::going(
        start.opened(capdu.len(), room).staged(),
        Ok::<(), Error<E>>(()),
    );
    lemma_run_sound(first, capdu, room, trace);
}

/// An exchange that ends without error has halted, has attempts left
/// and was not aborted; all of the command was acknowledged or is
/// still to send; and the state keeps its bounds.
pub proof fn lemma_success_means_done<E>(
    start: T1State,
    capdu: Seq<u8>,
    room: nat,
    trace: Seq<Exchange<E>>,
    end: T1State,
    result: Result<(), Error<E>>,
)
    requires
        start.wf(),
        result is Ok,
        plays(start.opened(capdu.len(), room), capdu, trace, end, result),
    ensures
        end.wf(),
        end.flags.halt,
        !end.flags.aborted,
        end.retries > 0,
        end.send_off + end.send_len == capdu.len(),
        end.recv_cap == room,
{
    let first = Run::going(
        start.opened(capdu.len(), room).staged(),
        Ok::<(), Error<E>>(()),
    );
    lemma_run_sound(first, capdu, room, trace);
}

/// Reading gives up for want of an answer only after the line was
/// polled for longer than the waiting time: a timeout names the
/// waiting time, more than that was slept, and no more than one poll
/// beyond it.
pub proof fn lemma_timeout_after_wait<E>(
    nad: u8,
    wait: nat,
    waited: nat,
    read: Result<(), Error<E>>,
    bytes: Seq<u8>,
)
    requires
        readable(nad, wait, waited, read, bytes),
        read matches Err(Error::Timeout(_)),
    ensures
        read matches Err(Error::Timeout(ms)) && ms == wait,
        wait < waited <= wait + POLL_MS,
        waited % (POLL_MS as nat) == 0,
{
}

/// `b` is the I-block that is due in state `s` of an exchange that
/// sends `capdu`: it carries N(S), its information field is the part
/// of the command behind what the card has acknowledged, as long as
/// the card's field size allows, and it is chained exactly when more
/// of the command is left than it carries.
pub open spec fn carries_next(s: T1State, capdu: Seq<u8>, b: Seq<u8>) -> bool {
    &&& well_framed(b)
    &&& kind_of(b[1]) == Block::I
    &&& bit(b[1] & 0x40) == s.ns
    &&& (b[1] & 0x20 != 0) == (s.send_len > s.ifs.card)
    &&& b[2] == s.chunk()
    &&& b[2] <= s.ifs.card
    &&& s.send_off + s.chunk() <= capdu.len()
    &&& inf_of(b) == capdu.subrange(s.send_off as int, (s.send_off + s.chunk()) as int)
}

/// The send window of `after` is that of `before`, or it has moved
/// past the part that the next I-block carries and N(S) has flipped
/// with it, or the card has aborted and nothing is left to send. What
/// is behind the window and what is in it stay the same bytes of the
/// command.
pub open spec fn window_step(before: T1State, after: T1State) -> bool {
    &&& after.send_off + after.send_len == before.send_off + before.send_len
    &&& {
        ||| after.send_off == before.send_off
        ||| after.send_off == before.send_off + before.chunk() && after.ns == flipped(before.ns)
        ||| after.flags.aborted && after.send_len == 0
    }
}

/// When the command is due, the block that goes out is the I-block
/// with the next part of the command.
pub proof fn lemma_iblock_carries_next(s: T1State, capdu: Seq<u8>)
    requires
        s.wf(),
        s.send_off + s.send_len == capdu.len(),
        s.next_outbound() is Data,
    ensures
        carries_next(s, capdu, s.outbound_block(capdu)),
{
    let more = s.send_len > s.ifs.card;
    let inf = capdu.subrange(s.send_off as int, (s.send_off + s.chunk()) as int);
    let pcb = iblock_pcb(s.ns, more);
    lemma_block_fields(s.nad.dev, pcb, inf);
    lemma_pcb_kinds(s.ns, more, 0, 0, 0, 0);
    assert(0u8 & 0x40 == 0 && 0x20u8 & 0x40 == 0 && (0u8 | 0x40) & 0x40 != 0 && (0x20u8 | 0x40)
        & 0x40 != 0) by (bit_vector);
    assert(0u8 & 0x20 == 0 && 0x20u8 & 0x20 != 0 && (0u8 | 0x40) & 0x20 == 0 && (0x20u8 | 0x40)
        & 0x20 != 0) by (bit_vector);
}

/// A good block leaves the send window or moves it by one step.
proof fn lemma_block_moves_window<E>(s: T1State, ret: Result<(), Error<E>>)
    requires
        s.wf(),
        s.retries > 0,
        well_framed(s.block),
    ensures
        window_step(s, Run::going(s, ret).on_block().state),
{
    reveal(Run::on_block);
    if !s.edc_standoff() {
        let calm = T1State { flags: State { badcrc: false, timeout: false, ..s.flags }, ..s };
        if s.flags.request {
            reveal(Run::on_pending);
            reveal(T1State::answered);
            reveal(T1State::settled);
            reveal(T1State::ifs_requested);
            reveal(T1State::abort_requested);
            reveal(T1State::wtx_requested);
        } else {
            match kind_of(s.block[1]) {
                Block::I => {
                    reveal(Run::on_iblock);
                },
                Block::R => {
                    reveal(Run::on_rblock);
                    reveal(T1State::after_rblock);
                },
                Block::S => {
                    reveal(Run::on_sblock);
                    reveal(T1State::after_request);
                    reveal(T1State::ifs_requested);
                    reveal(T1State::abort_requested);
                    reveal(T1State::wtx_requested);
                },
            }
        }
    }
}

/// One round of an exchange leaves the send window or moves it by one
/// step.
pub proof fn lemma_round_moves_window<E>(before: Run<E>, capdu: Seq<u8>, ex: Exchange<E>)
    requires
        before.state.wf(),
        before.live(),
        before.reads_after(capdu, ex.wrote) ==> readable(
            before.state.nad.card,
            before.state.wait(),
            ex.waited,
            ex.read,
            ex.block,
        ),
    ensures
        window_step(before.state, before.round(capdu, ex).state),
{
    reveal(Run::round);
    reveal(Run::on_read);
    let sent = before.state.with_outbound(capdu);
    if before.reads_after(capdu, ex.wrote) && ex.read is Ok {
        lemma_block_moves_window(sent.with_inbound(ex.block), before.ret);
    }
}

/// The rounds of an admissible trace up to any of them are an
/// admissible trace.
pub proof fn lemma_admissible_take<E>(
    start: Run<E>,
    capdu: Seq<u8>,
    trace: Seq<Exchange<E>>,
    n: int,
)
    requires
        admissible(start, capdu, trace),
        0 <= n <= trace.len(),
    ensures
        admissible(start, capdu, trace.take(n)),
    decreases trace.len(),
{
    if n == trace.len() {
        assert(trace.take(n) =~= trace);
    } else {
        assert(trace.drop_last().take(n) =~= trace.take(n));
        lemma_admissible_take(start, capdu, trace.drop_last(), n);
    }
}

/// Chaining of a command over a whole exchange. In every round in
/// which the command is due, the block written is the I-block with
/// the next part of the command: it starts where the acknowledged
/// part ends, is no longer than the card's field size, and is chained
/// exactly when more is left. In the course of the round the send
/// window stays, or moves past that part with N(S) flipped, or closes
/// on an abort of the card: so the parts that were acknowledged follow
/// one another in the command without gap or overlap.
pub proof fn lemma_command_is_chained<E>(
    start: Run<E>,
    capdu: Seq<u8>,
    room: nat,
    trace: Seq<Exchange<E>>,
    n: int,
)
    requires
        sound(start, capdu.len(), room),
        admissible(start, capdu, trace),
        0 <= n < trace.len(),
        run(start, capdu, trace.take(n)).live(),
    ensures
        ({
            let before = run(start, capdu, trace.take(n)).state;
            let after = run(start, capdu, trace.take(n + 1)).state;
            &&& before.send_off + before.send_len == capdu.len()
            &&& before.next_outbound() is Data ==> carries_next(
                before,
                capdu,
                before.outbound_block(capdu),
            )
            &&& window_step(before, after)
        }),
{
    let upto = trace.take(n + 1);
    assert(upto.drop_last() =~= trace.take(n));
    lemma_admissible_take(start, capdu, trace, n + 1);
    lemma_run_sound(start, capdu, room, trace.take(n));
    let before = run(start, capdu, trace.take(n));
    if before.state.next_outbound() is Data {
        lemma_iblock_carries_next(before.state, capdu);
    }
    lemma_round_moves_window(before, capdu, upto.last());
}

/// What holds of a run that resets the card: as long as it is live
/// the RESET request is pending, and if no error was met it is either
/// still waiting for the answer or has halted with the reset done and
/// the IFSD still to negotiate.
pub open spec fn resetting<E>(run: Run<E>) -> bool {
    let s = run.state;
    &&& s.wf()
    &&& s.recv_cap == 0
    &&& run.over ==> run.ret is Err
    &&& s.retries == 0 ==> run.ret is Err
    &&& run.live() ==> s.flags.request && s.request == crate::codec::REQUEST_RESET
    &&& run.ret is Ok && !run.live() ==> s.flags.halt && !s.need.reset && s.need.ifsd_sync
}

proof fn lemma_reset_round<E>(before: Run<E>, capdu: Seq<u8>, ex: Exchange<E>)
    requires
        resetting(before),
        before.live(),
        before.state.send_off + before.state.send_len <= capdu.len(),
        before.reads_after(capdu, ex.wrote) ==> readable(
            before.state.nad.card,
            before.state.wait(),
            ex.waited,
            ex.read,
            ex.block,
        ),
    ensures
        resetting(before.round(capdu, ex)),
        before.round(capdu, ex).state.send_off + before.round(capdu, ex).state.send_len
            == before.state.send_off + before.state.send_len,
{
    reveal(Run::round);
    reveal(Run::on_read);
    reveal(Run::on_block);
    reveal(Run::on_pending);
    reveal(T1State::answered);
    reveal(T1State::settled);
    lemma_outbound_verifies(before.state, capdu);
}

proof fn lemma_reset_run<E>(start: Run<E>, capdu: Seq<u8>, trace: Seq<Exchange<E>>)
    requires
        resetting(start),
        start.state.send_off + start.state.send_len <= capdu.len(),
        admissible(start, capdu, trace),
    ensures
        resetting(run(start, capdu, trace)),
        run(start, capdu, trace).state.send_off + run(start, capdu, trace).state.send_len
            == start.state.send_off + start.state.send_len,
    decreases trace.len(),
{
    if trace.len() > 0 {
        lemma_reset_run(start, capdu, trace.drop_last());
        let before = run(start, capdu, trace.drop_last());
        if before.live() {
            lemma_reset_round(before, capdu, trace.last());
        }
    }
}

/// A reset that ends without error has received the answer of the
/// card: no reset is due any more, the exchange has halted, and the
/// IFSD is still to negotiate.
pub proof fn lemma_reset_done<E>(
    start: T1State,
    trace: Seq<Exchange<E>>,
    end: T1State,
    result: Result<(), Error<E>>,
)
    requires
        start.wf(),
        result is Ok,
        plays(start.resetting(), Seq::<u8>::empty(), trace, end, result),
    ensures
        !end.need.reset,
        end.need.ifsd_sync,
        end.flags.halt,
        end.wf(),
{
    let first = Run::going(start.resetting().staged(), Ok::<(), Error<E>>(()));
    lemma_reset_run(first, Seq::<u8>::empty(), trace);
}

/// The relation `gives` holds of `input` and `result`.
pub open spec fn allows<A, B>(gives: spec_fn(A, B) -> bool, input: A, result: B) -> bool {
    gives(input, result)
}

/// According to `writes`, writing some block of `len` bytes can give
/// `wrote`.
pub open spec fn can_write<E>(
    writes: spec_fn(Seq<u8>, Result<usize, E>) -> bool,
    len: nat,
    wrote: Result<usize, E>,
) -> bool {
    exists|block: Seq<u8>| block.len() == len && #[trigger] allows(writes, block, wrote)
}

/// According to `writes`, writing some block can give `wrote`.
pub open spec fn can_write_any<E>(
    writes: spec_fn(Seq<u8>, Result<usize, E>) -> bool,
    wrote: Result<usize, E>,
) -> bool {
    exists|block: Seq<u8>| #[trigger] allows(writes, block, wrote)
}

/// According to `reads`, reading into a slice of some length can give
/// `got`.
pub open spec fn can_read<E>(
    reads: spec_fn(nat, Result<usize, E>) -> bool,
    got: Result<usize, E>,
) -> bool {
    exists|len: nat| #[trigger] allows(reads, len, got)
}

/// An error of the transport in `ret` is backed by a result that the
/// callback in question can give according to `writes` and `reads`:
/// a failed write or read by that failure, a short one by that count,
/// a timeout by a read of one byte.
pub open spec fn backed<E>(
    writes: spec_fn(Seq<u8>, Result<usize, E>) -> bool,
    reads: spec_fn(nat, Result<usize, E>) -> bool,
    ret: Result<(), Error<E>>,
) -> bool {
    match ret {
        Err(Error::Write(e)) => can_write_any(writes, Err::<usize, E>(e)),
        Err(Error::WriteLen(len, n)) => len != n && can_write(
            writes,
            len as nat,
            Ok::<usize, E>(n),
        ),
        Err(Error::ReadNad(e)) => reads(1, Err(e)),
        Err(Error::ReadNadLen(n, want)) => want == 1 && n != 1 && reads(1, Ok(n)),
        Err(Error::Timeout(_)) => reads(1, Ok(1)),
        Err(Error::ReadHdr(e)) => reads(3, Err(e)),
        Err(Error::ReadHdrLen(n, want)) => want == 3 && n != 3 && reads(3, Ok(n)),
        Err(Error::ReadData(e)) => can_read(reads, Err::<usize, E>(e)),
        Err(Error::ReadDataLen(n, want)) => n != want && reads(want as nat, Ok(n)),
        _ => true,
    }
}

proof fn lemma_block_backed<E>(
    writes: spec_fn(Seq<u8>, Result<usize, E>) -> bool,
    reads: spec_fn(nat, Result<usize, E>) -> bool,
    run: Run<E>,
)
    requires
        backed(writes, reads, run.ret),
    ensures
        backed(writes, reads, run.on_block().ret),
{
    reveal(Run::on_block);
    reveal(Run::on_pending);
    reveal(Run::on_iblock);
    reveal(Run::on_rblock);
    reveal(Run::on_sblock);
}

proof fn lemma_round_backed<E>(
    writes: spec_fn(Seq<u8>, Result<usize, E>) -> bool,
    reads: spec_fn(nat, Result<usize, E>) -> bool,
    before: Run<E>,
    capdu: Seq<u8>,
    ex: Exchange<E>,
)
    requires
        backed(writes, reads, before.ret),
        before.state.send_off + before.state.send_len <= capdu.len(),
        before.state.next_outbound() !is Aborted && before.state.next_outbound() !is Nothing
            ==> writes(before.state.outbound_block(capdu), ex.wrote),
        before.reads_after(capdu, ex.wrote) ==> readable(
            before.state.nad.card,
            before.state.wait(),
            ex.waited,
            ex.read,
            ex.block,
        ) && told(reads, received(ex.read), ex.block),
    ensures
        backed(writes, reads, before.round(capdu, ex).ret),
{
    reveal(Run::round);
    reveal(Run::on_read);
    lemma_outbound_verifies(before.state, capdu);
    let sent = before.state.with_outbound(capdu);
    if before.state.next_outbound() !is Aborted && before.state.next_outbound() !is Nothing {
        assert(sent.block == before.state.outbound_block(capdu));
        if before.reads_after(capdu, ex.wrote) {
            let got = before.at(sent.with_inbound(ex.block));
            lemma_block_backed(writes, reads, got);
            match ex.read {
                Err(Error::ReadData(cause)) => {
                    assert(allows(reads, ex.block[2] as nat, Err::<usize, E>(cause)));
                    assert(can_read(reads, Err::<usize, E>(cause)));
                },
                _ => {},
            }
        } else {
            match ex.wrote {
                Err(e) => {
                    assert(allows(writes, sent.block, Err::<usize, E>(e)));
                    assert(can_write_any(writes, Err::<usize, E>(e)));
                },
                Ok(n) => {
                    assert(allows(writes, sent.block, Ok::<usize, E>(n)));
                    assert(can_write(writes, sent.block.len(), Ok::<usize, E>(n)));
                },
            }
        }
    }
}

proof fn lemma_run_backed<E>(
    writes: spec_fn(Seq<u8>, Result<usize, E>) -> bool,
    reads: spec_fn(nat, Result<usize, E>) -> bool,
    start: Run<E>,
    capdu: Seq<u8>,
    room: nat,
    trace: Seq<Exchange<E>>,
)
    requires
        backed(writes, reads, start.ret),
        sound(start, capdu.len(), room),
        admissible(start, capdu, trace),
        carried(writes, reads, start, capdu, trace),
    ensures
        backed(writes, reads, run(start, capdu, trace).ret),
    decreases trace.len(),
{
    if trace.len() > 0 {
        lemma_run_backed(writes, reads, start, capdu, room, trace.drop_last());
        lemma_run_sound(start, capdu, room, trace.drop_last());
        let before = run(start, capdu, trace.drop_last());
        if before.live() {
            lemma_round_backed(writes, reads, before, capdu, trace.last());
        }
    }
}

/// An error of the transport that a transmission ends with is backed
/// by a result of the callback in question.
pub proof fn lemma_result_backed<E>(
    writes: spec_fn(Seq<u8>, Result<usize, E>) -> bool,
    reads: spec_fn(nat, Result<usize, E>) -> bool,
    start: T1State,
    capdu: Seq<u8>,
    room: nat,
    end: T1State,
    result: Result<(), Error<E>>,
)
    requires
        start.wf(),
        exchanged_over(writes, reads, start.opened(capdu.len(), room), capdu, end, result),
    ensures
        backed(writes, reads, result),
{
    let first = Run::going(
        start.opened(capdu.len(), room).staged(),
        Ok::<(), Error<E>>(()),
    );
    let trace = choose|trace: Seq<Exchange<E>>|
        {
            &&& #[trigger] plays(start.opened(capdu.len(), room), capdu, trace, end, result)
            &&& carried(writes, reads, first, capdu, trace)
        };
    lemma_run_backed(writes, reads, first, capdu, room, trace);
}

/// `writes` only allows that every block is written whole.
pub open spec fn writes_whole<E>(writes: spec_fn(Seq<u8>, Result<usize, E>) -> bool) -> bool {
    forall|block: Seq<u8>, wrote: Result<usize, E>| #[trigger]
        writes(block, wrote) ==> wrote == Ok::<usize, E>(block.len() as usize)
}

/// Over a write callback that writes every block whole, a
/// transmission does not fail with an error of writing.
pub proof fn lemma_writes_whole<E>(
    writes: spec_fn(Seq<u8>, Result<usize, E>) -> bool,
    reads: spec_fn(nat, Result<usize, E>) -> bool,
    start: T1State,
    capdu: Seq<u8>,
    room: nat,
    end: T1State,
    result: Result<(), Error<E>>,
)
    requires
        start.wf(),
        writes_whole(writes),
        exchanged_over(writes, reads, start.opened(capdu.len(), room), capdu, end, result),
    ensures
        !(result matches Err(Error::Write(_))),
        !(result matches Err(Error::WriteLen(_, _))),
{
    lemma_result_backed(writes, reads, start, capdu, room, end, result);
}

/// `ret` is none of the errors that no exchange ends with.
pub open spec fn possible<E>(ret: Result<(), Error<E>>) -> bool {
    match ret {
        Err(Error::CApduLen(_)) => false,
        Err(Error::NoAtr) => false,
        Err(Error::ReadLen(_)) => false,
        Err(Error::ReadNadVal(_)) => false,
        Err(Error::RecvLen(_, _)) => false,
        Err(Error::NeverReq) => false,
        _ => true,
    }
}

/// The last error of `run` is possible, and a request that is pending
/// is one that the engine makes: RESYNC, IFS or RESET.
pub open spec fn plausible<E>(run: Run<E>) -> bool {
    &&& possible(run.ret)
    &&& run.state.flags.request ==> {
        ||| run.state.request == crate::codec::REQUEST_RESYNC
        ||| run.state.request == crate::codec::REQUEST_IFS
        ||| run.state.request == crate::codec::REQUEST_RESET
    }
}

proof fn lemma_block_plausible<E>(run: Run<E>)
    requires
        plausible(run),
        !run.state.flags.halt,
    ensures
        plausible(run.on_block()),
{
    reveal(Run::on_block);
    reveal(Run::on_pending);
    reveal(Run::on_iblock);
    reveal(Run::on_rblock);
    reveal(Run::on_sblock);
    reveal(T1State::answered);
    reveal(T1State::settled);
    reveal(T1State::after_rblock);
    reveal(T1State::after_request);
    reveal(T1State::ifs_requested);
    reveal(T1State::abort_requested);
    reveal(T1State::wtx_requested);
}

proof fn lemma_round_plausible<E>(before: Run<E>, capdu: Seq<u8>, ex: Exchange<E>)
    requires
        plausible(before),
        before.live(),
        before.state.send_off + before.state.send_len <= capdu.len(),
        before.reads_after(capdu, ex.wrote) ==> readable(
            before.state.nad.card,
            before.state.wait(),
            ex.waited,
            ex.read,
            ex.block,
        ),
    ensures
        plausible(before.round(capdu, ex)),
{
    reveal(Run::round);
    reveal(Run::on_read);
    lemma_outbound_verifies(before.state, capdu);
    let sent = before.state.with_outbound(capdu);
    lemma_block_plausible(before.at(sent.with_inbound(ex.block)));
}

proof fn lemma_run_plausible<E>(
    start: Run<E>,
    capdu: Seq<u8>,
    room: nat,
    trace: Seq<Exchange<E>>,
)
    requires
        plausible(start),
        sound(start, capdu.len(), room),
        admissible(start, capdu, trace),
    ensures
        plausible(run(start, capdu, trace)),
    decreases trace.len(),
{
    if trace.len() > 0 {
        lemma_run_plausible(start, capdu, room, trace.drop_last());
        lemma_run_sound(start, capdu, room, trace.drop_last());
        let before = run(start, capdu, trace.drop_last());
        if before.live() {
            lemma_round_plausible(before, capdu, trace.last());
        }
    }
}

/// No transmission ends with one of the errors that are kept for
/// completeness: a command or an answer that cannot be handled, a
/// block shorter than a prologue or from another node passing for
/// received, a block longer than the scratch area, or a response to
/// a request that is never made.
pub proof fn lemma_never_returned<E>(
    start: T1State,
    capdu: Seq<u8>,
    room: nat,
    trace: Seq<Exchange<E>>,
    end: T1State,
    result: Result<(), Error<E>>,
)
    requires
        start.wf(),
        plays(start.opened(capdu.len(), room), capdu, trace, end, result),
    ensures
        possible(result),
{
    let first = Run::going(
        start.opened(capdu.len(), room).staged(),
        Ok::<(), Error<E>>(()),
    );
    lemma_run_plausible(first, capdu, room, trace);
}

/// With nothing to send, nothing received and nothing to negotiate, an
/// exchange ends at once: nothing is written, the state is the one it
/// started in, and the result is `NoRespIBlock`.
pub proof fn lemma_nothing_to_send<E>(
    start: T1State,
    capdu: Seq<u8>,
    trace: Seq<Exchange<E>>,
    end: T1State,
    result: Result<(), Error<E>>,
)
    requires
        start.staged().next_outbound() is Nothing,
        !start.flags.halt,
        start.retries > 0,
        plays(start, capdu, trace, end, result),
    ensures
        end == start,
        result == Err::<(), Error<E>>(Error::NoRespIBlock),
{
    let first = Run::going(start.staged(), Ok::<(), Error<E>>(()));
    assert(start.staged() == start);
    lemma_cut_at_once(first, capdu, trace);
}

/// A run that has nothing to send is cut in its first round and stays
/// as it is then.
proof fn lemma_cut_at_once<E>(first: Run<E>, capdu: Seq<u8>, trace: Seq<Exchange<E>>)
    requires
        first.state.next_outbound() is Nothing,
        first.live(),
        trace.len() > 0,
    ensures
        run(first, capdu, trace) == first.cut(first.state, Error::NoRespIBlock),
    decreases trace.len(),
{
    reveal(Run::round);
    if trace.len() > 1 {
        lemma_cut_at_once(first, capdu, trace.drop_last());
    } else {
        assert(run(first, capdu, trace.drop_last()) == first);
    }
}

} // verus!
