//! Properties that span several functions of the renderer.

use vstd::prelude::*;
use crate::loop_point::loop_scan;
use crate::plan::{
    ChipOp, PlanState, RenderPart, dac_ops, initial_state, is_global_reg, key_on_channel, plan_run,
    plan_step, reg_channel, remaining, waits_of, write_allowed, write_ops,
};
use crate::chip::ChipEvent;
use crate::pcm::pcm_samples;
use crate::render::{PlayState, frames_of, generated, op_step, play, play_start, rendered_len, skipped, wait_step};
use crate::timing::{VGM_RATE, lemma_timing_no_drift, total_waits};

verus! {

/// Two interpreter states that differ at most in which writes they issued.
pub open spec fn same_course(s1: PlanState, s2: PlanState) -> bool {
    &&& s1.pos == s2.pos
    &&& s1.dac_pos == s2.dac_pos
    &&& s1.bank == s2.bank
    &&& s1.samples == s2.samples
    &&& s1.commands == s2.commands
    &&& s1.ym_writes == s2.ym_writes
    &&& s1.dac_writes == s2.dac_writes
    &&& s1.data_blocks == s2.data_blocks
    &&& waits_of(s1.ops) == waits_of(s2.ops)
}

/// Appending writes leaves the waits of a sequence of operations alone.
proof fn lemma_waits_of_writes(a: Seq<ChipOp>, w: Seq<ChipOp>)
    requires
        forall|i: int| 0 <= i < w.len() ==> #[trigger] w[i] is Write,
    ensures
        waits_of(a + w) == waits_of(a),
    decreases w.len(),
{
    if w.len() > 0 {
        let w0 = w.drop_last();
        assert((a + w).drop_last() == a + w0);
        assert((a + w).last() == w.last());
        assert(w.last() == w[w.len() - 1]);
        assert forall|i: int| 0 <= i < w0.len() implies #[trigger] w0[i] is Write by {
            assert(w0[i] == w[i]);
        }
        lemma_waits_of_writes(a, w0);
    } else {
        assert(a + w == a);
    }
}

/// One command: both parts fail alike, or both go on alike.
proof fn lemma_step_agrees(b: Seq<u8>, eof: int, p1: RenderPart, p2: RenderPart, s1: PlanState, s2: PlanState)
    requires
        same_course(s1, s2),
        s1.pos < eof,
    ensures
        match (plan_step(b, eof, p1, s1), plan_step(b, eof, p2, s2)) {
            (Err(e1), Err(e2)) => e1 == e2,
            (Ok((n1, end1)), Ok((n2, end2))) => end1 == end2 && same_course(n1, n2),
            _ => false,
        },
{
    let pos = s1.pos;
    let c = b[pos];
    if c == 0x52 || c == 0x53 {
        let port: u32 = if c == 0x52 { 0 } else { 2 };
        lemma_waits_of_writes(s1.ops, write_ops(p1, port, b[pos + 1], b[pos + 2]));
        lemma_waits_of_writes(s2.ops, write_ops(p2, port, b[pos + 1], b[pos + 2]));
    } else if 0x80 <= c && c <= 0x8f {
        match s1.bank {
            Some(bank) => {
                if s1.dac_pos < bank.len() {
                    let v = bank[s1.dac_pos];
                    lemma_waits_of_writes(s1.ops, dac_ops(p1, v));
                    lemma_waits_of_writes(s2.ops, dac_ops(p2, v));
                    let o1 = s1.ops + dac_ops(p1, v);
                    let o2 = s2.ops + dac_ops(p2, v);
                    let w = ChipOp::Wait { samples: (c & 0x0f) as int as u64 };
                    assert(o1.push(w).drop_last() == o1);
                    assert(o2.push(w).drop_last() == o2);
                }
            },
            None => {},
        }
    } else if c == 0x61 || c == 0x62 || c == 0x63 || (0x70 <= c && c <= 0x7f) {
        let n: int = if c == 0x61 {
            crate::stream::spec_u16le(b, pos + 1)
        } else if c == 0x62 {
            735
        } else if c == 0x63 {
            882
        } else {
            (c & 0x0f) as int + 1
        };
        let w = ChipOp::Wait { samples: n as u64 };
        assert(s1.ops.push(w).drop_last() == s1.ops);
        assert(s2.ops.push(w).drop_last() == s2.ops);
    }
}

/// Helper for `lemma_parts_agree`: from any two states that differ only in
/// the writes issued.
proof fn lemma_runs_agree(b: Seq<u8>, eof: int, p1: RenderPart, p2: RenderPart, s1: PlanState, s2: PlanState)
    requires
        same_course(s1, s2),
    ensures
        match (plan_run(b, eof, p1, s1), plan_run(b, eof, p2, s2)) {
            (Err(e1), Err(e2)) => e1 == e2,
            (Ok(f1), Ok(f2)) => same_course(f1, f2),
            _ => false,
        },
    decreases remaining(eof, s1.pos),
{
    if s1.pos < eof {
        lemma_step_agrees(b, eof, p1, p2, s1, s2);
        match (plan_step(b, eof, p1, s1), plan_step(b, eof, p2, s2)) {
            (Ok((n1, end1)), Ok((n2, end2))) => {
                if !end1 {
                    lemma_runs_agree(b, eof, p1, p2, n1, n2);
                }
            },
            _ => {},
        }
    }
}

/// The render parts differ only in which register writes reach their chip:
/// for any two parts, interpreting the same stream fails with the same
/// error, or succeeds with the same timeline, the same counts and the same
/// waits in the same order, and so renders the same number of PCM samples.
/// (Hence the timeline and PCM length checks across parts never fail.)
pub proof fn lemma_parts_agree(b: Seq<u8>, eof: int, data_off: int, p1: RenderPart, p2: RenderPart, rate: u32, seek: u64)
    ensures
        match (plan_run(b, eof, p1, initial_state(data_off)), plan_run(b, eof, p2, initial_state(data_off))) {
            (Err(e1), Err(e2)) => e1 == e2,
            (Ok(s1), Ok(s2)) => {
                &&& s1.samples == s2.samples
                &&& s1.commands == s2.commands
                &&& s1.ym_writes == s2.ym_writes
                &&& s1.dac_writes == s2.dac_writes
                &&& s1.data_blocks == s2.data_blocks
                &&& waits_of(s1.ops) == waits_of(s2.ops)
                &&& rendered_len(s1.ops, rate, seek) == rendered_len(s2.ops, rate, seek)
            },
            _ => false,
        },
{
    lemma_runs_agree(b, eof, p1, p2, initial_state(data_off), initial_state(data_off));
}

/// How a register write on port 0 or 2 is routed to the seven parts: a
/// per-channel FM register reaches exactly the FM part of its channel (one
/// of the six) and never the DAC part; a key-on (`0x28`) reaches exactly the
/// FM part of the channel it selects and never the DAC part; the global
/// registers reach every part; DAC data (`0x2a`) reaches the DAC part only.
pub proof fn lemma_write_routing(port: u32, reg: u8, val: u8)
    requires
        port == 0 || port == 2,
    ensures
        reg != 0x28 && !is_global_reg(reg) && reg_channel(port, reg) is Some ==> {
            &&& 0 <= reg_channel(port, reg)->0 < 6
            &&& forall|ch: usize| write_allowed(RenderPart::Fm(ch), port, reg, val) <==> ch == reg_channel(port, reg)->0
            &&& !write_allowed(RenderPart::Dac, port, reg, val)
        },
        reg != 0x28 && !is_global_reg(reg) && reg_channel(port, reg) is None && reg != 0x2a ==>
            forall|p: RenderPart| !write_allowed(p, port, reg, val),
        reg == 0x28 ==> {
            &&& forall|ch: usize| write_allowed(RenderPart::Fm(ch), port, reg, val) <==> ch == key_on_channel(val)
            &&& !write_allowed(RenderPart::Dac, port, reg, val)
        },
        is_global_reg(reg) ==> forall|p: RenderPart| write_allowed(p, port, reg, val),
        reg == 0x2a ==> {
            &&& write_allowed(RenderPart::Dac, port, reg, val)
            &&& forall|ch: usize| !write_allowed(RenderPart::Fm(ch), port, reg, val)
        },
{
    assert((reg & 0x03) <= 3) by (bit_vector);
    assert forall|p: RenderPart| is_global_reg(reg) implies write_allowed(p, port, reg, val) by {
        match p {
            RenderPart::Fm(_) => {},
            RenderPart::Dac => {},
        }
    }
}

/// No address write in `ops` selects the DAC data register (`0x2a`).
pub open spec fn never_selects_dac(ops: Seq<ChipOp>) -> bool {
    forall|i: int| 0 <= i < ops.len() ==> (#[trigger] ops[i] matches ChipOp::Write { offset, data }
        ==> (offset == 0 || offset == 2 ==> data != 0x2a))
}

/// Helper for `lemma_fm_parts_skip_dac`: from any state.
proof fn lemma_run_skips_dac(b: Seq<u8>, eof: int, ch: usize, s: PlanState)
    requires
        never_selects_dac(s.ops),
    ensures
        plan_run(b, eof, RenderPart::Fm(ch), s) matches Ok(f) ==> never_selects_dac(f.ops),
    decreases remaining(eof, s.pos),
{
    let part = RenderPart::Fm(ch);
    if s.pos < eof {
        match plan_step(b, eof, part, s) {
            Ok((n, end)) => {
                let c = b[s.pos];
                if c == 0x52 || c == 0x53 {
                    let port: u32 = if c == 0x52 { 0 } else { 2 };
                    let w = write_ops(part, port, b[s.pos + 1], b[s.pos + 2]);
                    lemma_write_routing(port, b[s.pos + 1], b[s.pos + 2]);
                    assert forall|i: int| 0 <= i < n.ops.len() implies (#[trigger] n.ops[i] matches ChipOp::Write { offset, data }
                        ==> (offset == 0 || offset == 2 ==> data != 0x2a)) by {
                        if i >= s.ops.len() {
                            assert(n.ops[i] == w[i - s.ops.len()]);
                        }
                    }
                } else if 0x80 <= c && c <= 0x8f {
                    assert forall|i: int| 0 <= i < n.ops.len() implies (#[trigger] n.ops[i] matches ChipOp::Write { offset, data }
                        ==> (offset == 0 || offset == 2 ==> data != 0x2a)) by {
                        if i < s.ops.len() {
                            assert(n.ops[i] == s.ops[i]);
                        }
                    }
                } else if c == 0x61 || c == 0x62 || c == 0x63 || (0x70 <= c && c <= 0x7f) {
                    assert forall|i: int| 0 <= i < n.ops.len() implies (#[trigger] n.ops[i] matches ChipOp::Write { offset, data }
                        ==> (offset == 0 || offset == 2 ==> data != 0x2a)) by {
                        if i < s.ops.len() {
                            assert(n.ops[i] == s.ops[i]);
                        }
                    }
                }
                if !end {
                    lemma_run_skips_dac(b, eof, ch, n);
                }
            },
            Err(_) => {},
        }
    }
}

/// The DAC is isolated from the FM parts: the chip of an FM part never has
/// the DAC data register (`0x2a`) selected, neither by a DAC command nor by
/// a register write in the stream.
pub proof fn lemma_fm_parts_skip_dac(b: Seq<u8>, eof: int, data_off: int, ch: usize)
    ensures
        plan_run(b, eof, RenderPart::Fm(ch), initial_state(data_off)) matches Ok(f) ==> never_selects_dac(f.ops),
{
    lemma_run_skips_dac(b, eof, ch, initial_state(data_off));
}

/// Helper for `lemma_loop_within_timeline`: the loop walk and the
/// interpreter move over the same commands and count the same samples.
proof fn lemma_walks_agree(b: Seq<u8>, eof: int, lp: int, part: RenderPart, s: PlanState)
    ensures
        plan_run(b, eof, part, s) matches Ok(f) ==> f.samples >= s.samples,
        loop_scan(b, eof, lp, s.pos, s.samples) matches Some(x)
            ==> (plan_run(b, eof, part, s) matches Ok(f) ==> x <= f.samples),
    decreases remaining(eof, s.pos),
{
    if s.pos < eof {
        match plan_step(b, eof, part, s) {
            Ok((n, end)) => {
                if !end {
                    lemma_walks_agree(b, eof, lp, part, n);
                    if s.pos != lp {
                        assert(loop_scan(b, eof, lp, s.pos, s.samples) == loop_scan(b, eof, lp, n.pos, n.samples));
                    }
                }
            },
            Err(_) => {},
        }
    }
}

/// The loop point lies on the timeline: when a part renders a stream and the
/// walk from its start meets the loop point, the samples before the loop
/// point are at most the part's whole timeline (so the loop start never
/// comes after the loop end).
pub proof fn lemma_loop_within_timeline(b: Seq<u8>, eof: int, data_off: int, lp: int, part: RenderPart)
    ensures
        loop_scan(b, eof, lp, data_off, 0) matches Some(x)
            ==> (plan_run(b, eof, part, initial_state(data_off)) matches Ok(f) ==> x <= f.samples),
{
    lemma_walks_agree(b, eof, lp, part, initial_state(data_off));
}

/// The samples an interpreter state has counted are the sum of its waits.
pub open spec fn samples_are_waits(s: PlanState) -> bool {
    s.samples == total_waits(waits_of(s.ops))
}

proof fn lemma_push_wait(ops: Seq<ChipOp>, n: u64)
    ensures
        waits_of(ops.push(ChipOp::Wait { samples: n })) == waits_of(ops).push(n),
        total_waits(waits_of(ops).push(n)) == total_waits(waits_of(ops)) + n,
{
    assert(ops.push(ChipOp::Wait { samples: n }).drop_last() == ops);
    assert(waits_of(ops).push(n).drop_last() == waits_of(ops));
}

/// Helper for `lemma_timeline_frames`: each command keeps the count of
/// samples equal to the sum of the waits issued.
proof fn lemma_step_counts_waits(b: Seq<u8>, eof: int, part: RenderPart, s: PlanState)
    requires
        samples_are_waits(s),
        s.pos < eof,
    ensures
        plan_step(b, eof, part, s) matches Ok((n, _)) ==> samples_are_waits(n),
{
    let pos = s.pos;
    let c = b[pos];
    assert((c & 0x0f) <= 15) by (bit_vector);
    if c == 0x52 || c == 0x53 {
        let port: u32 = if c == 0x52 { 0 } else { 2 };
        lemma_waits_of_writes(s.ops, write_ops(part, port, b[pos + 1], b[pos + 2]));
    } else if c == 0x61 {
        lemma_push_wait(s.ops, crate::stream::spec_u16le(b, pos + 1) as u64);
    } else if c == 0x62 {
        lemma_push_wait(s.ops, 735);
    } else if c == 0x63 {
        lemma_push_wait(s.ops, 882);
    } else if 0x70 <= c && c <= 0x7f {
        lemma_push_wait(s.ops, ((c & 0x0f) as int + 1) as u64);
    } else if 0x80 <= c && c <= 0x8f {
        match s.bank {
            Some(bank) => {
                if s.dac_pos < bank.len() {
                    let v = bank[s.dac_pos];
                    lemma_waits_of_writes(s.ops, dac_ops(part, v));
                    lemma_push_wait(s.ops + dac_ops(part, v), (c & 0x0f) as int as u64);
                }
            },
            None => {},
        }
    }
}

proof fn lemma_run_counts_waits(b: Seq<u8>, eof: int, part: RenderPart, s: PlanState)
    requires
        samples_are_waits(s),
    ensures
        plan_run(b, eof, part, s) matches Ok(f) ==> samples_are_waits(f),
    decreases remaining(eof, s.pos),
{
    if s.pos < eof {
        lemma_step_counts_waits(b, eof, part, s);
        match plan_step(b, eof, part, s) {
            Ok((n, end)) => {
                if !end {
                    lemma_run_counts_waits(b, eof, part, n);
                }
            },
            Err(_) => {},
        }
    }
}

/// Every part renders as many native frames as its timeline lasts at the
/// native rate, rounded down (however the timeline is split into waits),
/// less the frames before the seek target; two PCM samples per frame.
pub proof fn lemma_timeline_frames(b: Seq<u8>, eof: int, data_off: int, part: RenderPart, rate: u32, seek: u64)
    ensures
        plan_run(b, eof, part, initial_state(data_off)) matches Ok(s) ==> {
            &&& frames_of(s.ops, rate) == (s.samples * rate) / (VGM_RATE as int)
            &&& rendered_len(s.ops, rate, seek) == 2 * (frames_of(s.ops, rate) - skipped(seek as int, frames_of(s.ops, rate)))
        },
{
    assert(waits_of(Seq::<ChipOp>::empty()) == Seq::<u64>::empty());
    lemma_run_counts_waits(b, eof, part, initial_state(data_off));
    match plan_run(b, eof, part, initial_state(data_off)) {
        Ok(s) => {
            lemma_timing_no_drift(waits_of(s.ops), rate);
        },
        Err(_) => {},
    }
}

/// What seeking keeps of a rendering from the start `a` in the rendering
/// `z` of the same operations with seek target `seek`.
pub open spec fn seek_keeps(a: PlayState, z: PlayState, seek: u64) -> bool {
    let dropped = skipped(seek as int, (a.out.len() / 2) as int);
    &&& a.skip == 0
    &&& a.rem >= 0
    &&& a.out.len() % 2 == 0
    &&& z.history == a.history
    &&& z.peak == a.peak
    &&& z.rem == a.rem
    &&& z.skip == seek - dropped
    &&& z.out == a.out.skip(2 * dropped)
}

proof fn lemma_seek_step(clock: u32, a: PlayState, z: PlayState, op: ChipOp, rate: int, seek: u64)
    requires
        seek_keeps(a, z, seek),
        rate >= 0,
    ensures
        seek_keeps(op_step(clock, a, op, rate), op_step(clock, z, op, rate), seek),
{
    match op {
        ChipOp::Write { .. } => {},
        ChipOp::Wait { samples } => {
            let f = crate::timing::timing_step(a.rem, samples as int, rate).0;
            assert(samples as int * rate >= 0) by (nonlinear_arith)
                requires
                    rate >= 0,
            ;
            if f != 0 {
                let buf = generated(clock, a.history, f * 2 / 2);
                assert(f * 2 / 2 == f);
                assert(buf.len() == 2 * f);
                let p = pcm_samples(buf);
                assert(buf.skip(0) == buf);
                let fa = (a.out.len() / 2) as int;
                let k = skipped(z.skip, f);
                assert(pcm_samples(buf.skip(k * 2)) =~= p.skip(2 * k));
                let a2 = wait_step(clock, a, samples as int, rate, 2);
                let z2 = wait_step(clock, z, samples as int, rate, 2);
                assert(a2.out == a.out + p);
                assert(a2.out.len() == a.out.len() + 2 * f);
                if seek <= fa {
                    assert((a.out + p).skip(2 * seek) =~= a.out.skip(2 * seek) + p);
                    assert(p.skip(0) == p);
                } else {
                    assert(a.out.skip(2 * fa) =~= Seq::<i16>::empty());
                    assert((a.out + p).skip(2 * (fa + k)) =~= p.skip(2 * k));
                }
            }
        },
    }
}

proof fn lemma_seek_run(clock: u32, h0: Seq<ChipEvent>, ops: Seq<ChipOp>, rate: int, seek: u64)
    requires
        rate >= 0,
    ensures
        seek_keeps(play(clock, play_start(h0, 0), ops, rate), play(clock, play_start(h0, seek), ops, rate), seek),
    decreases ops.len(),
{
    if ops.len() == 0 {
        assert(Seq::<i16>::empty().skip(0) == Seq::<i16>::empty());
    } else {
        lemma_seek_run(clock, h0, ops.drop_last(), rate, seek);
        lemma_seek_step(
            clock,
            play(clock, play_start(h0, 0), ops.drop_last(), rate),
            play(clock, play_start(h0, seek), ops.drop_last(), rate),
            ops.last(),
            rate,
            seek,
        );
    }
}

/// Seeking only drops leading frames: rendering with the seek target `seek`
/// drives the chip exactly as rendering from the start does, reaches the
/// same peak, and yields the same PCM without its first `2 * min(seek, F)`
/// samples, `F` being the frames rendered from the start.
pub proof fn lemma_seek_drops_leading(clock: u32, h0: Seq<ChipEvent>, ops: Seq<ChipOp>, rate: u32, seek: u64)
    ensures
        ({
            let a = play(clock, play_start(h0, 0), ops, rate as int);
            let z = play(clock, play_start(h0, seek), ops, rate as int);
            &&& z.history == a.history
            &&& z.peak == a.peak
            &&& z.out == a.out.skip(2 * skipped(seek as int, (a.out.len() / 2) as int))
        }),
{
    lemma_seek_run(clock, h0, ops, rate as int, seek);
}

/// `o` with `t` added to the value it holds, if any.
pub open spec fn opt_add(o: Option<int>, t: int) -> Option<int> {
    match o {
        Some(x) => Some(x + t),
        None => None,
    }
}

/// Starting the loop walk with more samples counted only adds them to its
/// result; a walk that meets `lp` meets it at or after where it started.
proof fn lemma_scan_shift(b: Seq<u8>, eof: int, lp: int, pos: int, t1: int, t: int)
    ensures
        loop_scan(b, eof, lp, pos, t1 + t) == opt_add(loop_scan(b, eof, lp, pos, t1), t),
        loop_scan(b, eof, lp, pos, t1) is Some ==> pos <= lp,
    decreases remaining(eof, pos),
{
    if pos < eof && pos != lp {
        let c = b[pos];
        if c == 0x61 {
            if pos + 3 <= eof {
                let n = crate::stream::spec_u16le(b, pos + 1);
                lemma_scan_shift(b, eof, lp, pos + 3, t1 + n, t);
                assert(t1 + t + n == t1 + n + t);
            }
        } else if c == 0x62 {
            lemma_scan_shift(b, eof, lp, pos + 1, t1 + 735, t);
            assert(t1 + t + 735 == t1 + 735 + t);
        } else if c == 0x63 {
            lemma_scan_shift(b, eof, lp, pos + 1, t1 + 882, t);
            assert(t1 + t + 882 == t1 + 882 + t);
        } else if 0x70 <= c && c <= 0x7f {
            let n = (c & 0x0f) as int + 1;
            lemma_scan_shift(b, eof, lp, pos + 1, t1 + n, t);
            assert(t1 + t + n == t1 + n + t);
        } else if 0x80 <= c && c <= 0x8f {
            let n = (c & 0x0f) as int;
            lemma_scan_shift(b, eof, lp, pos + 1, t1 + n, t);
            assert(t1 + t + n == t1 + n + t);
        } else if c != 0x66 {
            match crate::stream::spec_command_size(b, pos, eof) {
                Some(l) => {
                    lemma_scan_shift(b, eof, lp, pos + l, t1, t);
                },
                None => {},
            }
        }
    }
}

/// A walk from `pos` that meets `p` meets any later `q` as the walk from
/// `p` does, with the samples counted up to `p` carried over.
proof fn lemma_scan_through(b: Seq<u8>, eof: int, p: int, q: int, pos: int, t: int)
    requires
        p <= q,
        loop_scan(b, eof, p, pos, t) is Some,
    ensures
        loop_scan(b, eof, q, pos, t) == loop_scan(b, eof, q, p, loop_scan(b, eof, p, pos, t)->0),
    decreases remaining(eof, pos),
{
    if pos != p {
        lemma_scan_shift(b, eof, p, pos, t, 0);
        let c = b[pos];
        if c == 0x61 {
            lemma_scan_through(b, eof, p, q, pos + 3, t + crate::stream::spec_u16le(b, pos + 1));
        } else if c == 0x62 {
            lemma_scan_through(b, eof, p, q, pos + 1, t + 735);
        } else if c == 0x63 {
            lemma_scan_through(b, eof, p, q, pos + 1, t + 882);
        } else if 0x70 <= c && c <= 0x7f {
            lemma_scan_through(b, eof, p, q, pos + 1, t + (c & 0x0f) as int + 1);
        } else if 0x80 <= c && c <= 0x8f {
            lemma_scan_through(b, eof, p, q, pos + 1, t + (c & 0x0f) as int);
        } else if c != 0x66 {
            match crate::stream::spec_command_size(b, pos, eof) {
                Some(l) => {
                    lemma_scan_through(b, eof, p, q, pos + l, t);
                },
                None => {},
            }
        }
    }
}

/// Loop walks add up: when the walk from `d` meets `p` after `t1` samples
/// and the walk from `p` meets a later `q` after `t2`, the walk from `d`
/// meets `q` after `t1 + t2`.
pub proof fn lemma_loop_scan_additive(b: Seq<u8>, eof: int, d: int, p: int, q: int)
    requires
        p <= q,
    ensures
        loop_scan(b, eof, p, d, 0) matches Some(t1) ==> (loop_scan(b, eof, q, p, 0) matches Some(t2)
            ==> loop_scan(b, eof, q, d, 0) == Some(t1 + t2)),
{
    if loop_scan(b, eof, p, d, 0) is Some {
        let t1 = loop_scan(b, eof, p, d, 0)->0;
        lemma_scan_through(b, eof, p, q, d, 0);
        lemma_scan_shift(b, eof, q, p, 0, t1);
    }
}

/// The loop walk only ever adds samples: what it meets, it meets with at
/// least the samples it started with.
proof fn lemma_scan_grows(b: Seq<u8>, eof: int, lp: int, pos: int, t: int)
    ensures
        loop_scan(b, eof, lp, pos, t) matches Some(x) ==> x >= t,
    decreases remaining(eof, pos),
{
    if pos < eof && pos != lp {
        let c = b[pos];
        if c == 0x61 {
            if pos + 3 <= eof {
                lemma_scan_grows(b, eof, lp, pos + 3, t + crate::stream::spec_u16le(b, pos + 1));
            }
        } else if c == 0x62 {
            lemma_scan_grows(b, eof, lp, pos + 1, t + 735);
        } else if c == 0x63 {
            lemma_scan_grows(b, eof, lp, pos + 1, t + 882);
        } else if 0x70 <= c && c <= 0x7f {
            lemma_scan_grows(b, eof, lp, pos + 1, t + (c & 0x0f) as int + 1);
        } else if 0x80 <= c && c <= 0x8f {
            lemma_scan_grows(b, eof, lp, pos + 1, t + (c & 0x0f) as int);
        } else if c != 0x66 {
            match crate::stream::spec_command_size(b, pos, eof) {
                Some(l) => {
                    lemma_scan_grows(b, eof, lp, pos + l, t);
                },
                None => {},
            }
        }
    }
}

/// Loop time grows along the stream: when the walk from `d` meets both `p`
/// and a later `q`, it meets `q` with at least as many samples waited as `p`.
pub proof fn lemma_loop_scan_monotone(b: Seq<u8>, eof: int, d: int, p: int, q: int)
    requires
        p <= q,
    ensures
        loop_scan(b, eof, p, d, 0) matches Some(t1) ==> (loop_scan(b, eof, q, d, 0) matches Some(t3)
            ==> t1 <= t3),
{
    if loop_scan(b, eof, p, d, 0) is Some {
        let t1 = loop_scan(b, eof, p, d, 0)->0;
        lemma_scan_through(b, eof, p, q, d, 0);
        lemma_scan_grows(b, eof, q, p, t1);
    }
}

/// Helper for `lemma_loop_at_end`.
proof fn lemma_walk_to_end(b: Seq<u8>, eof: int, part: RenderPart, s: PlanState)
    ensures
        plan_run(b, eof, part, s) matches Ok(f) ==> f.pos >= s.pos,
        plan_run(b, eof, part, s) matches Ok(f) ==> (f.pos < eof ==> loop_scan(b, eof, f.pos, s.pos, s.samples) == Some(f.samples)),
    decreases remaining(eof, s.pos),
{
    if s.pos < eof {
        match plan_step(b, eof, part, s) {
            Ok((n, end)) => {
                if !end {
                    lemma_walk_to_end(b, eof, part, n);
                    match plan_run(b, eof, part, n) {
                        Ok(f) => {
                            if f.pos < eof {
                                assert(loop_scan(b, eof, f.pos, s.pos, s.samples) == loop_scan(b, eof, f.pos, n.pos, n.samples));
                            }
                        },
                        Err(_) => {},
                    }
                }
            },
            Err(_) => {},
        }
    }
}

/// When a part's pass ends at an end command (`0x66`) and the loop point is
/// that command, the loop walk counts exactly the part's whole timeline: the
/// loop starts where it ends.
pub proof fn lemma_loop_at_end(b: Seq<u8>, eof: int, data_off: int, part: RenderPart)
    ensures
        plan_run(b, eof, part, initial_state(data_off)) matches Ok(f)
            ==> (f.pos < eof ==> loop_scan(b, eof, f.pos, data_off, 0) == Some(f.samples)),
{
    lemma_walk_to_end(b, eof, part, initial_state(data_off));
}

/// The register writes a chip was asked to make, in order, whatever else
/// it was asked in between.
pub open spec fn writes_made(h: Seq<ChipEvent>) -> Seq<(u32, u8)>
    decreases h.len(),
{
    if h.len() == 0 {
        seq![]
    } else {
        match h.last() {
            ChipEvent::Write { offset, data } => writes_made(h.drop_last()).push((offset, data)),
            _ => writes_made(h.drop_last()),
        }
    }
}

/// The register writes among a part's chip operations, in order.
pub open spec fn op_writes(ops: Seq<ChipOp>) -> Seq<(u32, u8)>
    decreases ops.len(),
{
    if ops.len() == 0 {
        seq![]
    } else {
        match ops.last() {
            ChipOp::Write { offset, data } => op_writes(ops.drop_last()).push((offset, data)),
            ChipOp::Wait { .. } => op_writes(ops.drop_last()),
        }
    }
}

/// Every register write a part takes reaches its chip, whatever the value
/// (zero included), in the order of the plan, and the chip is asked for no
/// other write: the writes the chip received while rendering `ops` are
/// exactly the writes among `ops`.
pub proof fn lemma_every_write_reaches_chip(clock: u32, start: PlayState, ops: Seq<ChipOp>, rate: int)
    ensures
        writes_made(play(clock, start, ops, rate).history) == writes_made(start.history) + op_writes(ops),
    decreases ops.len(),
{
    if ops.len() > 0 {
        lemma_every_write_reaches_chip(clock, start, ops.drop_last(), rate);
        let prev = play(clock, start, ops.drop_last(), rate);
        match ops.last() {
            ChipOp::Write { offset, data } => {
                assert(prev.history.push(ChipEvent::Write { offset, data }).drop_last() == prev.history);
                assert(writes_made(start.history) + op_writes(ops.drop_last()).push((offset, data))
                    == (writes_made(start.history) + op_writes(ops.drop_last())).push((offset, data)));
            },
            ChipOp::Wait { samples } => {
                let f = crate::timing::timing_step(prev.rem, samples as int, rate).0;
                if f != 0 {
                    let g = f * 2 / 2;
                    assert(prev.history.push(ChipEvent::Generate { frames: g as usize }).drop_last() == prev.history);
                }
            },
        }
    }
}

/// Rendering runs the operations in order: rendering `a` followed by `b`
/// is rendering `b` from where rendering `a` left off.
pub proof fn lemma_play_in_order(clock: u32, start: PlayState, a: Seq<ChipOp>, b: Seq<ChipOp>, rate: int)
    ensures
        play(clock, start, a + b, rate) == play(clock, play(clock, start, a, rate), b, rate),
    decreases b.len(),
{
    if b.len() == 0 {
        assert(a + b == a);
    } else {
        assert((a + b).drop_last() == a + b.drop_last());
        assert((a + b).last() == b.last());
        lemma_play_in_order(clock, start, a, b.drop_last(), rate);
    }
}

/// A single register write asks the chip for exactly that write and
/// changes nothing else; a single wait asks for no write, and asks for
/// frames only when it completes some.
pub proof fn lemma_single_ops(clock: u32, st: PlayState, offset: u32, data: u8, samples: u64, rate: int)
    ensures
        play(clock, st, seq![ChipOp::Write { offset, data }], rate)
            == (PlayState { history: st.history.push(ChipEvent::Write { offset, data }), ..st }),
        writes_made(play(clock, st, seq![ChipOp::Wait { samples }], rate).history) == writes_made(st.history),
        crate::timing::timing_step(st.rem, samples as int, rate).0 == 0
            ==> play(clock, st, seq![ChipOp::Wait { samples }], rate).history == st.history,
        crate::timing::timing_step(st.rem, samples as int, rate).0 > 0
            ==> play(clock, st, seq![ChipOp::Wait { samples }], rate).history.len() == st.history.len() + 1,
{
    let w = seq![ChipOp::Write { offset, data }];
    assert(w.drop_last() == Seq::<ChipOp>::empty());
    assert(play(clock, st, w.drop_last(), rate) == st);
    assert(w.last() == ChipOp::Write { offset, data });
    let v = seq![ChipOp::Wait { samples }];
    assert(v.drop_last() == Seq::<ChipOp>::empty());
    assert(play(clock, st, v.drop_last(), rate) == st);
    assert(v.last() == ChipOp::Wait { samples });
    lemma_every_write_reaches_chip(clock, st, v, rate);
    assert(op_writes(v) == op_writes(v.drop_last()));
    assert(writes_made(st.history) + Seq::<(u32, u8)>::empty() == writes_made(st.history));
}

} // verus!
