//! Driving the chip: one isolated render part of a VGM stream, from its
//! chip operations to 16-bit stereo PCM.

use vstd::prelude::*;
use crate::chip::{
    ChipEvent, Ym3438, chip_clock, chip_history, ym3438_output, create_ym3438, chip_reset, chip_channels,
    chip_sample_rate, chip_write, chip_generate,
};
use crate::pcm::{absorb_frames, no_min_sample, peak_of, pcm_samples};
use crate::plan::{ChipOp, RenderError, RenderPart, initial_state, plan_part, plan_run, waits_bounded, waits_of};
use crate::stream::stream_len_ok;
use crate::timing::{TimingAccumulator, VGM_RATE, lemma_remainder_below_rate, accumulate_frames, timing_step};

verus! {

/// The largest native rate any YM3438 clock (a `u32`) gives: `u32::MAX / 144`.
pub const MAX_NATIVE_RATE: u32 = 29_826_161;

/// The most commands one part can read of a stream whose length
/// `stream_len_ok` admits.
pub const MAX_PART_COMMANDS: u64 = 0x0004_0000_0000_0000;

/// The frames of a wait that are still owed to the seek and therefore dropped.
pub open spec fn skipped(skip: int, frames: int) -> int {
    if skip <= frames { skip } else { frames }
}

/// The `2 * frames` samples that the chip, created with `clock` and having
/// done what `history` says, generates for `frames` frames.
pub open spec fn generated(clock: u32, history: Seq<ChipEvent>, frames: int) -> Seq<i32> {
    Seq::new((2 * frames) as nat, |i: int| ym3438_output(clock, history, frames as usize)[i])
}

/// Where a part's rendering stands: what its chip has done, the PCM so far,
/// the peak so far, the timing remainder and the frames still owed to the
/// seek.
pub struct PlayState {
    pub history: Seq<ChipEvent>,
    pub out: Seq<i16>,
    pub peak: i32,
    pub rem: int,
    pub skip: int,
}

/// Rendering starts on a chip that has done `history`, with nothing
/// rendered and `seek` frames to drop.
pub open spec fn play_start(history: Seq<ChipEvent>, seek: u64) -> PlayState {
    PlayState { history, out: seq![], peak: 0, rem: 0, skip: seek as int }
}

/// One wait of `wait` VGM samples: the frames it completes (if any) are
/// generated by the chip (`channels` samples per frame, so
/// `frames * channels / 2` stereo frames are asked of it); the peak takes in
/// all of them; those still owed to the seek are dropped and the rest are
/// appended as PCM.
pub open spec fn wait_step(clock: u32, st: PlayState, wait: int, rate: int, channels: int) -> PlayState {
    let f = timing_step(st.rem, wait, rate).0;
    let rem = timing_step(st.rem, wait, rate).1;
    if f == 0 {
        PlayState { rem, ..st }
    } else {
        let g = f * channels / 2;
        let buf = generated(clock, st.history, g);
        let k = skipped(st.skip, f);
        PlayState {
            history: st.history.push(ChipEvent::Generate { frames: g as usize }),
            out: st.out + pcm_samples(buf.skip(k * channels)),
            peak: peak_of(st.peak, buf),
            rem,
            skip: st.skip - k,
        }
    }
}

/// One chip operation of a stereo part: a write goes to the chip, a wait
/// renders (see `wait_step`).
pub open spec fn op_step(clock: u32, st: PlayState, op: ChipOp, rate: int) -> PlayState {
    match op {
        ChipOp::Write { offset, data } => PlayState { history: st.history.push(ChipEvent::Write { offset, data }), ..st },
        ChipOp::Wait { samples } => wait_step(clock, st, samples as int, rate, 2),
    }
}

/// Rendering `ops` in order from `start` on a chip created with `clock`.
pub open spec fn play(clock: u32, start: PlayState, ops: Seq<ChipOp>, rate: int) -> PlayState
    decreases ops.len(),
{
    if ops.len() == 0 {
        start
    } else {
        op_step(clock, play(clock, start, ops.drop_last(), rate), ops.last(), rate)
    }
}

/// Renders one wait of `wait` VGM samples (see `wait_step`): when the wait
/// completes no frame the chip is not touched; otherwise the chip is asked
/// once for those frames. Returns the number of frames completed.
pub fn render_wait(
    chip: &mut Ym3438,
    out: &mut Vec<i16>,
    channels: usize,
    native_rate: u32,
    wait: u64,
    timing: &mut TimingAccumulator,
    peak: &mut i32,
    skip_frames: &mut u64,
) -> (r: u64)
    requires
        2 <= channels <= 8,
        channels % 2 == 0,
        native_rate <= MAX_NATIVE_RATE,
        wait <= 0xffff,
    ensures
        chip_clock(*final(chip)) == chip_clock(*old(chip)),
        r as int == timing_step(old(timing)@ as int, wait as int, native_rate as int).0,
        ({
            let nx = wait_step(
                chip_clock(*old(chip)),
                PlayState {
                    history: chip_history(*old(chip)),
                    out: old(out)@,
                    peak: *old(peak),
                    rem: old(timing)@ as int,
                    skip: *old(skip_frames) as int,
                },
                wait as int,
                native_rate as int,
                channels as int,
            );
            &&& chip_history(*final(chip)) == nx.history
            &&& final(out)@ == nx.out
            &&& *final(peak) == nx.peak
            &&& final(timing)@ == nx.rem
            &&& *final(skip_frames) == nx.skip
        }),
{
    let ghost rem = timing@ as int;
    let ghost f = timing_step(rem, wait as int, native_rate as int).0;
    proof {
        lemma_remainder_below_rate(*timing);
        assert(wait * native_rate <= 0xffff * 29_826_161) by (nonlinear_arith)
            requires
                wait <= 0xffff,
                native_rate <= 29_826_161,
        ;
        assert(wait * native_rate >= 0) by (nonlinear_arith)
            requires
                wait >= 0,
                native_rate >= 0,
        ;
    }
    if wait == 0 {
        assert(wait as int * native_rate as int == 0) by (nonlinear_arith)
            requires
                wait == 0,
        ;
        assert(rem % (VGM_RATE as int) == rem);
        assert(rem / (VGM_RATE as int) == 0);
        return 0;
    }
    let n = timing.frames_for_wait(wait, native_rate);
    if n == 0 {
        return 0;
    }
    assert(n * channels <= 0x0400_0000 * 8) by (nonlinear_arith)
        requires
            n < 0x0400_0000,
            channels <= 8,
    ;
    let ghost c2 = channels / 2;
    assert(n * channels == 2 * (n * c2)) by (nonlinear_arith)
        requires
            channels == 2 * c2,
    ;
    let ghost h = chip_history(*chip);
    let ghost g = n * channels / 2;
    let mut buf: Vec<i32> = vec![0; n * channels];
    chip_generate(chip, &mut buf);
    assert(buf@ =~= generated(chip_clock(*chip), h, g));
    assert(no_min_sample(buf@)) by {
        assert forall|i: int| 0 <= i < buf@.len() implies #[trigger] buf@[i] != i32::MIN by {
            assert(-0x1_0000 <= buf@[i]);
        }
    }
    absorb_frames(buf.as_slice(), channels, n, out, peak, skip_frames);
    n as u64
}

/// The native frames that the waits of `ops` complete at `rate`.
pub open spec fn frames_of(ops: Seq<ChipOp>, rate: u32) -> int {
    accumulate_frames(0, waits_of(ops), rate as int).0
}

/// The PCM samples (two per frame) a part renders: every frame of `ops` but
/// those before the seek target `seek`.
pub open spec fn rendered_len(ops: Seq<ChipOp>, rate: u32, seek: u64) -> int {
    2 * (frames_of(ops, rate) - skipped(seek as int, frames_of(ops, rate)))
}

/// Drives the chip through `ops` from a fresh timing accumulator, as `play`
/// says: every write goes to the chip in order, every wait renders in its
/// place among them, and the frames before native frame `seek_frames` are
/// dropped. Returns the stereo PCM and the largest sample magnitude seen.
pub fn play_plan(chip: &mut Ym3438, ops: &Vec<ChipOp>, native_rate: u32, seek_frames: u64) -> (r: (Vec<i16>, i32))
    requires
        native_rate <= MAX_NATIVE_RATE,
        waits_bounded(ops@),
    ensures
        chip_clock(*final(chip)) == chip_clock(*old(chip)),
        ({
            let fin = play(chip_clock(*old(chip)), play_start(chip_history(*old(chip)), seek_frames), ops@, native_rate as int);
            &&& chip_history(*final(chip)) == fin.history
            &&& r.0@ == fin.out
            &&& r.1 == fin.peak
        }),
        r.0@.len() == rendered_len(ops@, native_rate, seek_frames),
{
    let mut timing = TimingAccumulator::new();
    let mut out: Vec<i16> = Vec::new();
    let mut peak: i32 = 0;
    let mut skip = seek_frames;
    let ghost clock = chip_clock(*chip);
    let ghost start = play_start(chip_history(*chip), seek_frames);
    let mut i: usize = 0;
    while i < ops.len()
        invariant
            i <= ops@.len(),
            native_rate <= MAX_NATIVE_RATE,
            waits_bounded(ops@),
            clock == chip_clock(*old(chip)),
            start == play_start(chip_history(*old(chip)), seek_frames),
            chip_clock(*chip) == clock,
            play(clock, start, ops@.take(i as int), native_rate as int) == (PlayState {
                history: chip_history(*chip),
                out: out@,
                peak,
                rem: timing@ as int,
                skip: skip as int,
            }),
            timing@ == accumulate_frames(0, waits_of(ops@.take(i as int)), native_rate as int).1,
            skip == seek_frames - skipped(seek_frames as int, frames_of(ops@.take(i as int), native_rate)),
            out@.len() == rendered_len(ops@.take(i as int), native_rate, seek_frames),
        decreases ops.len() - i,
    {
        let ghost pre = ops@.take(i as int);
        let ghost next = ops@.take(i + 1);
        assert(next.drop_last() == pre);
        assert(next.last() == ops@[i as int]);
        match ops[i] {
            ChipOp::Write { offset, data } => {
                assert(waits_of(next) == waits_of(pre));
                chip_write(chip, offset, data);
            },
            ChipOp::Wait { samples } => {
                assert(ops@[i as int] matches ChipOp::Wait { samples } ==> samples <= 0xffff);
                assert(waits_of(next) == waits_of(pre).push(samples));
                assert(waits_of(pre).push(samples).drop_last() == waits_of(pre));
                let ghost out_len = out@.len();
                let ghost k = skipped(skip as int, timing_step(timing@ as int, samples as int, native_rate as int).0);
                render_wait(chip, &mut out, 2, native_rate, samples, &mut timing, &mut peak, &mut skip);
                assert(out@.len() == out_len + (timing_step(accumulate_frames(0, waits_of(pre), native_rate as int).1, samples as int, native_rate as int).0 - k) * 2);
            },
        }
        i = i + 1;
    }
    assert(ops@.take(ops@.len() as int) == ops@);
    (out, peak)
}

/// What one render part produced.
pub struct PartRender {
    /// Stereo PCM, left and right interleaved.
    pub pcm: Vec<i16>,
    /// VGM samples waited in all.
    pub timeline_samples: u64,
    /// The largest native sample magnitude the chip produced.
    pub peak: i32,
    /// Commands read.
    pub commands: u64,
    /// `0x52`/`0x53` register writes read.
    pub ym_writes: u64,
    /// DAC samples written.
    pub dac_writes: u64,
    /// Data blocks read.
    pub data_blocks: u64,
}

/// Renders one isolated part of the stream `bytes[data_off .. eof]` on a
/// fresh YM3438 created with `clock` and reset, dropping the frames before
/// native frame `seek_frames_target`: the interpreter's error when the
/// stream cannot be rendered; otherwise the interpreter's counts, and the
/// PCM and peak of playing the part's chip operations (`play`) on that chip.
pub fn render_part(
    bytes: &[u8],
    data_off: usize,
    eof: usize,
    clock: u32,
    rate: u32,
    seek_frames_target: u64,
    part: RenderPart,
) -> (r: Result<PartRender, RenderError>)
    requires
        eof <= bytes@.len(),
        stream_len_ok(eof as int),
        clock >= 144,
        rate <= MAX_NATIVE_RATE,
    ensures
        match plan_run(bytes@, eof as int, part, initial_state(data_off as int)) {
            Err(e) => r == Err::<PartRender, RenderError>(e),
            Ok(s) => r matches Ok(p) && {
                let fin = play(clock, play_start(seq![ChipEvent::Reset], seek_frames_target), s.ops, rate as int);
                &&& p.timeline_samples == s.samples
                &&& p.commands == s.commands
                &&& p.ym_writes == s.ym_writes
                &&& p.dac_writes == s.dac_writes
                &&& p.data_blocks == s.data_blocks
                &&& p.pcm@ == fin.out
                &&& p.peak == fin.peak
                &&& p.pcm@.len() == rendered_len(s.ops, rate, seek_frames_target)
                &&& p.commands <= MAX_PART_COMMANDS
                &&& p.ym_writes <= p.commands
                &&& p.dac_writes <= p.commands
                &&& p.data_blocks <= p.commands
            },
        },
{
    let mut chip = create_ym3438(clock);
    chip_reset(&mut chip);
    assert(chip_history(chip) == seq![ChipEvent::Reset]);
    let channels = chip_channels(&chip) as usize;
    if channels != 2 {
        return Err(RenderError::UnexpectedChannelCount { channels });
    }
    let plan = match plan_part(bytes, data_off, eof, part) {
        Ok(p) => p,
        Err(e) => {
            return Err(e);
        },
    };
    assert(plan.commands <= MAX_PART_COMMANDS) by (nonlinear_arith)
        requires
            plan.commands <= eof + 1,
            eof * 21845 <= 0xffff_ffff_ffff_ffffu64,
    ;
    let (pcm, peak) = play_plan(&mut chip, &plan.ops, rate, seek_frames_target);
    Ok(PartRender {
        pcm,
        timeline_samples: plan.timeline_samples,
        peak,
        commands: plan.commands,
        ym_writes: plan.ym_writes,
        dac_writes: plan.dac_writes,
        data_blocks: plan.data_blocks,
    })
}

/// The native rate and channel count of a YM3438 clocked at `clock`.
pub fn probe_chip(clock: u32) -> (r: (u32, u32))
    requires
        clock >= 144,
    ensures
        r.0 == clock / 144,
        r.0 <= MAX_NATIVE_RATE,
        r.1 == 2,
{
    let probe = create_ym3438(clock);
    let rate = chip_sample_rate(&probe);
    let channels = chip_channels(&probe);
    (rate, channels)
}

} // verus!
