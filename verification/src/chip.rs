//! The YM3438 emulation of ymfm (through `ymfm_sys`), as the renderer sees it.

use vstd::prelude::*;

verus! {

/// A YM3438 emulated by ymfm, created by `create_ym3438` and only through it.
///
/// The handle is a `cxx::UniquePtr<ymfm_sys::ffi::Chip>`. Verus cannot
/// declare that type (its parameter is bounded by cxx's `UniquePtrTarget`, a
/// trait Verus does not know), so the handle is kept in this struct, whose
/// inside Verus does not see. The chip is described by two names instead:
/// the clock it was created with and everything it has been asked to do.
#[verifier::external_body]
pub struct Ym3438 {
    handle: cxx::UniquePtr<ymfm_sys::ffi::Chip>,
}

/// One thing the chip was asked to do after its creation.
#[derive(Clone, Copy, PartialEq, Eq, Structural, Debug)]
pub enum ChipEvent {
    /// `Chip::reset`.
    Reset,
    /// `Chip::write(offset, data)`.
    Write { offset: u32, data: u8 },
    /// `Chip::generate` of `frames` stereo frames.
    Generate { frames: usize },
}

/// The input clock the chip was created with.
pub uninterp spec fn chip_clock(chip: Ym3438) -> u32;

/// Everything the chip has been asked to do since its creation, in order.
pub uninterp spec fn chip_history(chip: Ym3438) -> Seq<ChipEvent>;

/// The samples (stereo, interleaved) that ymfm's YM3438 produces when asked
/// to generate `frames` frames, after it was created with input clock
/// `clock` and then did what `history` says. The emulation is deterministic:
/// the chip's state is a function of its clock and of what it was asked to
/// do (the default interface callbacks of `ymfm_sys` return fixed values).
pub uninterp spec fn ym3438_output(clock: u32, history: Seq<ChipEvent>, frames: usize) -> Seq<i32>;

/// `ymfm_sys::ffi::create_chip(ChipType::Ym3438, clock)`: a fresh chip that
/// has been asked nothing. The C++ side builds it with `std::make_unique`, so
/// the handle is never null (which `pin_mut` in the other items relies on).
/// Its constructor divides `clock` by `sample_rate(clock) == clock / 144`,
/// so a clock below 144 divides by zero: it is left out.
#[verifier::external_body]
pub(crate) fn create_ym3438(clock: u32) -> (chip: Ym3438)
    requires
        clock >= 144,
    ensures
        chip_clock(chip) == clock,
        chip_history(chip) == Seq::<ChipEvent>::empty(),
{
    Ym3438 { handle: ymfm_sys::ffi::create_chip(ymfm_sys::ffi::ChipType::Ym3438, clock) }
}

/// `Chip::reset`: back to the power-on state.
#[verifier::external_body]
pub(crate) fn chip_reset(chip: &mut Ym3438)
    ensures
        chip_clock(*final(chip)) == chip_clock(*old(chip)),
        chip_history(*final(chip)) == chip_history(*old(chip)).push(ChipEvent::Reset),
{
    chip.handle.pin_mut().reset()
}

/// `Chip::channels`: `T::OUTPUTS` of the ymfm chip class, which for the
/// YM3438 (`ym2612`, `fm_engine_base<opna_registers>`) is 2.
#[verifier::external_body]
pub(crate) fn chip_channels(chip: &Ym3438) -> (n: u32)
    ensures
        n == 2,
{
    chip.handle.channels()
}

/// `Chip::sample_rate`: ymfm's `clock / (prescale * OPERATORS)`; the YM3438
/// has 24 operators and a prescale fixed at 6, so `clock / 144`.
#[verifier::external_body]
pub(crate) fn chip_sample_rate(chip: &Ym3438) -> (rate: u32)
    ensures
        rate == chip_clock(*chip) / 144,
{
    chip.handle.sample_rate()
}

/// `Chip::write(offset, data)`: one write to a chip port.
#[verifier::external_body]
pub(crate) fn chip_write(chip: &mut Ym3438, offset: u32, data: u8)
    ensures
        chip_clock(*final(chip)) == chip_clock(*old(chip)),
        chip_history(*final(chip)) == chip_history(*old(chip)).push(ChipEvent::Write { offset, data }),
{
    chip.handle.pin_mut().write(offset, data)
}

/// `Chip::generate(buf)`: overwrites `buf` with `buf.len() / 2` stereo
/// frames, as `ym3438_output` names them. Each sample is the sum of six
/// channel outputs (or of five and the 9-bit DAC value), each within
/// `[-257, 256]`, times 128, divided by 6 (`ym3438::generate`,
/// `fm_channel::output_*`), so it lies within `±0x1_0000`. An odd buffer would keep its last sample, so it is left out.
#[verifier::external_body]
pub(crate) fn chip_generate(chip: &mut Ym3438, buf: &mut Vec<i32>)
    requires
        old(buf)@.len() % 2 == 0,
    ensures
        final(buf)@.len() == old(buf)@.len(),
        final(buf)@ == ym3438_output(chip_clock(*old(chip)), chip_history(*old(chip)), (old(buf)@.len() / 2) as usize),
        forall|i: int| 0 <= i < final(buf)@.len() ==> -0x1_0000 <= #[trigger] final(buf)@[i] <= 0x1_0000,
        chip_clock(*final(chip)) == chip_clock(*old(chip)),
        chip_history(*final(chip)) == chip_history(*old(chip)).push(ChipEvent::Generate { frames: (old(buf)@.len() / 2) as usize }),
{
    chip.handle.pin_mut().generate(buf.as_mut_slice())
}

} // verus!
