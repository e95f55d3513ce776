//! The VGM file header: where the commands start and end, the chip clock and
//! the loop point.

use vstd::prelude::*;
use crate::stream::{spec_u32le, u32le};

verus! {

/// The YM2612 clock assumed when the header gives none.
pub const FALLBACK_YM_CLOCK: u32 = 7_670_454;

/// What the header says.
#[derive(Clone, Copy, PartialEq, Eq, Structural, Debug)]
pub struct VgmHeader {
    /// The format version (BCD, e.g. `0x0000_0171`).
    pub version: u32,
    /// Where the command stream starts (see `data_start` for whether it can).
    pub data_offset: u64,
    /// Where the command stream ends (never past the end of the file).
    pub eof: usize,
    /// The YM2612/YM3438 clock in Hz.
    pub clock: u32,
    /// The absolute position of the loop point, if the file loops.
    pub loop_offset: Option<u64>,
    /// The loop length in samples, as the header states it.
    pub loop_samples: u32,
}

/// Why a file cannot be rendered before any command is read.
#[derive(Clone, Copy, PartialEq, Eq, Structural, Debug)]
pub enum HeaderError {
    /// Shorter than a header, or without the `"Vgm "` signature.
    NotVgm,
    /// The command stream would start at or after its end.
    InvalidDataOffset,
}

/// `b` is long enough for a header and starts with `"Vgm "`.
pub open spec fn is_vgm(b: Seq<u8>) -> bool {
    b.len() >= 0x40 && b[0] == 0x56 && b[1] == 0x67 && b[2] == 0x6d && b[3] == 0x20
}

/// Where the commands start: when the version field at `0x08` is at least
/// `0x0001_0050` and the relative offset stored at `0x34` is nonzero,
/// `0x34` plus that offset; otherwise `0x40`.
pub open spec fn spec_data_offset(b: Seq<u8>) -> int {
    if spec_u32le(b, 0x08) >= 0x0001_0050 {
        let r = spec_u32le(b, 0x34);
        if r == 0 { 0x40 } else { 0x34 + r }
    } else {
        0x40
    }
}

/// Where the commands end: `0x04` plus the relative offset stored there,
/// capped at the file's length; the file's length when that offset is 0.
pub open spec fn spec_eof(b: Seq<u8>) -> int {
    let rel = spec_u32le(b, 0x04);
    if rel == 0 {
        b.len() as int
    } else if 0x04 + rel <= b.len() {
        0x04 + rel
    } else {
        b.len() as int
    }
}

/// The clock field without its two flag bits, or the fallback clock when
/// that is 0.
pub open spec fn spec_clock(b: Seq<u8>) -> u32 {
    let raw = spec_u32le(b, 0x2c) as u32;
    if raw & 0x3fff_ffff != 0 { raw & 0x3fff_ffff } else { FALLBACK_YM_CLOCK }
}

/// The absolute loop position: `0x1c` plus the relative offset stored there,
/// when that is nonzero.
pub open spec fn spec_loop_offset(b: Seq<u8>) -> Option<u64> {
    let rel = spec_u32le(b, 0x1c);
    if rel == 0 { None } else { Some((0x1c + rel) as u64) }
}

/// The clock is the 32-bit field at `0x2c` less its top two flag bits
/// (dual-chip and YM3438 selection), i.e. its value modulo 2^30, unless that
/// is 0; then the usual YM2612 clock 7 670 454 Hz. Either way it is below
/// 2^30 and nonzero.
pub proof fn lemma_header_clock(b: Seq<u8>)
    requires
        b.len() >= 0x40,
    ensures
        ({
            let m = (b[0x2c] + b[0x2d] * 0x100 + b[0x2e] * 0x1_0000 + b[0x2f] * 0x100_0000) % 0x4000_0000;
            &&& m != 0 ==> spec_clock(b) == m
            &&& m == 0 ==> spec_clock(b) == 7_670_454
            &&& 0 < spec_clock(b) < 0x4000_0000
        }),
{
    let raw = spec_u32le(b, 0x2c);
    assert(0 <= raw < 0x1_0000_0000);
    let r = raw as u32;
    assert(r == raw);
    assert(r & 0x3fff_ffff == r % 0x4000_0000) by (bit_vector);
}

/// Reads the header of the VGM file `bytes`: `NotVgm` exactly when the file
/// is not a VGM file, otherwise every field as the `spec_*` functions of
/// this module say.
pub fn parse_header(bytes: &[u8]) -> (r: Result<VgmHeader, HeaderError>)
    ensures
        !is_vgm(bytes@) ==> r == Err::<VgmHeader, HeaderError>(HeaderError::NotVgm),
        is_vgm(bytes@) ==> (r matches Ok(h) && {
            &&& h.version as int == spec_u32le(bytes@, 0x08)
            &&& h.data_offset as int == spec_data_offset(bytes@)
            &&& h.eof as int == spec_eof(bytes@)
            &&& h.clock == spec_clock(bytes@)
            &&& h.loop_offset == spec_loop_offset(bytes@)
            &&& h.loop_samples as int == spec_u32le(bytes@, 0x20)
        }),
{
    if bytes.len() < 0x40 || bytes[0] != 0x56 || bytes[1] != 0x67 || bytes[2] != 0x6d || bytes[3] != 0x20 {
        return Err(HeaderError::NotVgm);
    }
    let version = u32le(bytes, 0x08);
    let data_off: u64 = if version >= 0x0001_0050 {
        let r = u32le(bytes, 0x34);
        if r == 0 { 0x40 } else { 0x34 + r as u64 }
    } else {
        0x40
    };
    let eof_rel = u32le(bytes, 0x04);
    let eof: usize = if eof_rel == 0 {
        bytes.len()
    } else if (eof_rel as u64) + 0x04 <= bytes.len() as u64 {
        eof_rel as usize + 0x04
    } else {
        bytes.len()
    };
    let clock_raw = u32le(bytes, 0x2c);
    let clock = if clock_raw & 0x3fff_ffff != 0 { clock_raw & 0x3fff_ffff } else { FALLBACK_YM_CLOCK };
    let loop_rel = u32le(bytes, 0x1c);
    let loop_offset = if loop_rel == 0 { None } else { Some(0x1c + loop_rel as u64) };
    let loop_samples = u32le(bytes, 0x20);
    Ok(VgmHeader { version, data_offset: data_off, eof, clock, loop_offset, loop_samples })
}

/// Where the command stream starts: `InvalidDataOffset` exactly when that is
/// at or after its end.
pub fn data_start(h: &VgmHeader) -> (r: Result<usize, HeaderError>)
    ensures
        h.data_offset >= h.eof ==> r == Err::<usize, HeaderError>(HeaderError::InvalidDataOffset),
        h.data_offset < h.eof ==> r == Ok::<usize, HeaderError>(h.data_offset as usize),
{
    if h.data_offset >= h.eof as u64 {
        Err(HeaderError::InvalidDataOffset)
    } else {
        Ok(h.data_offset as usize)
    }
}

} // verus!
