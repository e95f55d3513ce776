//! Byte-level reading of a VGM command stream: little-endian fields and
//! the size of each command.

use vstd::prelude::*;

verus! {

/// The stream lengths the renderer handles: every position up to `eof + 1`
/// fits a `usize`, and 21845 samples per stream byte (the most any command
/// waits per byte it takes) fit the `u64` sample counters.
pub open spec fn stream_len_ok(eof: int) -> bool {
    eof < usize::MAX && eof * 21845 <= u64::MAX
}

/// Whether the renderer handles a stream ending at `eof`.
pub fn stream_len_supported(eof: usize) -> (r: bool)
    ensures
        r == stream_len_ok(eof as int),
{
    let limit: u64 = 0xffff_ffff_ffff_ffff / 21845;
    let e = eof as u64;
    assert(e * 21845 <= u64::MAX <==> e <= limit) by (nonlinear_arith)
        requires
            limit == 0xffff_ffff_ffff_ffffu64 / 21845,
            e >= 0,
    ;
    eof < usize::MAX && e <= limit
}

/// The little-endian `u16` stored at `b[o]`, `b[o + 1]`.
pub open spec fn spec_u16le(b: Seq<u8>, o: int) -> int {
    b[o] as int + 256 * (b[o + 1] as int)
}

/// The little-endian `u32` stored at `b[o] .. b[o + 4]`.
pub open spec fn spec_u32le(b: Seq<u8>, o: int) -> int {
    b[o] as int + 256 * (b[o + 1] as int) + 65536 * (b[o + 2] as int) + 16777216 * (b[o + 3] as int)
}

/// Reads the little-endian `u32` at offset `o`.
pub fn u32le(b: &[u8], o: usize) -> (r: u32)
    requires
        o + 4 <= b@.len(),
    ensures
        r as int == spec_u32le(b@, o as int),
{
    let b0 = b[o] as u32;
    let b1 = b[o + 1] as u32;
    let b2 = b[o + 2] as u32;
    let b3 = b[o + 3] as u32;
    b0 + 256 * b1 + 65536 * b2 + 16777216 * b3
}

/// Reads the little-endian `u16` at offset `o`, widened to `u64`.
pub fn u16le(b: &[u8], o: usize) -> (r: u64)
    requires
        o + 2 <= b@.len(),
    ensures
        r as int == spec_u16le(b@, o as int),
        r <= 0xffff,
{
    (b[o] as u64) + 256 * (b[o + 1] as u64)
}

/// The size of every command whose size does not depend on its operands
/// (all but the data block `0x67`), or `None` for a byte that starts no
/// known command.
pub open spec fn fixed_command_len(c: u8) -> Option<int> {
    if 0x30 <= c <= 0x3f { Some(2) }
    else if 0x40 <= c <= 0x4e { Some(3) }
    else if 0x4f <= c <= 0x50 { Some(2) }
    else if 0x51 <= c <= 0x5f { Some(3) }
    else if c == 0x60 { Some(1) }
    else if c == 0x61 { Some(3) }
    else if 0x62 <= c <= 0x66 { Some(1) }
    else if c == 0x68 { Some(12) }
    else if 0x69 <= c <= 0x6a { Some(1) }
    else if 0x70 <= c <= 0x8f { Some(1) }
    else if 0x90 <= c <= 0x91 { Some(5) }
    else if c == 0x92 { Some(6) }
    else if c == 0x93 { Some(11) }
    else if c == 0x94 { Some(2) }
    else if c == 0x95 { Some(5) }
    else if 0xa0 <= c <= 0xbf { Some(3) }
    else if 0xc0 <= c <= 0xdf { Some(4) }
    else if 0xe0 <= c { Some(5) }
    else { None }
}

/// The size of the command at `pos` in the stream `b[.. eof]`: `None` when
/// `pos` is at or past the end, when the byte starts no known command, when
/// a data block lacks its `0x66` marker or its 7-byte header, or when the
/// command would run past `eof`.
pub open spec fn spec_command_size(b: Seq<u8>, pos: int, eof: int) -> Option<int> {
    if pos >= eof {
        None
    } else {
        let c = b[pos];
        let len: Option<int> = if c == 0x67 {
            if pos + 7 > eof || b[pos + 1] != 0x66 {
                None
            } else {
                Some(7 + spec_u32le(b, pos + 3))
            }
        } else {
            fixed_command_len(c)
        };
        match len {
            Some(l) => if pos + l <= eof { Some(l) } else { None },
            None => None,
        }
    }
}

/// Every command occupies at least one byte.
pub proof fn lemma_command_size_positive(b: Seq<u8>, pos: int, eof: int)
    ensures
        spec_command_size(b, pos, eof) matches Some(l) ==> 1 <= l && pos + l <= eof,
{
}

/// The size of the command at `pos` (see `spec_command_size`).
pub fn command_size(bytes: &[u8], pos: usize, eof: usize) -> (r: Option<usize>)
    requires
        eof <= bytes@.len(),
    ensures
        r matches Some(l) ==> spec_command_size(bytes@, pos as int, eof as int) == Some(l as int),
        r is None ==> spec_command_size(bytes@, pos as int, eof as int) is None,
{
    if pos >= eof {
        return None;
    }
    let c = bytes[pos];
    let len: usize = match c {
        0x30..=0x3f => 2,
        0x40..=0x4e => 3,
        0x4f..=0x50 => 2,
        0x51..=0x5f => 3,
        0x60 => 1,
        0x61 => 3,
        0x62..=0x66 => 1,
        0x67 => {
            if eof - pos < 7 || bytes[pos + 1] != 0x66 {
                return None;
            }
            let n = u32le(bytes, pos + 3) as usize;
            match 7usize.checked_add(n) {
                Some(l) => l,
                None => return None,
            }
        },
        0x68 => 12,
        0x69..=0x6a => 1,
        0x70..=0x8f => 1,
        0x90..=0x91 => 5,
        0x92 => 6,
        0x93 => 11,
        0x94 => 2,
        0x95 => 5,
        0xa0..=0xbf => 3,
        0xc0..=0xdf => 4,
        0xe0..=0xff => 5,
        _ => return None,
    };
    if len <= eof - pos {
        Some(len)
    } else {
        None
    }
}

} // verus!
