//! Locating the loop point of a VGM stream on its timeline.

use vstd::prelude::*;
use crate::plan::remaining;
use crate::stream::{spec_command_size, spec_u16le, command_size, u16le, stream_len_ok};

verus! {

/// Walks the stream `b[.. eof]` from `pos`, where `t` samples have been
/// waited, counting waits until the command at `loop_pos`: the samples waited
/// before it, or `None` when the walk reaches the end, an end command
/// (`0x66`), a truncated wait or an unknown command first.
pub open spec fn loop_scan(b: Seq<u8>, eof: int, loop_pos: int, pos: int, t: int) -> Option<int>
    decreases remaining(eof, pos),
{
    if pos >= eof {
        None
    } else if pos == loop_pos {
        Some(t)
    } else {
        let c = b[pos];
        if c == 0x61 {
            if pos + 3 > eof {
                None
            } else {
                loop_scan(b, eof, loop_pos, pos + 3, t + spec_u16le(b, pos + 1))
            }
        } else if c == 0x62 {
            loop_scan(b, eof, loop_pos, pos + 1, t + 735)
        } else if c == 0x63 {
            loop_scan(b, eof, loop_pos, pos + 1, t + 882)
        } else if 0x70 <= c && c <= 0x7f {
            loop_scan(b, eof, loop_pos, pos + 1, t + (c & 0x0f) as int + 1)
        } else if 0x80 <= c && c <= 0x8f {
            loop_scan(b, eof, loop_pos, pos + 1, t + (c & 0x0f) as int)
        } else if c == 0x66 {
            None
        } else {
            match spec_command_size(b, pos, eof) {
                None => None,
                Some(l) => loop_scan(b, eof, loop_pos, pos + l, t),
            }
        }
    }
}

/// The number of VGM samples waited between `data_off` and the command at
/// `loop_pos` (see `loop_scan`).
pub fn find_loop_samples(bytes: &[u8], data_off: usize, eof: usize, loop_pos: usize) -> (r: Option<u64>)
    requires
        eof <= bytes@.len(),
        stream_len_ok(eof as int),
    ensures
        r matches Some(t) ==> loop_scan(bytes@, eof as int, loop_pos as int, data_off as int, 0) == Some(t as int),
        r is None ==> loop_scan(bytes@, eof as int, loop_pos as int, data_off as int, 0) is None,
{
    let ghost b = bytes@;
    let mut pos = data_off;
    let mut t: u64 = 0;
    while pos < eof
        invariant
            b == bytes@,
            eof <= bytes@.len(),
            stream_len_ok(eof as int),
            data_off <= pos,
            pos <= eof || pos == data_off,
            t <= 21845 * (pos - data_off),
            loop_scan(b, eof as int, loop_pos as int, pos as int, t as int)
                == loop_scan(b, eof as int, loop_pos as int, data_off as int, 0),
        decreases eof - pos,
    {
        if pos == loop_pos {
            return Some(t);
        }
        let c = bytes[pos];
        match c {
            0x61 => {
                if eof - pos < 3 {
                    return None;
                }
                t = t + u16le(bytes, pos + 1);
                pos = pos + 3;
            },
            0x62 => {
                t = t + 735;
                pos = pos + 1;
            },
            0x63 => {
                t = t + 882;
                pos = pos + 1;
            },
            0x70..=0x7f => {
                assert((c & 0x0f) <= 15) by (bit_vector);
                t = t + (c & 0x0f) as u64 + 1;
                pos = pos + 1;
            },
            0x80..=0x8f => {
                assert((c & 0x0f) <= 15) by (bit_vector);
                t = t + (c & 0x0f) as u64;
                pos = pos + 1;
            },
            0x66 => {
                return None;
            },
            _ => {
                match command_size(bytes, pos, eof) {
                    Some(l) => {
                        pos = pos + l;
                    },
                    None => {
                        return None;
                    },
                }
            },
        }
    }
    None
}

/// A walk never meets a loop position at or after the end of the stream.
pub proof fn lemma_loop_past_end(b: Seq<u8>, eof: int, loop_pos: int, pos: int, t: int)
    requires
        loop_pos >= eof,
    ensures
        loop_scan(b, eof, loop_pos, pos, t) is None,
    decreases remaining(eof, pos),
{
    if pos < eof {
        let c = b[pos];
        if c == 0x61 {
            if pos + 3 <= eof {
                lemma_loop_past_end(b, eof, loop_pos, pos + 3, t + spec_u16le(b, pos + 1));
            }
        } else if c == 0x62 {
            lemma_loop_past_end(b, eof, loop_pos, pos + 1, t + 735);
        } else if c == 0x63 {
            lemma_loop_past_end(b, eof, loop_pos, pos + 1, t + 882);
        } else if 0x70 <= c && c <= 0x7f {
            lemma_loop_past_end(b, eof, loop_pos, pos + 1, t + (c & 0x0f) as int + 1);
        } else if 0x80 <= c && c <= 0x8f {
            lemma_loop_past_end(b, eof, loop_pos, pos + 1, t + (c & 0x0f) as int);
        } else if c != 0x66 {
            match spec_command_size(b, pos, eof) {
                None => {},
                Some(l) => {
                    lemma_loop_past_end(b, eof, loop_pos, pos + l, t);
                },
            }
        }
    }
}

/// The samples waited before the header's loop point, when the file loops
/// and the walk from `data_off` meets it (see `loop_scan`).
pub fn loop_start_samples(bytes: &[u8], data_off: usize, eof: usize, loop_offset: Option<u64>) -> (r: Option<u64>)
    requires
        eof <= bytes@.len(),
        stream_len_ok(eof as int),
    ensures
        match loop_offset {
            None => r is None,
            Some(lp) => match loop_scan(bytes@, eof as int, lp as int, data_off as int, 0) {
                Some(t) => r == Some(t as u64) && 0 <= t <= u64::MAX,
                None => r is None,
            },
        },
{
    match loop_offset {
        None => None,
        Some(lp) => {
            if lp >= eof as u64 {
                proof {
                    lemma_loop_past_end(bytes@, eof as int, lp as int, data_off as int, 0);
                }
                None
            } else {
                find_loop_samples(bytes, data_off, eof, lp as usize)
            }
        },
    }
}

} // verus!
