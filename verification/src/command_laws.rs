//! What single commands of a VGM stream do to one render part, stated over
//! the bytes of the stream and the register numbers themselves.

use vstd::prelude::*;
use crate::plan::{ChipOp, PlanState, RenderError, RenderPart, plan_step, write_ops};
use crate::stream::spec_command_size;

verus! {

/// The two chip writes of the register write `reg <- val` on `port`.
pub open spec fn register_write(port: u32, reg: u8, val: u8) -> Seq<ChipOp> {
    seq![ChipOp::Write { offset: port, data: reg }, ChipOp::Write { offset: (port + 1) as u32, data: val }]
}

/// A key-on (`0x28`) selects its channel by the value's bits 0-1 (channel
/// within the port's three) and bit 2 (the upper three channels): it reaches
/// exactly the FM part `val % 4 + 3 * bit 2`, on either port, and never the
/// DAC part.
pub proof fn lemma_key_on_routing(port: u32, val: u8, ch: usize)
    requires
        port == 0 || port == 2,
    ensures
        write_ops(RenderPart::Fm(ch), port, 0x28, val) == (if ch == val % 4 + 3 * ((val / 4) % 2) {
            register_write(port, 0x28, val)
        } else {
            seq![]
        }),
        write_ops(RenderPart::Dac, port, 0x28, val) == Seq::<ChipOp>::empty(),
{
    assert((val & 0x03) == val % 4) by (bit_vector);
    assert((val & 0x04 != 0) == ((val / 4) % 2 == 1)) by (bit_vector);
}

/// Per-channel registers (`0x30..=0x9f`, `0xa0..=0xb6`) select their channel
/// by the register's low two bits (`0`, `1`, `2`; `3` is no channel) and the
/// port (port 2 holds channels 4-6): such a write reaches exactly the FM
/// part `3 * (port / 2) + reg % 4` and never the DAC part.
pub proof fn lemma_channel_register_routing(port: u32, reg: u8, val: u8, ch: usize)
    requires
        port == 0 || port == 2,
        (0x30 <= reg && reg <= 0x9f) || (0xa0 <= reg && reg <= 0xb6),
    ensures
        write_ops(RenderPart::Fm(ch), port, reg, val) == (if reg % 4 < 3 && ch == 3 * (port / 2) + reg % 4 {
            register_write(port, reg, val)
        } else {
            seq![]
        }),
        write_ops(RenderPart::Dac, port, reg, val) == Seq::<ChipOp>::empty(),
{
    assert((reg & 0x03) == reg % 4) by (bit_vector);
}

/// Registers that are not per-channel and not a key-on: the global ones
/// (`0x22`, `0x24..=0x27`, `0x2b`) reach every part, the DAC data register
/// (`0x2a`) reaches the DAC part only, and any other reaches no part.
pub proof fn lemma_other_register_routing(port: u32, reg: u8, val: u8, part: RenderPart)
    requires
        port == 0 || port == 2,
        reg < 0x30 || reg > 0xb6,
        reg != 0x28,
    ensures
        reg == 0x22 || (0x24 <= reg && reg <= 0x27) || reg == 0x2b ==> write_ops(part, port, reg, val) == register_write(port, reg, val),
        reg == 0x2a ==> write_ops(part, port, reg, val) == (if part == RenderPart::Dac { register_write(port, reg, val) } else { seq![] }),
        !(reg == 0x22 || (0x24 <= reg && reg <= 0x27) || reg == 0x2b || reg == 0x2a) ==> write_ops(part, port, reg, val) == Seq::<ChipOp>::empty(),
{
}

/// The little-endian 32-bit operand at `b[o] .. b[o + 4]`, byte by byte.
pub open spec fn operand32(b: Seq<u8>, o: int) -> int {
    b[o] + b[o + 1] * 0x100 + b[o + 2] * 0x1_0000 + b[o + 3] * 0x100_0000
}

/// How many bytes each command occupies in the stream, operands included:
/// the reserved and other-chip commands by their opcode range, the DAC
/// stream control commands `0x90..=0x95` by their own layouts (setup and
/// data 5, frequency 6, start 11, stop 2, fast start 5), whenever the whole
/// command lies before `eof`.
pub proof fn lemma_command_sizes(b: Seq<u8>, pos: int, eof: int)
    requires
        0 <= pos < eof,
    ensures
        ({
            let c = b[pos];
            let fits = |n: int| pos + n <= eof;
            &&& (0x30 <= c <= 0x3f || 0x4f <= c <= 0x50) && fits(2) ==> spec_command_size(b, pos, eof) == Some(2int)
            &&& (0x40 <= c <= 0x4e || 0x51 <= c <= 0x5f || c == 0x61 || 0xa0 <= c <= 0xbf) && fits(3)
                ==> spec_command_size(b, pos, eof) == Some(3int)
            &&& (c == 0x60 || 0x62 <= c <= 0x66 || 0x69 <= c <= 0x6a || 0x70 <= c <= 0x8f)
                ==> spec_command_size(b, pos, eof) == Some(1int)
            &&& c == 0x68 && fits(12) ==> spec_command_size(b, pos, eof) == Some(12int)
            &&& (c == 0x90 || c == 0x91 || c == 0x95 || 0xe0 <= c) && fits(5) ==> spec_command_size(b, pos, eof) == Some(5int)
            &&& c == 0x92 && fits(6) ==> spec_command_size(b, pos, eof) == Some(6int)
            &&& c == 0x93 && fits(11) ==> spec_command_size(b, pos, eof) == Some(11int)
            &&& c == 0x94 && fits(2) ==> spec_command_size(b, pos, eof) == Some(2int)
            &&& 0xc0 <= c <= 0xdf && fits(4) ==> spec_command_size(b, pos, eof) == Some(4int)
            &&& c == 0x67 && fits(7) && b[pos + 1] == 0x66 && fits(7 + operand32(b, pos + 3))
                ==> spec_command_size(b, pos, eof) == Some(7 + operand32(b, pos + 3))
        }),
{
}

/// `s` with one more command read and the next command at `next`.
pub open spec fn moved_on(s: PlanState, next: int) -> PlanState {
    PlanState { pos: next, commands: s.commands + 1, ..s }
}

/// Commands the renderer does not act on (other chips, DAC stream control,
/// reserved opcodes) are skipped whole: the part moves past exactly the
/// bytes the command occupies, issuing nothing and waiting nothing; a byte
/// that starts no known command is an error naming it and its position.
pub proof fn lemma_unhandled_commands_skipped(b: Seq<u8>, eof: int, part: RenderPart, s: PlanState)
    requires
        0 <= s.pos < eof,
        ({
            let c = b[s.pos];
            !(c == 0x50 || c == 0x52 || c == 0x53 || c == 0x61 || c == 0x62 || c == 0x63 || c == 0x66
                || c == 0x67 || (0x70 <= c && c <= 0x8f) || c == 0xe0)
        }),
    ensures
        spec_command_size(b, s.pos, eof) matches Some(l) ==> plan_step(b, eof, part, s) == Ok::<(PlanState, bool), RenderError>((moved_on(s, s.pos + l), false)),
        spec_command_size(b, s.pos, eof) is None ==> plan_step(b, eof, part, s)
            == Err::<(PlanState, bool), RenderError>(RenderError::UnsupportedCommand { cmd: b[s.pos], pos: s.pos as usize }),
        b[s.pos] == 0x92 && s.pos + 6 <= eof ==> plan_step(b, eof, part, s) == Ok::<(PlanState, bool), RenderError>((moved_on(s, s.pos + 6), false)),
        b[s.pos] == 0x93 && s.pos + 11 <= eof ==> plan_step(b, eof, part, s) == Ok::<(PlanState, bool), RenderError>((moved_on(s, s.pos + 11), false)),
        (b[s.pos] == 0x90 || b[s.pos] == 0x91 || b[s.pos] == 0x95) && s.pos + 5 <= eof
            ==> plan_step(b, eof, part, s) == Ok::<(PlanState, bool), RenderError>((moved_on(s, s.pos + 5), false)),
        b[s.pos] == 0x94 && s.pos + 2 <= eof ==> plan_step(b, eof, part, s) == Ok::<(PlanState, bool), RenderError>((moved_on(s, s.pos + 2), false)),
{
    lemma_command_sizes(b, s.pos, eof);
}

/// A YM2612 register write (`0x52` for port 0, `0x53` for port 2, then
/// register and value) hands exactly that write to the part's routing and
/// moves three bytes on; cut short by `eof`, it is an error.
pub proof fn lemma_register_write_command(b: Seq<u8>, eof: int, part: RenderPart, s: PlanState)
    requires
        0 <= s.pos < eof,
        b[s.pos] == 0x52 || b[s.pos] == 0x53,
    ensures
        s.pos + 3 <= eof ==> plan_step(b, eof, part, s) == Ok::<(PlanState, bool), RenderError>((PlanState {
            ops: s.ops + write_ops(part, if b[s.pos] == 0x52 { 0u32 } else { 2u32 }, b[s.pos + 1], b[s.pos + 2]),
            ym_writes: s.ym_writes + 1,
            ..moved_on(s, s.pos + 3)
        }, false)),
        s.pos + 3 > eof ==> plan_step(b, eof, part, s) == Err::<(PlanState, bool), RenderError>(RenderError::TruncatedYmWrite),
{
}

/// A data block of type 0 (`0x67 0x66 00` and a 32-bit length) becomes the
/// DAC bank, replacing any earlier one, and DAC reads restart at its first
/// byte; a block of another type leaves bank and read position alone.
pub proof fn lemma_data_block_command(b: Seq<u8>, eof: int, part: RenderPart, s: PlanState)
    requires
        0 <= s.pos,
        s.pos + 7 <= eof,
        b[s.pos] == 0x67,
        b[s.pos + 1] == 0x66,
        s.pos + 7 + operand32(b, s.pos + 3) <= eof,
    ensures
        ({
            let n = operand32(b, s.pos + 3);
            let ty = b[s.pos + 2];
            plan_step(b, eof, part, s) == Ok::<(PlanState, bool), RenderError>((PlanState {
                bank: if ty == 0 { Some(b.subrange(s.pos + 7, s.pos + 7 + n)) } else { s.bank },
                dac_pos: if ty == 0 { 0 } else { s.dac_pos },
                data_blocks: s.data_blocks + 1,
                ..moved_on(s, s.pos + 7 + n)
            }, false))
        }),
{
    lemma_command_sizes(b, s.pos, eof);
}

/// A DAC seek (`0xe0` and a 32-bit offset) moves the DAC read position to
/// that offset when it lies inside the bank; an offset past the bank, or a
/// seek before any bank, is an error. Nothing is issued either way.
pub proof fn lemma_dac_seek_command(b: Seq<u8>, eof: int, part: RenderPart, s: PlanState)
    requires
        0 <= s.pos,
        s.pos + 5 <= eof,
        b[s.pos] == 0xe0,
    ensures
        ({
            let o = operand32(b, s.pos + 1);
            match s.bank {
                None => plan_step(b, eof, part, s) == Err::<(PlanState, bool), RenderError>(RenderError::DacBankMissing),
                Some(bk) => if o < bk.len() {
                    plan_step(b, eof, part, s) == Ok::<(PlanState, bool), RenderError>((PlanState { dac_pos: o, ..moved_on(s, s.pos + 5) }, false))
                } else {
                    plan_step(b, eof, part, s) == Err::<(PlanState, bool), RenderError>(RenderError::DacSeekOutOfRange)
                },
            }
        }),
{
}

/// A DAC sample (`0x8n`) plays the bank byte at the read position and then
/// waits `n` samples: the DAC part selects the DAC data register (`0x2a`)
/// and writes that byte; an FM part only waits. Either way the read
/// position moves one byte on.
pub proof fn lemma_dac_sample_command(b: Seq<u8>, eof: int, part: RenderPart, s: PlanState, bk: Seq<u8>)
    requires
        0 <= s.pos < eof,
        0x80 <= b[s.pos] <= 0x8f,
        s.bank == Some(bk),
        0 <= s.dac_pos < bk.len(),
    ensures
        ({
            let n = b[s.pos] - 0x80;
            let played = if part == RenderPart::Dac {
                seq![ChipOp::Write { offset: 0, data: 0x2a }, ChipOp::Write { offset: 1, data: bk[s.dac_pos] }]
            } else {
                seq![]
            };
            plan_step(b, eof, part, s) == Ok::<(PlanState, bool), RenderError>((PlanState {
                dac_pos: s.dac_pos + 1,
                ops: s.ops + played + seq![ChipOp::Wait { samples: n as u64 }],
                samples: s.samples + n,
                dac_writes: s.dac_writes + 1,
                ..moved_on(s, s.pos + 1)
            }, false))
        }),
{
    let c = b[s.pos];
    assert((c & 0x0f) == c - 0x80) by (bit_vector)
        requires
            0x80 <= c <= 0x8f,
    ;
    let played = if part == RenderPart::Dac {
        seq![ChipOp::Write { offset: 0, data: 0x2a }, ChipOp::Write { offset: 1, data: bk[s.dac_pos] }]
    } else {
        seq![]
    };
    assert(s.ops + crate::plan::dac_ops(part, bk[s.dac_pos]) == s.ops + played);
    assert((s.ops + played).push(ChipOp::Wait { samples: (c - 0x80) as u64 }) == s.ops + played + seq![ChipOp::Wait { samples: (c - 0x80) as u64 }]);
}

/// After a DAC seek to offset `o` inside the bank, the next DAC sample
/// command plays the bank byte at `o`: the DAC part writes `bank[o]` to the
/// DAC data register and goes on reading at `o + 1`.
pub proof fn lemma_dac_seek_then_sample(b: Seq<u8>, eof: int, s: PlanState, bk: Seq<u8>)
    requires
        0 <= s.pos,
        s.pos + 6 <= eof,
        b[s.pos] == 0xe0,
        0x80 <= b[s.pos + 5] <= 0x8f,
        s.bank == Some(bk),
        operand32(b, s.pos + 1) < bk.len(),
    ensures
        ({
            let o = operand32(b, s.pos + 1);
            plan_step(b, eof, RenderPart::Dac, s) matches Ok((n, false)) && plan_step(b, eof, RenderPart::Dac, n) matches Ok((m, false)) && {
                &&& m.ops == s.ops + seq![
                    ChipOp::Write { offset: 0, data: 0x2a },
                    ChipOp::Write { offset: 1, data: bk[o] },
                    ChipOp::Wait { samples: (b[s.pos + 5] - 0x80) as u64 },
                ]
                &&& m.dac_pos == o + 1
                &&& m.pos == s.pos + 6
            }
        }),
{
    lemma_dac_seek_command(b, eof, RenderPart::Dac, s);
    let o = operand32(b, s.pos + 1);
    let n = PlanState { dac_pos: o, ..moved_on(s, s.pos + 5) };
    lemma_dac_sample_command(b, eof, RenderPart::Dac, n, bk);
    let w = seq![ChipOp::Write { offset: 0, data: 0x2a }, ChipOp::Write { offset: 1, data: bk[o] }];
    assert(s.ops + w + seq![ChipOp::Wait { samples: (b[s.pos + 5] - 0x80) as u64 }] == s.ops + seq![
        ChipOp::Write { offset: 0, data: 0x2a },
        ChipOp::Write { offset: 1, data: bk[o] },
        ChipOp::Wait { samples: (b[s.pos + 5] - 0x80) as u64 },
    ]);
}

/// Waits: `0x61` waits the 16-bit little-endian count that follows it,
/// `0x62` a 60 Hz frame (735 samples), `0x63` a 50 Hz frame (882 samples),
/// `0x7n` `n + 1` samples. Each is one wait for the chip, added to the
/// timeline, whatever the part. `0x66` ends the stream where it stands, and
/// `0x50` (the PSG, not rendered here) is skipped with its operand.
pub proof fn lemma_wait_and_end_commands(b: Seq<u8>, eof: int, part: RenderPart, s: PlanState)
    requires
        0 <= s.pos < eof,
    ensures
        ({
            let c = b[s.pos];
            let waits = |k: int, len: int| plan_step(b, eof, part, s) == Ok::<(PlanState, bool), RenderError>((PlanState {
                ops: s.ops.push(ChipOp::Wait { samples: k as u64 }),
                samples: s.samples + k,
                ..moved_on(s, s.pos + len)
            }, false));
            &&& c == 0x61 && s.pos + 3 <= eof ==> waits(b[s.pos + 1] + b[s.pos + 2] * 0x100, 3)
            &&& c == 0x61 && s.pos + 3 > eof ==> plan_step(b, eof, part, s) == Err::<(PlanState, bool), RenderError>(RenderError::TruncatedWait)
            &&& c == 0x62 ==> waits(735, 1)
            &&& c == 0x63 ==> waits(882, 1)
            &&& 0x70 <= c <= 0x7f ==> waits(c - 0x70 + 1, 1)
            &&& c == 0x66 ==> plan_step(b, eof, part, s) == Ok::<(PlanState, bool), RenderError>((moved_on(s, s.pos), true))
            &&& c == 0x50 ==> plan_step(b, eof, part, s) == Ok::<(PlanState, bool), RenderError>((moved_on(s, s.pos + 2), false))
        }),
{
    let c = b[s.pos];
    assert(0x70 <= c <= 0x7f ==> (c & 0x0f) == c - 0x70) by (bit_vector);
}

} // verus!
