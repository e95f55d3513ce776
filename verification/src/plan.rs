//! Interpretation of a VGM command stream for one isolated render part:
//! which chip register writes it receives and how long it waits between
//! them. The chip itself is driven elsewhere (see `render`).

use vstd::prelude::*;
use crate::stream::{spec_command_size, spec_u16le, spec_u32le, command_size, u16le, u32le, stream_len_ok};

verus! {

/// One isolated rendering pass: a single FM channel (0..=5) or the DAC.
#[derive(Clone, Copy, PartialEq, Eq, Structural, Debug)]
pub enum RenderPart {
    Fm(usize),
    Dac,
}

/// One thing done to the chip: a write of `data` to the port at `offset`,
/// or a wait of `samples` VGM samples (44.1 kHz) during which it renders.
#[derive(Clone, Copy, PartialEq, Eq, Structural, Debug)]
pub enum ChipOp {
    Write { offset: u32, data: u8 },
    Wait { samples: u64 },
}

/// Why a command stream cannot be rendered.
#[derive(Clone, Copy, PartialEq, Eq, Structural, Debug)]
pub enum RenderError {
    /// A `0x52`/`0x53` register write runs past the end of the stream.
    TruncatedYmWrite,
    /// A `0x61` wait runs past the end of the stream.
    TruncatedWait,
    /// A `0x67` data block is malformed or runs past the end of the stream.
    InvalidDataBlock,
    /// A `0x67` data block's payload runs past the end of the stream.
    TruncatedDataBlock,
    /// A DAC command came before any data block of type 0.
    DacBankMissing,
    /// A `0x8n` DAC write read past the end of the type-0 data block.
    DacBankExhausted,
    /// A `0xe0` DAC seek runs past the end of the stream.
    TruncatedDacSeek,
    /// A `0xe0` DAC seek points past the end of the type-0 data block.
    DacSeekOutOfRange,
    /// A byte that starts no known command (or one that runs past the end).
    UnsupportedCommand { cmd: u8, pos: usize },
    /// The chip does not render stereo.
    UnexpectedChannelCount { channels: usize },
}

/// Registers that every isolated render needs (timers, LFO, channel 3 mode,
/// DAC enable).
pub open spec fn is_global_reg(reg: u8) -> bool {
    reg == 0x22 || (0x24 <= reg && reg <= 0x27) || reg == 0x2b
}

/// The FM channel (0..=5) that a per-channel register at `reg` on `port`
/// belongs to, if any.
pub open spec fn reg_channel(port: u32, reg: u8) -> Option<int> {
    if (0x30 <= reg && reg <= 0x9f) || (0xa0 <= reg && reg <= 0xb6) {
        let c = reg & 0x03;
        if c < 3 { Some((port / 2) * 3 + c) } else { None }
    } else {
        None
    }
}

/// The channel selected by the low bits of a key-on (`0x28`) value.
pub open spec fn key_on_channel(val: u8) -> int {
    (val & 0x03) as int + if val & 0x04 != 0 { 3int } else { 0int }
}

/// Whether the register write `reg <- val` on `port` reaches the chip of `part`.
pub open spec fn write_allowed(part: RenderPart, port: u32, reg: u8, val: u8) -> bool {
    match part {
        RenderPart::Fm(ch) => {
            if reg == 0x28 {
                key_on_channel(val) == ch
            } else if is_global_reg(reg) {
                true
            } else {
                match reg_channel(port, reg) {
                    Some(c) => c == ch,
                    None => false,
                }
            }
        },
        RenderPart::Dac => reg == 0x2a || reg == 0x2b || is_global_reg(reg),
    }
}

/// The chip operations of one register write: the address byte to `port`,
/// then the value to `port + 1`, or nothing when `part` does not take it.
pub open spec fn write_ops(part: RenderPart, port: u32, reg: u8, val: u8) -> Seq<ChipOp> {
    if write_allowed(part, port, reg, val) {
        seq![ChipOp::Write { offset: port, data: reg }, ChipOp::Write { offset: (port + 1) as u32, data: val }]
    } else {
        seq![]
    }
}

/// The chip operations of one DAC sample `v`, which only the DAC part takes.
pub open spec fn dac_ops(part: RenderPart, v: u8) -> Seq<ChipOp> {
    if part == RenderPart::Dac {
        seq![ChipOp::Write { offset: 0, data: 0x2a }, ChipOp::Write { offset: 1, data: v }]
    } else {
        seq![]
    }
}

/// The channel of a per-channel FM register (see `reg_channel`).
fn channel_from_reg(port: u32, r: u8) -> (c: Option<usize>)
    requires
        port <= 2,
    ensures
        c matches Some(x) ==> reg_channel(port, r) == Some(x as int),
        c is None ==> reg_channel(port, r) is None,
{
    if (0x30 <= r && r <= 0x9f) || (0xa0 <= r && r <= 0xb6) {
        let c = (r & 0x03) as usize;
        if c < 3 {
            Some((port as usize / 2) * 3 + c)
        } else {
            None
        }
    } else {
        None
    }
}

/// Appends to `ops` the chip writes of the register write `reg <- val` on
/// `port`, when `part` takes it.
pub fn write_ym(ops: &mut Vec<ChipOp>, port: u32, reg: u8, val: u8, part: RenderPart)
    requires
        port <= 2,
    ensures
        final(ops)@ == old(ops)@ + write_ops(part, port, reg, val),
{
    let global = reg == 0x22 || (0x24 <= reg && reg <= 0x27) || reg == 0x2b;
    let key_on = reg == 0x28;
    let allow = match part {
        RenderPart::Fm(ch) => {
            if key_on {
                let c = ((val & 0x03) as usize) + if val & 0x04 != 0 { 3 } else { 0 };
                c == ch
            } else if global {
                true
            } else {
                match channel_from_reg(port, reg) {
                    Some(c) => c == ch,
                    None => false,
                }
            }
        },
        RenderPart::Dac => reg == 0x2a || reg == 0x2b || global,
    };
    if allow {
        ops.push(ChipOp::Write { offset: port, data: reg });
        ops.push(ChipOp::Write { offset: port + 1, data: val });
    }
    assert(ops@ =~= old(ops)@ + write_ops(part, port, reg, val));
}

/// The interpreter's state between two commands.
pub struct PlanState {
    /// Position of the next command in the stream.
    pub pos: int,
    /// Read position in the DAC sample bank.
    pub dac_pos: int,
    /// The payload of the last data block of type 0, the DAC sample bank.
    pub bank: Option<Seq<u8>>,
    /// The chip operations issued so far.
    pub ops: Seq<ChipOp>,
    /// VGM samples waited so far (the stream's timeline).
    pub samples: int,
    /// Commands read so far.
    pub commands: int,
    /// `0x52`/`0x53` register writes read so far (taken or not).
    pub ym_writes: int,
    /// DAC samples written so far.
    pub dac_writes: int,
    /// Data blocks read so far.
    pub data_blocks: int,
}

/// The state before the first command at `data_off`.
pub open spec fn initial_state(data_off: int) -> PlanState {
    PlanState {
        pos: data_off,
        dac_pos: 0,
        bank: None,
        ops: seq![],
        samples: 0,
        commands: 0,
        ym_writes: 0,
        dac_writes: 0,
        data_blocks: 0,
    }
}

/// `s` after a wait of `n` samples, with the next command at `next`.
pub open spec fn waited(s: PlanState, n: int, next: int) -> PlanState {
    PlanState { ops: s.ops.push(ChipOp::Wait { samples: n as u64 }), samples: s.samples + n, pos: next, ..s }
}

/// One command at `s.pos`: the next state and whether the stream ended
/// (`0x66`), or why the command cannot be rendered.
pub open spec fn plan_step(b: Seq<u8>, eof: int, part: RenderPart, s0: PlanState) -> Result<(PlanState, bool), RenderError> {
    let pos = s0.pos;
    let c = b[pos];
    let s = PlanState { commands: s0.commands + 1, ..s0 };
    if c == 0x50 {
        Ok((PlanState { pos: pos + 2, ..s }, false))
    } else if c == 0x52 || c == 0x53 {
        if pos + 3 > eof {
            Err(RenderError::TruncatedYmWrite)
        } else {
            let port: u32 = if c == 0x52 { 0 } else { 2 };
            Ok((PlanState {
                ops: s.ops + write_ops(part, port, b[pos + 1], b[pos + 2]),
                ym_writes: s.ym_writes + 1,
                pos: pos + 3,
                ..s
            }, false))
        }
    } else if c == 0x61 {
        if pos + 3 > eof {
            Err(RenderError::TruncatedWait)
        } else {
            Ok((waited(s, spec_u16le(b, pos + 1), pos + 3), false))
        }
    } else if c == 0x62 {
        Ok((waited(s, 735, pos + 1), false))
    } else if c == 0x63 {
        Ok((waited(s, 882, pos + 1), false))
    } else if c == 0x67 {
        match spec_command_size(b, pos, eof) {
            None => Err(RenderError::InvalidDataBlock),
            Some(len) => {
                let ty = b[pos + 2];
                let n = spec_u32le(b, pos + 3);
                let st = pos + 7;
                if st + n > eof {
                    Err(RenderError::TruncatedDataBlock)
                } else {
                    Ok((PlanState {
                        bank: if ty == 0 { Some(b.subrange(st, st + n)) } else { s.bank },
                        dac_pos: if ty == 0 { 0 } else { s.dac_pos },
                        data_blocks: s.data_blocks + 1,
                        pos: pos + len,
                        ..s
                    }, false))
                }
            },
        }
    } else if 0x70 <= c && c <= 0x7f {
        Ok((waited(s, (c & 0x0f) as int + 1, pos + 1), false))
    } else if 0x80 <= c && c <= 0x8f {
        match s.bank {
            None => Err(RenderError::DacBankMissing),
            Some(bank) => {
                if s.dac_pos >= bank.len() {
                    Err(RenderError::DacBankExhausted)
                } else {
                    let v = bank[s.dac_pos];
                    let s2 = PlanState {
                        dac_pos: s.dac_pos + 1,
                        ops: s.ops + dac_ops(part, v),
                        dac_writes: s.dac_writes + 1,
                        ..s
                    };
                    Ok((waited(s2, (c & 0x0f) as int, pos + 1), false))
                }
            },
        }
    } else if c == 0xe0 {
        if pos + 5 > eof {
            Err(RenderError::TruncatedDacSeek)
        } else {
            let off = spec_u32le(b, pos + 1);
            match s.bank {
                None => Err(RenderError::DacBankMissing),
                Some(bank) => {
                    if off >= bank.len() {
                        Err(RenderError::DacSeekOutOfRange)
                    } else {
                        Ok((PlanState { dac_pos: off, pos: pos + 5, ..s }, false))
                    }
                },
            }
        }
    } else if c == 0x66 {
        Ok((s, true))
    } else {
        match spec_command_size(b, pos, eof) {
            None => Err(RenderError::UnsupportedCommand { cmd: c, pos: pos as usize }),
            Some(len) => Ok((PlanState { pos: pos + len, ..s }, false)),
        }
    }
}

/// How far the interpreter at `pos` is from the end of the stream.
pub open spec fn remaining(eof: int, pos: int) -> int {
    if pos < eof { eof - pos } else { 0 }
}

/// Runs the stream `b[.. eof]` from state `s` until its end, an end command
/// (`0x66`) or an error.
pub open spec fn plan_run(b: Seq<u8>, eof: int, part: RenderPart, s: PlanState) -> Result<PlanState, RenderError>
    decreases remaining(eof, s.pos),
{
    if s.pos >= eof {
        Ok(s)
    } else {
        match plan_step(b, eof, part, s) {
            Err(e) => Err(e),
            Ok((next, ended)) => {
                if ended {
                    Ok(next)
                } else {
                    plan_run(b, eof, part, next)
                }
            },
        }
    }
}

/// The register writes among `ops`, in order.
pub open spec fn writes_of(ops: Seq<ChipOp>) -> Seq<(u32, u8)>
    decreases ops.len(),
{
    if ops.len() == 0 {
        seq![]
    } else {
        match ops.last() {
            ChipOp::Write { offset, data } => writes_of(ops.drop_last()).push((offset, data)),
            ChipOp::Wait { .. } => writes_of(ops.drop_last()),
        }
    }
}

/// The waits among `ops`, in order.
pub open spec fn waits_of(ops: Seq<ChipOp>) -> Seq<u64>
    decreases ops.len(),
{
    if ops.len() == 0 {
        seq![]
    } else {
        match ops.last() {
            ChipOp::Write { .. } => waits_of(ops.drop_last()),
            ChipOp::Wait { samples } => waits_of(ops.drop_last()).push(samples),
        }
    }
}

/// Every wait in `ops` fits a `0x61` command.
pub open spec fn waits_bounded(ops: Seq<ChipOp>) -> bool {
    forall|i: int| 0 <= i < ops.len() ==> (#[trigger] ops[i] matches ChipOp::Wait { samples } ==> samples <= 0xffff)
}

/// What one render part does with a command stream.
pub struct PartPlan {
    /// The chip operations, in order.
    pub ops: Vec<ChipOp>,
    /// VGM samples waited in all.
    pub timeline_samples: u64,
    /// Commands read.
    pub commands: u64,
    /// `0x52`/`0x53` register writes read.
    pub ym_writes: u64,
    /// DAC samples written.
    pub dac_writes: u64,
    /// Data blocks read.
    pub data_blocks: u64,
}

/// `p` holds what the interpreter state `s` says.
pub open spec fn plan_matches(p: PartPlan, s: PlanState) -> bool {
    &&& p.ops@ == s.ops
    &&& p.timeline_samples == s.samples
    &&& p.commands == s.commands
    &&& p.ym_writes == s.ym_writes
    &&& p.dac_writes == s.dac_writes
    &&& p.data_blocks == s.data_blocks
}

/// The DAC bank as a sequence.
pub open spec fn bank_view(bank: Option<Vec<u8>>) -> Option<Seq<u8>> {
    match bank {
        Some(v) => Some(v@),
        None => None,
    }
}

/// The interpreter's state while it runs.
struct Cursor {
    pos: usize,
    dac_pos: usize,
    bank: Option<Vec<u8>>,
    ops: Vec<ChipOp>,
    samples: u64,
    commands: u64,
    ym_writes: u64,
    dac_writes: u64,
    data_blocks: u64,
}

impl Cursor {
    spec fn state(&self) -> PlanState {
        PlanState {
            pos: self.pos as int,
            dac_pos: self.dac_pos as int,
            bank: bank_view(self.bank),
            ops: self.ops@,
            samples: self.samples as int,
            commands: self.commands as int,
            ym_writes: self.ym_writes as int,
            dac_writes: self.dac_writes as int,
            data_blocks: self.data_blocks as int,
        }
    }

    /// The bounds that keep every counter and position from overflowing.
    spec fn bounded(&self, data_off: int, eof: int) -> bool {
        &&& data_off <= self.pos
        &&& self.samples <= 21845 * (self.pos - data_off)
        &&& self.commands <= self.pos - data_off
        &&& self.ym_writes <= self.commands
        &&& self.dac_writes <= self.commands
        &&& self.data_blocks <= self.commands
        &&& match bank_view(self.bank) {
            Some(bk) => self.dac_pos <= bk.len() && bk.len() <= eof,
            None => true,
        }
        &&& waits_bounded(self.ops@)
    }

    fn into_plan(self) -> (p: PartPlan)
        ensures
            plan_matches(p, self.state()),
    {
        PartPlan {
            ops: self.ops,
            timeline_samples: self.samples,
            commands: self.commands,
            ym_writes: self.ym_writes,
            dac_writes: self.dac_writes,
            data_blocks: self.data_blocks,
        }
    }

    /// Pushes a wait of `n` samples and moves to `next`.
    fn wait(&mut self, n: u64, next: usize)
        requires
            old(self).samples + n <= u64::MAX,
            n <= 0xffff,
            waits_bounded(old(self).ops@),
        ensures
            final(self).state() == waited(old(self).state(), n as int, next as int),
            final(self).dac_pos == old(self).dac_pos,
            final(self).bank == old(self).bank,
            final(self).commands == old(self).commands,
            final(self).ym_writes == old(self).ym_writes,
            final(self).dac_writes == old(self).dac_writes,
            final(self).data_blocks == old(self).data_blocks,
            final(self).samples == old(self).samples + n,
            final(self).pos == next,
            waits_bounded(final(self).ops@),
    {
        self.ops.push(ChipOp::Wait { samples: n });
        self.samples = self.samples + n;
        self.pos = next;
        assert(waits_bounded(self.ops@)) by {
            assert forall|i: int| 0 <= i < self.ops@.len() implies (#[trigger] self.ops@[i] matches ChipOp::Wait { samples } ==> samples <= 0xffff) by {
                if i < old(self).ops@.len() {
                    assert(self.ops@[i] == old(self).ops@[i]);
                }
            }
        }
    }

    /// Interprets the command at `self.pos` (see `plan_step`); `Ok(true)` when
    /// it ends the stream.
    fn step(&mut self, bytes: &[u8], data_off: usize, eof: usize, part: RenderPart) -> (r: Result<bool, RenderError>)
        requires
            old(self).pos < eof,
            eof <= bytes@.len(),
            stream_len_ok(eof as int),
            old(self).bounded(data_off as int, eof as int),
        ensures
            match plan_step(bytes@, eof as int, part, old(self).state()) {
                Err(e) => r == Err::<bool, RenderError>(e),
                Ok((next, ended)) => r == Ok::<bool, RenderError>(ended) && final(self).state() == next
                    && (!ended ==> final(self).bounded(data_off as int, eof as int) && final(self).pos <= eof + 1),
            },
    {
        let ghost b = bytes@;
        let ghost old_ops = self.ops@;
        let pos = self.pos;
        let cmd = bytes[pos];
        self.commands = self.commands + 1;
        match cmd {
            0x50 => {
                self.pos = pos + 2;
            },
            0x52 | 0x53 => {
                if eof - pos < 3 {
                    return Err(RenderError::TruncatedYmWrite);
                }
                let reg = bytes[pos + 1];
                let val = bytes[pos + 2];
                let port: u32 = if cmd == 0x52 { 0 } else { 2 };
                write_ym(&mut self.ops, port, reg, val, part);
                self.ym_writes = self.ym_writes + 1;
                self.pos = pos + 3;
                assert(waits_bounded(self.ops@)) by {
                    assert forall|i: int| 0 <= i < self.ops@.len() implies (#[trigger] self.ops@[i] matches ChipOp::Wait { samples } ==> samples <= 0xffff) by {
                        if i >= old_ops.len() {
                            assert(self.ops@[i] == write_ops(part, port, reg, val)[i - old_ops.len()]);
                        } else {
                            assert(self.ops@[i] == old_ops[i]);
                        }
                    }
                }
            },
            0x61 => {
                if eof - pos < 3 {
                    return Err(RenderError::TruncatedWait);
                }
                let n = u16le(bytes, pos + 1);
                self.wait(n, pos + 3);
            },
            0x62 => {
                self.wait(735, pos + 1);
            },
            0x63 => {
                self.wait(882, pos + 1);
            },
            0x67 => {
                let len = match command_size(bytes, pos, eof) {
                    Some(l) => l,
                    None => return Err(RenderError::InvalidDataBlock),
                };
                let ty = bytes[pos + 2];
                let n = u32le(bytes, pos + 3) as usize;
                let st = pos + 7;
                if n > eof - st {
                    return Err(RenderError::TruncatedDataBlock);
                }
                // Only the type-0 bank (DAC samples) is ever read back.
                if ty == 0 {
                    self.bank = Some(vstd::slice::slice_to_vec(&bytes[st..st + n]));
                    self.dac_pos = 0;
                }
                self.data_blocks = self.data_blocks + 1;
                self.pos = pos + len;
            },
            0x70..=0x7f => {
                assert((cmd & 0x0f) <= 15) by (bit_vector);
                let n = (cmd & 0x0f) as u64 + 1;
                self.wait(n, pos + 1);
            },
            0x80..=0x8f => {
                let v = match &self.bank {
                    None => return Err(RenderError::DacBankMissing),
                    Some(bk) => {
                        if self.dac_pos >= bk.len() {
                            return Err(RenderError::DacBankExhausted);
                        }
                        bk[self.dac_pos]
                    },
                };
                self.dac_pos = self.dac_pos + 1;
                // DAC writes are isolated from the six FM channels.
                if part == RenderPart::Dac {
                    self.ops.push(ChipOp::Write { offset: 0, data: 0x2a });
                    self.ops.push(ChipOp::Write { offset: 1, data: v });
                }
                self.dac_writes = self.dac_writes + 1;
                assert(self.ops@ =~= old_ops + dac_ops(part, v));
                assert(waits_bounded(self.ops@)) by {
                    assert forall|i: int| 0 <= i < self.ops@.len() implies (#[trigger] self.ops@[i] matches ChipOp::Wait { samples } ==> samples <= 0xffff) by {
                        if i >= old_ops.len() {
                            assert(self.ops@[i] == dac_ops(part, v)[i - old_ops.len()]);
                        } else {
                            assert(self.ops@[i] == old_ops[i]);
                        }
                    }
                }
                assert((cmd & 0x0f) <= 15) by (bit_vector);
                let n = (cmd & 0x0f) as u64;
                self.wait(n, pos + 1);
            },
            0xe0 => {
                if eof - pos < 5 {
                    return Err(RenderError::TruncatedDacSeek);
                }
                let off = u32le(bytes, pos + 1) as usize;
                match &self.bank {
                    None => return Err(RenderError::DacBankMissing),
                    Some(bk) => {
                        if off >= bk.len() {
                            return Err(RenderError::DacSeekOutOfRange);
                        }
                    },
                }
                self.dac_pos = off;
                self.pos = pos + 5;
            },
            0x66 => {
                return Ok(true);
            },
            _ => {
                match command_size(bytes, pos, eof) {
                    Some(len) => {
                        self.pos = pos + len;
                    },
                    None => return Err(RenderError::UnsupportedCommand { cmd, pos }),
                }
            },
        }
        Ok(false)
    }
}

/// Interprets the commands of `bytes[data_off .. eof]` for one render part:
/// the chip operations it issues and the counts of what it read, exactly as
/// `plan_run` says, or the first error.
pub fn plan_part(bytes: &[u8], data_off: usize, eof: usize, part: RenderPart) -> (r: Result<PartPlan, RenderError>)
    requires
        eof <= bytes@.len(),
        stream_len_ok(eof as int),
    ensures
        match plan_run(bytes@, eof as int, part, initial_state(data_off as int)) {
            Ok(s) => r matches Ok(p) && plan_matches(p, s),
            Err(e) => r == Err::<PartPlan, RenderError>(e),
        },
        r matches Ok(p) ==> {
            &&& waits_bounded(p.ops@)
            &&& p.commands <= eof + 1
            &&& p.ym_writes <= p.commands
            &&& p.dac_writes <= p.commands
            &&& p.data_blocks <= p.commands
        },
{
    let mut cur = Cursor {
        pos: data_off,
        dac_pos: 0,
        bank: None,
        ops: Vec::new(),
        samples: 0,
        commands: 0,
        ym_writes: 0,
        dac_writes: 0,
        data_blocks: 0,
    };
    assert(cur.state() == initial_state(data_off as int));
    while cur.pos < eof
        invariant
            eof <= bytes@.len(),
            stream_len_ok(eof as int),
            cur.bounded(data_off as int, eof as int),
            cur.pos <= eof + 1 || cur.pos == data_off,
            plan_run(bytes@, eof as int, part, cur.state())
                == plan_run(bytes@, eof as int, part, initial_state(data_off as int)),
        decreases eof + 2 - cur.pos,
    {
        match cur.step(bytes, data_off, eof, part) {
            Err(e) => {
                return Err(e);
            },
            Ok(true) => {
                return Ok(cur.into_plan());
            },
            Ok(false) => {},
        }
    }
    Ok(cur.into_plan())
}

} // verus!
