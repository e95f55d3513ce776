//! Gathering the render parts of one stream: their timelines must agree and
//! their PCM is interleaved into one multi-channel byte stream.

use vstd::prelude::*;
use crate::pcm::{interleaved, interleave_pcm};
use crate::render::{PartRender, MAX_PART_COMMANDS};

verus! {

/// The number of render parts: six FM channels and the DAC.
pub const PART_COUNT: usize = 7;

/// Why the parts cannot be put together.
#[derive(Clone, Copy, PartialEq, Eq, Structural, Debug)]
pub enum MixError {
    /// A part's timeline differs from the first nonzero one.
    TimelineMismatch,
    /// No frame was rendered, or the chip stayed at zero throughout.
    Silent,
    /// The parts rendered different numbers of samples.
    PcmLengthMismatch,
}

/// The parts gathered so far.
pub struct ChannelMix {
    /// Each part's stereo PCM, in the order the parts came.
    pub streams: Vec<Vec<i16>>,
    /// The first nonzero timeline (VGM samples) seen, or 0.
    pub timeline_samples: u64,
    /// The largest sample magnitude over all parts.
    pub peak: i32,
    /// Commands read, summed over the parts.
    pub commands_total: u64,
    /// `0x52`/`0x53` register writes read, summed over the parts.
    pub ym_writes_total: u64,
    /// DAC samples written, summed over the parts.
    pub dac_writes_total: u64,
    /// The largest number of data blocks any part read.
    pub data_blocks: u64,
}

/// The interleaved PCM of all parts.
pub struct MixOutput {
    /// Stereo frames per part.
    pub frames: usize,
    /// Little-endian 16-bit samples: per frame, per part, left then right.
    pub pcm: Vec<u8>,
}

/// Every stream is as long as the first.
pub open spec fn all_same_len(streams: Seq<Vec<i16>>) -> bool {
    forall|k: int| 0 <= k < streams.len() ==> #[trigger] streams[k]@.len() == streams[0]@.len()
}

impl ChannelMix {
    /// Nothing gathered yet.
    pub fn new() -> (m: Self)
        ensures
            m.streams@.len() == 0,
            m.timeline_samples == 0,
            m.peak == 0,
            m.commands_total == 0,
            m.ym_writes_total == 0,
            m.dac_writes_total == 0,
            m.data_blocks == 0,
    {
        ChannelMix {
            streams: Vec::with_capacity(PART_COUNT),
            timeline_samples: 0,
            peak: 0,
            commands_total: 0,
            ym_writes_total: 0,
            dac_writes_total: 0,
            data_blocks: 0,
        }
    }

    /// Adds one part: `TimelineMismatch`, with nothing changed, exactly when a
    /// nonzero timeline was seen before and this part's differs from it; otherwise the timeline is
    /// kept (or taken from this part when none was seen), the peak raised,
    /// the counts summed (data blocks: their maximum) and the PCM appended.
    pub fn add_part(&mut self, part: PartRender) -> (r: Result<(), MixError>)
        requires
            old(self).streams@.len() < PART_COUNT,
            old(self).commands_total <= old(self).streams@.len() * MAX_PART_COMMANDS,
            old(self).ym_writes_total <= old(self).commands_total,
            old(self).dac_writes_total <= old(self).commands_total,
            part.commands <= MAX_PART_COMMANDS,
            part.ym_writes <= part.commands,
            part.dac_writes <= part.commands,
        ensures
            r is Err <==> old(self).timeline_samples != 0 && old(self).timeline_samples != part.timeline_samples,
            r is Err ==> r == Err::<(), MixError>(MixError::TimelineMismatch) && *final(self) == *old(self),
            r is Ok ==> {
                &&& final(self).timeline_samples == part.timeline_samples
                &&& final(self).peak == (if old(self).peak >= part.peak { old(self).peak } else { part.peak })
                &&& final(self).commands_total == old(self).commands_total + part.commands
                &&& final(self).ym_writes_total == old(self).ym_writes_total + part.ym_writes
                &&& final(self).dac_writes_total == old(self).dac_writes_total + part.dac_writes
                &&& final(self).data_blocks == (if old(self).data_blocks >= part.data_blocks { old(self).data_blocks } else { part.data_blocks })
                &&& final(self).streams@ == old(self).streams@.push(part.pcm)
                &&& final(self).commands_total <= final(self).streams@.len() * MAX_PART_COMMANDS
                &&& final(self).ym_writes_total <= final(self).commands_total
                &&& final(self).dac_writes_total <= final(self).commands_total
            },
    {
        if self.timeline_samples == 0 {
            self.timeline_samples = part.timeline_samples;
        } else if self.timeline_samples != part.timeline_samples {
            return Err(MixError::TimelineMismatch);
        }
        if part.peak > self.peak {
            self.peak = part.peak;
        }
        let ghost n = self.streams@.len();
        assert(n * 0x0004_0000_0000_0000 + 0x0004_0000_0000_0000 == (n + 1) * 0x0004_0000_0000_0000) by (nonlinear_arith);
        assert((n + 1) * 0x0004_0000_0000_0000 <= 7 * 0x0004_0000_0000_0000) by (nonlinear_arith)
            requires
                n < 7,
        ;
        self.commands_total = self.commands_total + part.commands;
        self.ym_writes_total = self.ym_writes_total + part.ym_writes;
        self.dac_writes_total = self.dac_writes_total + part.dac_writes;
        if part.data_blocks > self.data_blocks {
            self.data_blocks = part.data_blocks;
        }
        self.streams.push(part.pcm);
        Ok(())
    }

    /// Interleaves the gathered PCM: `Silent` when the first part rendered no
    /// frame or the peak is 0, else `PcmLengthMismatch` when some part's PCM
    /// differs in length from the first's, else the interleaved bytes of all
    /// frames of the first part's length.
    pub fn finish(&self) -> (r: Result<MixOutput, MixError>)
        requires
            self.streams@.len() >= 1,
        ensures
            ({
                let frames = self.streams@[0]@.len() / 2;
                let same_len = all_same_len(self.streams@);
                &&& (frames == 0 || self.peak == 0) ==> r == Err::<MixOutput, MixError>(MixError::Silent)
                &&& !(frames == 0 || self.peak == 0) && !same_len ==> r == Err::<MixOutput, MixError>(MixError::PcmLengthMismatch)
                &&& !(frames == 0 || self.peak == 0) && same_len ==> (r matches Ok(out) && {
                    &&& out.frames == frames
                    &&& out.pcm@ == interleaved(self.streams.deep_view(), frames as int)
                })
            }),
    {
        let frames = self.streams[0].len() / 2;
        if frames == 0 || self.peak == 0 {
            return Err(MixError::Silent);
        }
        let first_len = self.streams[0].len();
        let mut k: usize = 0;
        while k < self.streams.len()
            invariant
                k <= self.streams@.len(),
                first_len == self.streams@[0]@.len(),
                frames == first_len / 2,
                frames != 0,
                self.peak != 0,
                forall|j: int| 0 <= j < k ==> #[trigger] self.streams@[j]@.len() == first_len,
            decreases self.streams.len() - k,
        {
            if self.streams[k].len() != first_len {
                assert(self.streams@[k as int]@.len() != self.streams@[0]@.len());
                assert(!all_same_len(self.streams@));
                return Err(MixError::PcmLengthMismatch);
            }
            k = k + 1;
        }
        let pcm = interleave_pcm(&self.streams, frames);
        Ok(MixOutput { frames, pcm })
    }
}

} // verus!
