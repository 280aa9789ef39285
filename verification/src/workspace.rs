//! Where the delay memory comes from.
//!
//! Nothing on the board allocates. Every delay line, tank and register
//! borrows a slice of one block handed over at activation, sized for the
//! highest sample rate the board accepts.

use vstd::prelude::*;

use crate::delay::fill_prefix;
use crate::dsp::{CHORUS_MAXIMUM_DELAY_MS, ECHO_MAXIMUM_DELAY_MS, REVERB_MAXIMUM_LINE_MS, REVERB_LINE_COUNT};

verus! {

/// The highest sample rate the buffers are sized for, in hertz. Activation
/// above it is refused rather than silently shortening every delay.
pub const MAXIMUM_SAMPLE_RATE: u32 = 96_000;

/// 20 ms at 96 kHz, rounded up: the chorus register.
pub const CHORUS_SAMPLES: usize = 2_048;
/// 1.25 s at 96 kHz: one channel of the echo.
pub const ECHO_SAMPLES: usize = 120_064;
/// 60 ms at 96 kHz: one reverb line, of which there are eight.
pub const REVERB_LINE_SAMPLES: usize = 5_824;
/// The eight reverb lines together.
pub const REVERB_SAMPLES: usize = REVERB_LINE_SAMPLES * REVERB_LINE_COUNT;

/// The whole block.
pub const WORKSPACE_SAMPLES: usize = CHORUS_SAMPLES + ECHO_SAMPLES * 2 + REVERB_SAMPLES;

/// The block, divided among the pedals that need memory.
pub struct Workspace<'a, T> {
    pub chorus: &'a mut [T],
    pub echo_left: &'a mut [T],
    pub echo_right: &'a mut [T],
    pub reverb: &'a mut [T],
}

impl<'a, T> Workspace<'a, T> {
    /// Divides `buffer`, or returns `None` when it is too small to hold the
    /// declared maximum delays. The parts follow one another in the block:
    /// chorus, left echo, right echo, reverb.
    pub fn new(buffer: &'a mut [T]) -> (workspace: Option<Self>)
        ensures
            workspace is None <==> old(buffer)@.len() < WORKSPACE_SAMPLES,
            workspace is None ==> final(buffer)@ == old(buffer)@,
            workspace matches Some(w) ==> {
                &&& w.chorus@ == old(buffer)@.subrange(0, CHORUS_SAMPLES as int)
                &&& w.echo_left@ == old(buffer)@.subrange(CHORUS_SAMPLES as int, (CHORUS_SAMPLES + ECHO_SAMPLES) as int)
                &&& w.echo_right@ == old(buffer)@.subrange((CHORUS_SAMPLES + ECHO_SAMPLES) as int, (CHORUS_SAMPLES + 2 * ECHO_SAMPLES) as int)
                &&& w.reverb@ == old(buffer)@.subrange((CHORUS_SAMPLES + 2 * ECHO_SAMPLES) as int, WORKSPACE_SAMPLES as int)
            },
    {
        if buffer.len() < WORKSPACE_SAMPLES {
            return None;
        }
        let (chorus, rest) = buffer.split_at_mut(CHORUS_SAMPLES);
        let (echo_left, rest) = rest.split_at_mut(ECHO_SAMPLES);
        let (echo_right, rest) = rest.split_at_mut(ECHO_SAMPLES);
        let (reverb, _) = rest.split_at_mut(REVERB_SAMPLES);
        Some(Workspace { chorus, echo_left, echo_right, reverb })
    }

    /// Silences every part of the block.
    pub fn clear(&mut self, silence: T) where T: Copy
        ensures
            final(self).chorus@ == Seq::new(old(self).chorus@.len(), |i: int| silence),
            final(self).echo_left@ == Seq::new(old(self).echo_left@.len(), |i: int| silence),
            final(self).echo_right@ == Seq::new(old(self).echo_right@.len(), |i: int| silence),
            final(self).reverb@ == Seq::new(old(self).reverb@.len(), |i: int| silence),
    {
        let count = self.chorus.len();
        fill_prefix(self.chorus, count, silence);
        let count = self.echo_left.len();
        fill_prefix(self.echo_left, count, silence);
        let count = self.echo_right.len();
        fill_prefix(self.echo_right, count, silence);
        let count = self.reverb.len();
        fill_prefix(self.reverb, count, silence);
        assert(self.chorus@ =~= Seq::new(old(self).chorus@.len(), |i: int| silence));
        assert(self.echo_left@ =~= Seq::new(old(self).echo_left@.len(), |i: int| silence));
        assert(self.echo_right@ =~= Seq::new(old(self).echo_right@.len(), |i: int| silence));
        assert(self.reverb@ =~= Seq::new(old(self).reverb@.len(), |i: int| silence));
    }
}

/// Samples needed to hold `milliseconds` of signal at `sample_rate` hertz.
pub open spec fn samples_for(sample_rate: int, milliseconds: int) -> int {
    sample_rate * milliseconds / 1000
}

/// At the highest sample rate the board accepts, every part of the block is
/// longer than the longest delay its pedal declares.
pub proof fn lemma_lines_hold_the_longest_delays()
    ensures
        ECHO_SAMPLES > samples_for(MAXIMUM_SAMPLE_RATE as int, ECHO_MAXIMUM_DELAY_MS as int),
        CHORUS_SAMPLES > samples_for(MAXIMUM_SAMPLE_RATE as int, CHORUS_MAXIMUM_DELAY_MS as int),
        REVERB_LINE_SAMPLES > samples_for(MAXIMUM_SAMPLE_RATE as int, REVERB_MAXIMUM_LINE_MS as int),
{
}

} // verus!
