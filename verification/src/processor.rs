//! The host-facing rules of the adapter: which bus layouts the board can
//! serve, and which automation events are due at a frame.

use vstd::prelude::*;

verus! {

/// The most input channels the adapter accepts. The board has one input
/// jack; a stereo capture is summed.
pub const MAX_INPUT_CHANNELS: u32 = 2;
/// The most output channels the adapter fills.
pub const MAX_OUTPUT_CHANNELS: u32 = 2;

/// Whether the adapter can serve a bus layout. A pedalboard with no input
/// is not a pedalboard, and one with no output is silence.
pub fn supports_channels(input_channels: u32, output_channels: u32) -> (supported: bool)
    ensures
        supported == (1 <= input_channels <= MAX_INPUT_CHANNELS && 1 <= output_channels <= MAX_OUTPUT_CHANNELS),
{
    if input_channels == 0 || input_channels > MAX_INPUT_CHANNELS {
        return false;
    }
    if output_channels == 0 || output_channels > MAX_OUTPUT_CHANNELS {
        return false;
    }
    true
}

/// The samples one frame of an interleaved input holds for the board's
/// single jack: nothing for no channels, the frame's sample twice for one,
/// and the first two channels for more. A slot past the end of the buffer
/// reads as `silence`. A host that hands over a stereo capture gets the two
/// sides summed, which is what a mono pedal does with one.
pub fn input_samples<T: Copy>(input: &[T], frame: usize, channels: usize, silence: T) -> (samples: (T, T))
    requires
        channels >= 2 ==> frame * channels + 1 <= usize::MAX,
    ensures
        channels == 0 ==> samples == (silence, silence),
        channels == 1 ==> samples.0 == samples.1 && samples.0 == (if frame < input@.len() {
            input@[frame as int]
        } else {
            silence
        }),
        channels >= 2 ==> {
            let base = frame * channels;
            &&& samples.0 == (if base < input@.len() { input@[base] } else { silence })
            &&& samples.1 == (if base + 1 < input@.len() { input@[base + 1] } else { silence })
        },
{
    if channels == 0 {
        (silence, silence)
    } else if channels == 1 {
        let sample = if frame < input.len() { input[frame] } else { silence };
        (sample, sample)
    } else {
        let base = frame * channels;
        let left = if base < input.len() { input[base] } else { silence };
        let right = if base + 1 < input.len() { input[base + 1] } else { silence };
        (left, right)
    }
}

/// Writes one stereo frame into an interleaved output: the first channel
/// gets `left` and every other channel `right`. Slots past the end of the
/// buffer are skipped rather than written.
pub fn write_frame<T: Copy>(output: &mut [T], frame: usize, channels: usize, left: T, right: T)
    requires
        frame * channels + channels <= usize::MAX + 1,
    ensures
        final(output)@.len() == old(output)@.len(),
        forall|i: int|
            0 <= i < old(output)@.len() ==> #[trigger] final(output)@[i] == (if frame * channels <= i < frame
                * channels + channels {
                if i == frame * channels { left } else { right }
            } else {
                old(output)@[i]
            }),
{
    if channels == 0 {
        return;
    }
    let base = frame * channels;
    let mut channel: usize = 0;
    while channel < channels
        invariant
            base == frame * channels,
            base + channels <= usize::MAX + 1,
            0 <= channel <= channels,
            output@.len() == old(output)@.len(),
            forall|i: int|
                0 <= i < old(output)@.len() ==> #[trigger] output@[i] == (if base <= i < base + channel {
                    if i == base { left } else { right }
                } else {
                    old(output)@[i]
                }),
        decreases channels - channel,
    {
        let value = if channel == 0 { left } else { right };
        if base + channel < output.len() {
            output[base + channel] = value;
        }
        channel += 1;
    }
}

/// Applies automation sample-accurately: starting at `next`, the events
/// scheduled for `frame` are due before the frame is processed. Returns the
/// index of the first event that is not, which is where the next frame
/// starts looking.
pub fn events_due(event_frames: &[u32], next: usize, frame: u32) -> (end: usize)
    requires
        next <= event_frames@.len(),
    ensures
        next <= end <= event_frames@.len(),
        forall|k: int| next <= k < end ==> event_frames@[k] == frame,
        end == event_frames@.len() || event_frames@[end as int] != frame,
{
    let mut end = next;
    while end < event_frames.len()
        invariant
            next <= end <= event_frames@.len(),
            forall|k: int| next <= k < end ==> event_frames@[k] == frame,
        ensures
            next <= end <= event_frames@.len(),
            forall|k: int| next <= k < end ==> event_frames@[k] == frame,
            end == event_frames@.len() || event_frames@[end as int] != frame,
        decreases event_frames@.len() - end,
    {
        if event_frames[end] != frame {
            break;
        }
        end += 1;
    }
    end
}

/// The events are in the order of their frames.
pub open spec fn in_frame_order(event_frames: Seq<u32>) -> bool {
    forall|a: int, b: int| 0 <= a <= b < event_frames.len() ==> event_frames[a] <= event_frames[b]
}

/// `next` is where the events scheduled for `frame` or later begin.
pub open spec fn starts_at(event_frames: Seq<u32>, next: int, frame: int) -> bool {
    &&& 0 <= next <= event_frames.len()
    &&& forall|k: int| 0 <= k < next ==> event_frames[k] < frame
    &&& next == event_frames.len() || event_frames[next] >= frame
}

/// Automation lands on its frame: when the events arrive in frame order and
/// everything scheduled before `frame` has been applied, the events due at
/// `frame` are exactly those scheduled for it, and afterwards everything
/// scheduled up to and including `frame` has been applied.
pub proof fn lemma_events_apply_at_their_frame(event_frames: Seq<u32>, next: int, frame: u32, end: int)
    requires
        in_frame_order(event_frames),
        starts_at(event_frames, next, frame as int),
        next <= end <= event_frames.len(),
        forall|k: int| next <= k < end ==> event_frames[k] == frame,
        end == event_frames.len() || event_frames[end] != frame,
    ensures
        starts_at(event_frames, end, frame + 1),
        forall|k: int| 0 <= k < event_frames.len() && event_frames[k] == frame ==> next <= k < end,
{
    assert forall|k: int| 0 <= k < event_frames.len() && event_frames[k] == frame implies next <= k < end by {
        if k >= end {
            assert(event_frames[end] <= event_frames[k]);
            assert(event_frames[end] >= frame);
        }
    }
}

} // verus!
