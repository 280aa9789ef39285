//! The board's discrete decisions: the modes its pedals switch between, how
//! long their delays may grow, and which pedals the signal passes through.

use vstd::prelude::*;

use crate::pedal::PEDAL_COUNT;

verus! {

/// The longest delay the chorus register holds, in milliseconds.
pub const CHORUS_MAXIMUM_DELAY_MS: u32 = 20;
/// The longest delay the contract offers the echo, plus room for the wow
/// modulation, in milliseconds.
pub const ECHO_MAXIMUM_DELAY_MS: u32 = 1_250;
/// The longest reverb tank delay, which sets the per-line allocation, in
/// milliseconds.
pub const REVERB_MAXIMUM_LINE_MS: u32 = 60;
/// Lines the reverb claims from the workspace.
pub const REVERB_LINE_COUNT: usize = 8;

/// The waveform of a modulation oscillator.
#[derive(Clone, Copy, PartialEq, Eq, Structural, Debug)]
pub enum LfoShape {
    Sine,
    /// The asymmetric ramp an op-amp triangle generator actually produces.
    Triangle,
}

/// The two circuits the delay pedal can be.
#[derive(Clone, Copy, PartialEq, Eq, Structural, Debug, Default)]
pub enum EchoMode {
    #[default]
    Analog,
    Digital,
}

/// The two tanks the reverb pedal can be.
#[derive(Clone, Copy, PartialEq, Eq, Structural, Debug, Default)]
pub enum ReverbMode {
    #[default]
    Spring,
    Plate,
}

/// What is plugged into the board.
#[derive(Clone, Copy, PartialEq, Eq, Structural, Debug)]
pub enum SourceKind {
    /// Something with a stiff output: an interface, a DI, another plugin.
    Buffered,
    SingleCoil,
    Humbucker,
}

impl EchoMode {
    /// The mode a `delay.mode` selection names: the first choice is the
    /// bucket-brigade line, anything else the digital one.
    pub fn from_selection(selection: u32) -> (mode: EchoMode)
        ensures
            mode == (if selection == 0 { EchoMode::Analog } else { EchoMode::Digital }),
    {
        if selection == 0 { EchoMode::Analog } else { EchoMode::Digital }
    }
}

impl ReverbMode {
    /// The tank a `reverb.mode` selection names: the first choice is the
    /// spring, anything else the plate.
    pub fn from_selection(selection: u32) -> (mode: ReverbMode)
        ensures
            mode == (if selection == 0 { ReverbMode::Spring } else { ReverbMode::Plate }),
    {
        if selection == 0 { ReverbMode::Spring } else { ReverbMode::Plate }
    }
}

impl SourceKind {
    /// The source a `rig.source` selection names. Anything the board does not
    /// know is treated as buffered, which leaves the signal alone.
    pub fn from_selection(selection: u32) -> (source: SourceKind)
        ensures
            source == (if selection == 1 {
                SourceKind::SingleCoil
            } else if selection == 2 {
                SourceKind::Humbucker
            } else {
                SourceKind::Buffered
            }),
    {
        if selection == 1 {
            SourceKind::SingleCoil
        } else if selection == 2 {
            SourceKind::Humbucker
        } else {
            SourceKind::Buffered
        }
    }
}

/// The pedals the signal actually passes through, in the order it meets
/// them: the chain with every bypassed pedal left out.
pub open spec fn signal_path(order: Seq<usize>, engaged: Seq<bool>) -> Seq<usize> {
    order.filter(|slot: usize| engaged[slot as int])
}

/// Walks the chain and keeps the engaged pedals: the first `count` slots of
/// `path` are the signal path, and the rest of it is unused. The first of
/// them is what a guitar plugged into the board sees; each one is fed by the
/// one before it.
pub fn engaged_chain(order: &[usize; PEDAL_COUNT], engaged: &[bool; PEDAL_COUNT]) -> (chain: (
    [usize; PEDAL_COUNT],
    usize,
))
    requires
        forall|i: int| 0 <= i < PEDAL_COUNT ==> #[trigger] order@[i] < PEDAL_COUNT,
    ensures
        chain.1 <= PEDAL_COUNT,
        chain.0@.take(chain.1 as int) == signal_path(order@, engaged@),
{
    let mut path = [0usize; PEDAL_COUNT];
    let mut count: usize = 0;
    let mut index: usize = 0;
    while index < PEDAL_COUNT
        invariant
            0 <= count <= index <= PEDAL_COUNT,
            forall|i: int| 0 <= i < PEDAL_COUNT ==> #[trigger] order@[i] < PEDAL_COUNT,
            path@.take(count as int) == signal_path(order@.take(index as int), engaged@),
        decreases PEDAL_COUNT - index,
    {
        let slot = order[index];
        proof {
            assert(order@.take(index as int + 1).drop_last() =~= order@.take(index as int));
            reveal_with_fuel(Seq::filter, 1);
        }
        if engaged[slot] {
            let ghost before = path@.take(count as int);
            path[count] = slot;
            assert(path@.take(count as int + 1) =~= before.push(slot));
            count += 1;
        }
        index += 1;
    }
    assert(order@.take(PEDAL_COUNT as int) =~= order@);
    (path, count)
}

} // verus!
