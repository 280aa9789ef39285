//! Named parameter indexes.
//!
//! The engine and the packager both address parameters by number. Naming them
//! here, and checking that each name still points at the identifier it
//! claims, keeps a renumbering from quietly rewiring a knob.

use vstd::prelude::*;

verus! {

pub const RIG_INPUT: u32 = 0;
pub const RIG_OUTPUT: u32 = 1;
pub const RIG_GATE: u32 = 2;
/// Appended after the pedals, so a state block saved before it existed is
/// still an earlier layout rather than a corruption.
pub const RIG_SOURCE: u32 = 41;
pub const COMP_ENGAGED: u32 = 3;
pub const COMP_POSITION: u32 = 4;
pub const COMP_SUSTAIN: u32 = 5;
pub const COMP_ATTACK: u32 = 6;
pub const COMP_LEVEL: u32 = 7;
pub const DRIVE_ENGAGED: u32 = 8;
pub const DRIVE_POSITION: u32 = 9;
pub const DRIVE_DRIVE: u32 = 10;
pub const DRIVE_TONE: u32 = 11;
pub const DRIVE_LEVEL: u32 = 12;
pub const DIST_ENGAGED: u32 = 13;
pub const DIST_POSITION: u32 = 14;
pub const DIST_DISTORTION: u32 = 15;
pub const DIST_TONE: u32 = 16;
pub const DIST_LEVEL: u32 = 17;
pub const FUZZ_ENGAGED: u32 = 18;
pub const FUZZ_POSITION: u32 = 19;
pub const FUZZ_SUSTAIN: u32 = 20;
pub const FUZZ_TONE: u32 = 21;
pub const FUZZ_VOLUME: u32 = 22;
pub const CHORUS_ENGAGED: u32 = 23;
pub const CHORUS_POSITION: u32 = 24;
pub const CHORUS_RATE: u32 = 25;
pub const CHORUS_DEPTH: u32 = 26;
pub const CHORUS_MIX: u32 = 27;
pub const DELAY_ENGAGED: u32 = 28;
pub const DELAY_POSITION: u32 = 29;
pub const DELAY_TIME: u32 = 30;
pub const DELAY_FEEDBACK: u32 = 31;
pub const DELAY_MIX: u32 = 32;
pub const DELAY_MODE: u32 = 33;
pub const DELAY_WIDTH: u32 = 34;
pub const REVERB_ENGAGED: u32 = 35;
pub const REVERB_POSITION: u32 = 36;
pub const REVERB_DECAY: u32 = 37;
pub const REVERB_TONE: u32 = 38;
pub const REVERB_MIX: u32 = 39;
pub const REVERB_MODE: u32 = 40;

} // verus!
