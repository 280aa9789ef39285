//! Factory boards.
//!
//! A preset is nothing but a list of parameter values, which is what a
//! pedalboard is: which boxes are on, in what order, with the knobs where. The
//! packager renders the same table into the host's preset catalog, so the
//! catalog and the settings the engine loads cannot disagree.
//!
//! Values are written in thousandths of each parameter's unit, as the
//! contract writes its ranges.

use vstd::prelude::*;

use crate::contract::{accepts_whole, parameter_table, Kind, PARAMETER_COUNT};
use crate::index::{CHORUS_DEPTH, CHORUS_ENGAGED, CHORUS_MIX, CHORUS_RATE, COMP_ATTACK, COMP_ENGAGED, COMP_LEVEL, COMP_SUSTAIN, DELAY_ENGAGED, DELAY_FEEDBACK, DELAY_MIX, DELAY_MODE, DELAY_TIME, DELAY_WIDTH, DIST_DISTORTION, DIST_ENGAGED, DIST_LEVEL, DIST_TONE, DRIVE_DRIVE, DRIVE_ENGAGED, DRIVE_LEVEL, DRIVE_TONE, FUZZ_ENGAGED, FUZZ_SUSTAIN, FUZZ_TONE, FUZZ_VOLUME, REVERB_DECAY, REVERB_ENGAGED, REVERB_MIX, REVERB_MODE, REVERB_TONE};
use crate::pedal::{pedal_table, PEDAL_COUNT};
use crate::text::same_text;

verus! {

/// A factory board.
#[derive(Clone, Copy)]
pub struct Preset {
    pub id: &'static str,
    pub name: &'static str,
    pub description: &'static str,
    /// Parameter index and value, in thousandths of the parameter's unit.
    pub values: &'static [(u32, i32)],
}

/// Number of factory boards.
pub const PRESET_COUNT: usize = 6;

pub const CLEAN_BOARD_VALUES: [(u32, i32); 9] = [
    (COMP_ENGAGED, 1000),
    (COMP_SUSTAIN, 450),
    (COMP_ATTACK, 550),
    (COMP_LEVEL, 380),
    (REVERB_ENGAGED, 1000),
    (REVERB_DECAY, 300),
    (REVERB_TONE, 500),
    (REVERB_MIX, 180),
    (REVERB_MODE, 0),
];
pub const BLUES_DRIVE_VALUES: [(u32, i32); 9] = [
    (COMP_ENGAGED, 1000),
    (COMP_SUSTAIN, 350),
    (COMP_LEVEL, 360),
    (DRIVE_ENGAGED, 1000),
    (DRIVE_DRIVE, 350),
    (DRIVE_TONE, 550),
    (DRIVE_LEVEL, 600),
    (REVERB_ENGAGED, 1000),
    (REVERB_MIX, 150),
];
pub const ROCK_DISTORTION_VALUES: [(u32, i32); 9] = [
    (DIST_ENGAGED, 1000),
    (DIST_DISTORTION, 600),
    (DIST_TONE, 550),
    (DIST_LEVEL, 500),
    (DELAY_ENGAGED, 1000),
    (DELAY_TIME, 120000),
    (DELAY_FEEDBACK, 200),
    (DELAY_MIX, 180),
    (DELAY_MODE, 0),
];
pub const FUZZ_LEAD_VALUES: [(u32, i32); 12] = [
    (FUZZ_ENGAGED, 1000),
    (FUZZ_SUSTAIN, 850),
    (FUZZ_TONE, 550),
    (FUZZ_VOLUME, 350),
    (DELAY_ENGAGED, 1000),
    (DELAY_TIME, 420000),
    (DELAY_FEEDBACK, 400),
    (DELAY_MIX, 280),
    (REVERB_ENGAGED, 1000),
    (REVERB_MODE, 1000),
    (REVERB_DECAY, 550),
    (REVERB_MIX, 220),
];
pub const SURF_VALUES: [(u32, i32); 8] = [
    (COMP_ENGAGED, 1000),
    (COMP_SUSTAIN, 300),
    (COMP_LEVEL, 350),
    (REVERB_ENGAGED, 1000),
    (REVERB_MODE, 0),
    (REVERB_DECAY, 700),
    (REVERB_TONE, 700),
    (REVERB_MIX, 450),
];
pub const AMBIENT_WASH_VALUES: [(u32, i32); 14] = [
    (CHORUS_ENGAGED, 1000),
    (CHORUS_RATE, 500),
    (CHORUS_DEPTH, 600),
    (CHORUS_MIX, 500),
    (DELAY_ENGAGED, 1000),
    (DELAY_TIME, 620000),
    (DELAY_FEEDBACK, 550),
    (DELAY_MIX, 350),
    (DELAY_WIDTH, 800),
    (REVERB_ENGAGED, 1000),
    (REVERB_MODE, 1000),
    (REVERB_DECAY, 850),
    (REVERB_TONE, 400),
    (REVERB_MIX, 400),
];

/// The factory boards, in catalog order.
pub open spec fn preset_table() -> Seq<Preset> {
    seq![
        Preset {
            id: "clean-board",
            name: "Clean Board",
            description: "Compressor into a short spring. Everything else off.",
            values: &CLEAN_BOARD_VALUES,
        },
        Preset {
            id: "blues-drive",
            name: "Blues Drive",
            description: "Overdrive just past the knee, compressor in front of it.",
            values: &BLUES_DRIVE_VALUES,
        },
        Preset {
            id: "rock-distortion",
            name: "Rock Distortion",
            description: "Hard clipping with the scoop open and a slapback behind it.",
            values: &ROCK_DISTORTION_VALUES,
        },
        Preset {
            id: "fuzz-lead",
            name: "Fuzz Lead",
            description: "Both clipping stages wide open, delay long enough to sing.",
            values: &FUZZ_LEAD_VALUES,
        },
        Preset {
            id: "surf",
            name: "Surf",
            description: "Dry front end, spring tank most of the way up.",
            values: &SURF_VALUES,
        },
        Preset {
            id: "ambient-wash",
            name: "Ambient Wash",
            description: "Chorus into a wide analog echo into a long plate.",
            values: &AMBIENT_WASH_VALUES,
        },
    ]
}

/// The factory boards, in catalog order.
pub fn presets() -> (table: Vec<Preset>)
    ensures
        table@ == preset_table(),
{
    let mut table: Vec<Preset> = Vec::new();
    table.push(Preset {
        id: "clean-board",
        name: "Clean Board",
        description: "Compressor into a short spring. Everything else off.",
        values: &CLEAN_BOARD_VALUES,
    });
    table.push(Preset {
        id: "blues-drive",
        name: "Blues Drive",
        description: "Overdrive just past the knee, compressor in front of it.",
        values: &BLUES_DRIVE_VALUES,
    });
    table.push(Preset {
        id: "rock-distortion",
        name: "Rock Distortion",
        description: "Hard clipping with the scoop open and a slapback behind it.",
        values: &ROCK_DISTORTION_VALUES,
    });
    table.push(Preset {
        id: "fuzz-lead",
        name: "Fuzz Lead",
        description: "Both clipping stages wide open, delay long enough to sing.",
        values: &FUZZ_LEAD_VALUES,
    });
    table.push(Preset {
        id: "surf",
        name: "Surf",
        description: "Dry front end, spring tank most of the way up.",
        values: &SURF_VALUES,
    });
    table.push(Preset {
        id: "ambient-wash",
        name: "Ambient Wash",
        description: "Chorus into a wide analog echo into a long plate.",
        values: &AMBIENT_WASH_VALUES,
    });
    assert(table@ =~= preset_table());
    table
}

/// The factory board called `id`, if there is one.
pub fn preset(id: &str) -> (found: Option<Preset>)
    ensures
        found matches Some(p) ==> preset_table().contains(p) && p.id@ == id@,
        found is None ==> forall|i: int| 0 <= i < PRESET_COUNT ==> (#[trigger] preset_table()[i]).id@ != id@,
{
    let table = presets();
    let mut index: usize = 0;
    while index < table.len()
        invariant
            0 <= index <= table@.len(),
            table@ == preset_table(),
            forall|i: int| 0 <= i < index ==> (#[trigger] preset_table()[i]).id@ != id@,
        decreases table@.len() - index,
    {
        let candidate = table[index];
        if same_text(candidate.id, id) {
            return Some(candidate);
        }
        index += 1;
    }
    None
}

/// A value, in thousandths, that a parameter of this kind accepts: inside a
/// continuous range, or a whole number a switch, position or selector takes.
pub open spec fn accepts_thousandths(kind: Kind, value: int) -> bool {
    match kind {
        Kind::Float { minimum, maximum, .. } => minimum <= value <= maximum,
        _ => value % 1000 == 0 && accepts_whole(kind, value / 1000),
    }
}

/// A preset only names parameters of the contract, with values the
/// contract accepts.
pub open spec fn is_inside_the_contract(preset: Preset) -> bool {
    forall|k: int|
        0 <= k < preset.values@.len() ==> {
            let (index, value) = #[trigger] preset.values@[k];
            &&& index < PARAMETER_COUNT
            &&& accepts_thousandths(parameter_table()[index as int].kind, value as int)
        }
}

/// A preset switches at least one pedal on.
pub open spec fn turns_a_pedal_on(preset: Preset) -> bool {
    exists|k: int, slot: int|
        0 <= k < preset.values@.len() && 0 <= slot < PEDAL_COUNT
            && #[trigger] preset.values@[k] == (#[trigger] pedal_table()[slot].engaged, 1000i32)
}

proof fn lemma_preset_is_inside_the_contract(i: int)
    requires
        0 <= i < PRESET_COUNT,
    ensures
        is_inside_the_contract(preset_table()[i]),
{
    let preset = preset_table()[i];
    let table = parameter_table();
    assert(table.len() == PARAMETER_COUNT);
    assert forall|k: int| 0 <= k < preset.values@.len() implies {
        let (index, value) = #[trigger] preset.values@[k];
        &&& index < PARAMETER_COUNT
        &&& accepts_thousandths(parameter_table()[index as int].kind, value as int)
    } by {
        let (index, value) = preset.values@[k];
        assert(index < PARAMETER_COUNT);
        let kind = table[index as int].kind;
        if let Kind::Enum { choices, .. } = kind {
            assert(choices@.len() >= 2);
        }
    }
}

/// Every factory board is inside the contract: loading one can never be
/// refused by the parameters it names.
pub proof fn lemma_every_preset_is_inside_the_contract()
    ensures
        forall|i: int| 0 <= i < PRESET_COUNT ==> is_inside_the_contract(#[trigger] preset_table()[i]),
{
    assert forall|i: int| 0 <= i < PRESET_COUNT implies is_inside_the_contract(#[trigger] preset_table()[i]) by {
        lemma_preset_is_inside_the_contract(i);
    }
}

/// Every factory board switches at least one pedal on.
pub proof fn lemma_every_preset_turns_a_pedal_on()
    ensures
        forall|i: int| 0 <= i < PRESET_COUNT ==> turns_a_pedal_on(#[trigger] preset_table()[i]),
{
    let pedals = pedal_table();
    let presets = preset_table();
    assert(presets[0].values@[0] == (pedals[0].engaged, 1000i32));
    assert(presets[1].values@[0] == (pedals[0].engaged, 1000i32));
    assert(presets[2].values@[0] == (pedals[2].engaged, 1000i32));
    assert(presets[3].values@[0] == (pedals[3].engaged, 1000i32));
    assert(presets[4].values@[0] == (pedals[0].engaged, 1000i32));
    assert(presets[5].values@[0] == (pedals[4].engaged, 1000i32));
}

/// No two factory boards share an identifier, so looking one up by
/// identifier is never ambiguous.
pub proof fn lemma_preset_identifiers_are_unique()
    ensures
        forall|i: int, j: int|
            0 <= i < j < PRESET_COUNT ==> (#[trigger] preset_table()[i]).id@ != (#[trigger] preset_table()[j]).id@,
{
    reveal_strlit("clean-board");
    reveal_strlit("blues-drive");
    reveal_strlit("rock-distortion");
    reveal_strlit("fuzz-lead");
    reveal_strlit("surf");
    reveal_strlit("ambient-wash");
    let t = preset_table();
    assert(t[0].id@[0] == 'c' && t[1].id@[0] == 'b' && t[2].id@[0] == 'r');
    assert(t[3].id@[0] == 'f' && t[4].id@[0] == 's' && t[5].id@[0] == 'a');
    assert forall|i: int, j: int| 0 <= i < j < PRESET_COUNT implies (#[trigger] t[i]).id@ != (#[trigger] t[j]).id@ by {
        assert(t[i].id@[0] != t[j].id@[0]);
    }
}

/// The block a factory board leaves behind, starting from `defaults`: each
/// assignment in turn puts its canonical word at its parameter. An
/// assignment to no parameter of the contract, or one whose value the
/// contract refused, refuses the whole board.
pub open spec fn assigned(assignments: Seq<(u32, Option<u32>)>, defaults: Seq<u32>) -> Option<Seq<u32>>
    decreases assignments.len(),
{
    if assignments.len() == 0 {
        Some(defaults)
    } else {
        match assigned(assignments.drop_last(), defaults) {
            None => None,
            Some(block) => {
                let (index, verdict) = assignments.last();
                if index < PARAMETER_COUNT && verdict is Some {
                    Some(block.update(index as int, verdict->0))
                } else {
                    None
                }
            },
        }
    }
}

/// Applies a factory board's assignments to the default block. Each
/// assignment carries the parameter it names and the verdict on its value:
/// the canonical word, or `None` when the contract refuses it.
pub fn apply_assignments(assignments: &[(u32, Option<u32>)], defaults: &[u32; PARAMETER_COUNT]) -> (block: Option<[u32; PARAMETER_COUNT]>)
    ensures
        block matches Some(b) ==> assigned(assignments@, defaults@) == Some(b@),
        block is None ==> assigned(assignments@, defaults@) is None,
{
    let mut block: [u32; PARAMETER_COUNT] = *defaults;
    let mut index: usize = 0;
    while index < assignments.len()
        invariant
            0 <= index <= assignments@.len(),
            block@.len() == PARAMETER_COUNT,
            assigned(assignments@.take(index as int), defaults@) == Some(block@),
        decreases assignments@.len() - index,
    {
        let (parameter, verdict) = assignments[index];
        proof {
            assert(assignments@.take(index as int + 1).drop_last() =~= assignments@.take(index as int));
        }
        if parameter as usize >= PARAMETER_COUNT {
            proof {
                lemma_refused_stays_refused(assignments@, defaults@, index as int + 1);
            }
            return None;
        }
        match verdict {
            Some(word) => {
                block[parameter as usize] = word;
            },
            None => {
                proof {
                    lemma_refused_stays_refused(assignments@, defaults@, index as int + 1);
                }
                return None;
            },
        }
        index += 1;
    }
    assert(assignments@.take(assignments@.len() as int) =~= assignments@);
    Some(block)
}

proof fn lemma_refused_stays_refused(assignments: Seq<(u32, Option<u32>)>, defaults: Seq<u32>, n: int)
    requires
        0 <= n <= assignments.len(),
        assigned(assignments.take(n), defaults) is None,
    ensures
        assigned(assignments, defaults) is None,
    decreases assignments.len() - n,
{
    if n < assignments.len() {
        assert(assignments.take(n + 1).drop_last() =~= assignments.take(n));
        lemma_refused_stays_refused(assignments, defaults, n + 1);
    } else {
        assert(assignments.take(n) =~= assignments);
    }
}

/// A board whose every assignment names a parameter and is accepted is
/// applied in full: loading it is never refused.
pub proof fn lemma_accepted_assignments_apply(assignments: Seq<(u32, Option<u32>)>, defaults: Seq<u32>)
    requires
        defaults.len() == PARAMETER_COUNT,
        forall|k: int|
            0 <= k < assignments.len() ==> (#[trigger] assignments[k]).0 < PARAMETER_COUNT && assignments[k].1 is Some,
    ensures
        assigned(assignments, defaults) is Some,
        assigned(assignments, defaults)->0.len() == defaults.len(),
    decreases assignments.len(),
{
    if assignments.len() > 0 {
        let rest = assignments.drop_last();
        assert forall|k: int| 0 <= k < rest.len() implies (#[trigger] rest[k]).0 < PARAMETER_COUNT && rest[k].1 is Some by {
            assert(rest[k] == assignments[k]);
        }
        lemma_accepted_assignments_apply(rest, defaults);
        assert(assignments.last() == assignments[assignments.len() - 1]);
    }
}

/// The factory boards, board by board: the identifier of each and the
/// assignments it makes, as (parameter index, value in thousandths of the
/// parameter's unit). Looking a board up by its identifier finds exactly
/// these assignments, and no two boards make the same ones.
pub proof fn lemma_factory_board_contents()
    ensures
        preset_table().len() == PRESET_COUNT,
        preset_table()[0].id@ == "clean-board"@,
        preset_table()[0].values@ == seq![(3u32, 1000i32), (5, 450), (6, 550), (7, 380), (35, 1000), (37, 300), (38, 500), (39, 180), (40, 0)],
        preset_table()[1].id@ == "blues-drive"@,
        preset_table()[1].values@ == seq![(3u32, 1000i32), (5, 350), (7, 360), (8, 1000), (10, 350), (11, 550), (12, 600), (35, 1000), (39, 150)],
        preset_table()[2].id@ == "rock-distortion"@,
        preset_table()[2].values@ == seq![(13u32, 1000i32), (15, 600), (16, 550), (17, 500), (28, 1000), (30, 120000), (31, 200), (32, 180), (33, 0)],
        preset_table()[3].id@ == "fuzz-lead"@,
        preset_table()[3].values@ == seq![(18u32, 1000i32), (20, 850), (21, 550), (22, 350), (28, 1000), (30, 420000), (31, 400), (32, 280), (35, 1000), (40, 1000), (37, 550), (39, 220)],
        preset_table()[4].id@ == "surf"@,
        preset_table()[4].values@ == seq![(3u32, 1000i32), (5, 300), (7, 350), (35, 1000), (40, 0), (37, 700), (38, 700), (39, 450)],
        preset_table()[5].id@ == "ambient-wash"@,
        preset_table()[5].values@ == seq![(23u32, 1000i32), (25, 500), (26, 600), (27, 500), (28, 1000), (30, 620000), (31, 550), (32, 350), (34, 800), (35, 1000), (40, 1000), (37, 850), (38, 400), (39, 400)],
        forall|k: int| 0 <= k < PRESET_COUNT && (#[trigger] preset_table()[k]).id@ == "clean-board"@ ==> preset_table()[k].values@
            == seq![(3u32, 1000i32), (5, 450), (6, 550), (7, 380), (35, 1000), (37, 300), (38, 500), (39, 180), (40, 0)],
        forall|k: int| 0 <= k < PRESET_COUNT && (#[trigger] preset_table()[k]).id@ == "blues-drive"@ ==> preset_table()[k].values@
            == seq![(3u32, 1000i32), (5, 350), (7, 360), (8, 1000), (10, 350), (11, 550), (12, 600), (35, 1000), (39, 150)],
        forall|k: int| 0 <= k < PRESET_COUNT && (#[trigger] preset_table()[k]).id@ == "rock-distortion"@ ==> preset_table()[k].values@
            == seq![(13u32, 1000i32), (15, 600), (16, 550), (17, 500), (28, 1000), (30, 120000), (31, 200), (32, 180), (33, 0)],
        forall|k: int| 0 <= k < PRESET_COUNT && (#[trigger] preset_table()[k]).id@ == "fuzz-lead"@ ==> preset_table()[k].values@
            == seq![(18u32, 1000i32), (20, 850), (21, 550), (22, 350), (28, 1000), (30, 420000), (31, 400), (32, 280), (35, 1000), (40, 1000), (37, 550), (39, 220)],
        forall|k: int| 0 <= k < PRESET_COUNT && (#[trigger] preset_table()[k]).id@ == "surf"@ ==> preset_table()[k].values@
            == seq![(3u32, 1000i32), (5, 300), (7, 350), (35, 1000), (40, 0), (37, 700), (38, 700), (39, 450)],
        forall|k: int| 0 <= k < PRESET_COUNT && (#[trigger] preset_table()[k]).id@ == "ambient-wash"@ ==> preset_table()[k].values@
            == seq![(23u32, 1000i32), (25, 500), (26, 600), (27, 500), (28, 1000), (30, 620000), (31, 550), (32, 350), (34, 800), (35, 1000), (40, 1000), (37, 850), (38, 400), (39, 400)],
        forall|i: int, j: int|
            0 <= i < j < PRESET_COUNT ==> (#[trigger] preset_table()[i]).values@ != (#[trigger] preset_table()[j]).values@,
{
    let t = preset_table();
    assert(t[0].values@ =~= seq![(3u32, 1000i32), (5, 450), (6, 550), (7, 380), (35, 1000), (37, 300), (38, 500), (39, 180), (40, 0)]);
    assert(t[1].values@ =~= seq![(3u32, 1000i32), (5, 350), (7, 360), (8, 1000), (10, 350), (11, 550), (12, 600), (35, 1000), (39, 150)]);
    assert(t[2].values@ =~= seq![(13u32, 1000i32), (15, 600), (16, 550), (17, 500), (28, 1000), (30, 120000), (31, 200), (32, 180), (33, 0)]);
    assert(t[3].values@ =~= seq![(18u32, 1000i32), (20, 850), (21, 550), (22, 350), (28, 1000), (30, 420000), (31, 400), (32, 280), (35, 1000), (40, 1000), (37, 550), (39, 220)]);
    assert(t[4].values@ =~= seq![(3u32, 1000i32), (5, 300), (7, 350), (35, 1000), (40, 0), (37, 700), (38, 700), (39, 450)]);
    assert(t[5].values@ =~= seq![(23u32, 1000i32), (25, 500), (26, 600), (27, 500), (28, 1000), (30, 620000), (31, 550), (32, 350), (34, 800), (35, 1000), (40, 1000), (37, 850), (38, 400), (39, 400)]);
    lemma_preset_identifiers_are_unique();
    reveal_strlit("clean-board");
    reveal_strlit("blues-drive");
    reveal_strlit("rock-distortion");
    reveal_strlit("fuzz-lead");
    reveal_strlit("surf");
    reveal_strlit("ambient-wash");
    assert forall|i: int, j: int| 0 <= i < j < PRESET_COUNT implies (#[trigger] t[i]).values@ != (#[trigger] t[j]).values@ by {
        assert(t[i].values@.len() != t[j].values@.len() || t[i].values@[0] != t[j].values@[0]
            || t[i].values@[1] != t[j].values@[1]);
    }
}

} // verus!
