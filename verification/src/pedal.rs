//! The pedals on the board and the rule that turns their `position`
//! parameters into a signal chain.

use vstd::prelude::*;
use vstd::set_lib::*;

use crate::contract::{parameter_table, Control, Kind, PARAMETER_COUNT};
use crate::index::{
    CHORUS_DEPTH, CHORUS_ENGAGED, CHORUS_MIX, CHORUS_POSITION, CHORUS_RATE, COMP_ATTACK, COMP_ENGAGED,
    COMP_LEVEL, COMP_POSITION, COMP_SUSTAIN, DELAY_ENGAGED, DELAY_FEEDBACK, DELAY_MIX, DELAY_MODE,
    DELAY_POSITION, DELAY_TIME, DELAY_WIDTH, DIST_DISTORTION, DIST_ENGAGED, DIST_LEVEL, DIST_POSITION,
    DIST_TONE, DRIVE_DRIVE, DRIVE_ENGAGED, DRIVE_LEVEL, DRIVE_POSITION, DRIVE_TONE, FUZZ_ENGAGED,
    FUZZ_POSITION, FUZZ_SUSTAIN, FUZZ_TONE, FUZZ_VOLUME, REVERB_DECAY, REVERB_ENGAGED, REVERB_MIX,
    REVERB_MODE, REVERB_POSITION, REVERB_TONE,
};

verus! {

/// Number of pedal slots on the board.
pub const PEDAL_COUNT: usize = 7;

/// A pedal slot: its identity, the circuit family it models, and the
/// parameters that belong to it.
#[derive(Clone, Copy)]
pub struct PedalSpec {
    pub id: &'static str,
    pub name: &'static str,
    /// The circuit family this pedal is derived from. Descriptive, never a
    /// trademark: the board models topologies, not products.
    pub circuit: &'static str,
    pub page: &'static str,
    pub engaged: u32,
    pub position: u32,
    pub controls: &'static [u32],
}

pub const COMP_CONTROLS: [u32; 3] = [COMP_SUSTAIN, COMP_ATTACK, COMP_LEVEL];
pub const DRIVE_CONTROLS: [u32; 3] = [DRIVE_DRIVE, DRIVE_TONE, DRIVE_LEVEL];
pub const DIST_CONTROLS: [u32; 3] = [DIST_DISTORTION, DIST_TONE, DIST_LEVEL];
pub const FUZZ_CONTROLS: [u32; 3] = [FUZZ_SUSTAIN, FUZZ_TONE, FUZZ_VOLUME];
pub const CHORUS_CONTROLS: [u32; 3] = [CHORUS_RATE, CHORUS_DEPTH, CHORUS_MIX];
pub const DELAY_CONTROLS: [u32; 5] = [DELAY_TIME, DELAY_FEEDBACK, DELAY_MIX, DELAY_MODE, DELAY_WIDTH];
pub const REVERB_CONTROLS: [u32; 4] = [REVERB_DECAY, REVERB_TONE, REVERB_MIX, REVERB_MODE];

/// The pedals, in declaration order.
pub open spec fn pedal_table() -> Seq<PedalSpec> {
    seq![
        PedalSpec {
            id: "comp",
            name: "Compressor",
            circuit: "OTA feedback compressor with a peak detector",
            page: "comp",
            engaged: COMP_ENGAGED,
            position: COMP_POSITION,
            controls: &COMP_CONTROLS,
        },
        PedalSpec {
            id: "drive",
            name: "Overdrive",
            circuit: "Op-amp stage with symmetric diode clipping in the feedback loop",
            page: "drive",
            engaged: DRIVE_ENGAGED,
            position: DRIVE_POSITION,
            controls: &DRIVE_CONTROLS,
        },
        PedalSpec {
            id: "dist",
            name: "Distortion",
            circuit: "Transistor booster into an op-amp stage with hard clipping to ground",
            page: "dist",
            engaged: DIST_ENGAGED,
            position: DIST_POSITION,
            controls: &DIST_CONTROLS,
        },
        PedalSpec {
            id: "fuzz",
            name: "Fuzz",
            circuit: "Two cascaded feedback-clipping stages with a lowpass/highpass blend tone stack",
            page: "fuzz",
            engaged: FUZZ_ENGAGED,
            position: FUZZ_POSITION,
            controls: &FUZZ_CONTROLS,
        },
        PedalSpec {
            id: "chorus",
            name: "Chorus",
            circuit: "Bucket-brigade delay line with companding and a swept clock",
            page: "chorus",
            engaged: CHORUS_ENGAGED,
            position: CHORUS_POSITION,
            controls: &CHORUS_CONTROLS,
        },
        PedalSpec {
            id: "delay",
            name: "Delay",
            circuit: "Bucket-brigade echo with band-limited repeats, or a clean digital line",
            page: "delay",
            engaged: DELAY_ENGAGED,
            position: DELAY_POSITION,
            controls: &DELAY_CONTROLS,
        },
        PedalSpec {
            id: "reverb",
            name: "Reverb",
            circuit: "Dispersive spring tank or a feedback delay network plate",
            page: "reverb",
            engaged: REVERB_ENGAGED,
            position: REVERB_POSITION,
            controls: &REVERB_CONTROLS,
        },
    ]
}

/// The pedals, in declaration order.
pub fn pedals() -> (table: Vec<PedalSpec>)
    ensures
        table@ == pedal_table(),
{
    let mut table: Vec<PedalSpec> = Vec::new();
    table.push(PedalSpec {
        id: "comp",
        name: "Compressor",
        circuit: "OTA feedback compressor with a peak detector",
        page: "comp",
        engaged: COMP_ENGAGED,
        position: COMP_POSITION,
        controls: &COMP_CONTROLS,
    });
    table.push(PedalSpec {
        id: "drive",
        name: "Overdrive",
        circuit: "Op-amp stage with symmetric diode clipping in the feedback loop",
        page: "drive",
        engaged: DRIVE_ENGAGED,
        position: DRIVE_POSITION,
        controls: &DRIVE_CONTROLS,
    });
    table.push(PedalSpec {
        id: "dist",
        name: "Distortion",
        circuit: "Transistor booster into an op-amp stage with hard clipping to ground",
        page: "dist",
        engaged: DIST_ENGAGED,
        position: DIST_POSITION,
        controls: &DIST_CONTROLS,
    });
    table.push(PedalSpec {
        id: "fuzz",
        name: "Fuzz",
        circuit: "Two cascaded feedback-clipping stages with a lowpass/highpass blend tone stack",
        page: "fuzz",
        engaged: FUZZ_ENGAGED,
        position: FUZZ_POSITION,
        controls: &FUZZ_CONTROLS,
    });
    table.push(PedalSpec {
        id: "chorus",
        name: "Chorus",
        circuit: "Bucket-brigade delay line with companding and a swept clock",
        page: "chorus",
        engaged: CHORUS_ENGAGED,
        position: CHORUS_POSITION,
        controls: &CHORUS_CONTROLS,
    });
    table.push(PedalSpec {
        id: "delay",
        name: "Delay",
        circuit: "Bucket-brigade echo with band-limited repeats, or a clean digital line",
        page: "delay",
        engaged: DELAY_ENGAGED,
        position: DELAY_POSITION,
        controls: &DELAY_CONTROLS,
    });
    table.push(PedalSpec {
        id: "reverb",
        name: "Reverb",
        circuit: "Dispersive spring tank or a feedback delay network plate",
        page: "reverb",
        engaged: REVERB_ENGAGED,
        position: REVERB_POSITION,
        controls: &REVERB_CONTROLS,
    });
    assert(table@ =~= pedal_table());
    table
}

/// `pedal` owns parameter `index`: its footswitch, its position or one of its
/// controls.
pub open spec fn owns(pedal: PedalSpec, index: int) -> bool {
    ||| pedal.engaged == index
    ||| pedal.position == index
    ||| pedal.controls@.contains(index as u32)
}

/// `a` comes before `b` in the chain: a lower position, or the same position
/// and an earlier declaration.
pub open spec fn runs_before(positions: Seq<i64>, a: int, b: int) -> bool {
    ||| positions[a] < positions[b]
    ||| (positions[a] == positions[b] && a < b)
}

/// `order` is the chain that `positions` describe: every slot once, sorted by
/// position, ties broken by declaration order.
pub open spec fn is_chain_order(positions: Seq<i64>, order: Seq<usize>) -> bool {
    &&& order.len() == PEDAL_COUNT
    &&& forall|i: int| 0 <= i < PEDAL_COUNT ==> #[trigger] order[i] < PEDAL_COUNT
    &&& forall|i: int, j: int|
        0 <= i < j < PEDAL_COUNT ==> runs_before(positions, #[trigger] order[i] as int, #[trigger] order[j] as int)
}

/// Resolves the board order. `positions[slot]` is the value of that pedal's
/// `position` parameter. Pedals are sorted by it; equal positions keep
/// declaration order, so a collision degrades into a stable chain.
pub fn chain_order(positions: &[i64; PEDAL_COUNT]) -> (order: [usize; PEDAL_COUNT])
    ensures
        is_chain_order(positions@, order@),
{
    let mut order = [0usize; PEDAL_COUNT];
    let mut slot: usize = 0;
    while slot < PEDAL_COUNT
        invariant
            0 <= slot <= PEDAL_COUNT,
            forall|k: int| 0 <= k < slot ==> order@[k] == k,
        decreases PEDAL_COUNT - slot,
    {
        order[slot] = slot;
        slot += 1;
    }
    // Insertion sort: the pass is allocation-free and naturally stable.
    let mut index: usize = 1;
    while index < PEDAL_COUNT
        invariant
            1 <= index <= PEDAL_COUNT,
            forall|k: int| index <= k < PEDAL_COUNT ==> order@[k] == k,
            forall|k: int| 0 <= k < index ==> #[trigger] order@[k] < index,
            forall|i: int, j: int|
                0 <= i < j < index ==> runs_before(positions@, #[trigger] order@[i] as int, #[trigger] order@[j] as int),
        decreases PEDAL_COUNT - index,
    {
        let ghost before = order@;
        let candidate = order[index];
        let candidate_key = positions[candidate];
        let mut scan: usize = index;
        while scan > 0
            invariant
                1 <= index < PEDAL_COUNT,
                0 <= scan <= index,
                candidate == index,
                candidate_key == positions@[candidate as int],
                before.len() == PEDAL_COUNT,
                order@.len() == PEDAL_COUNT,
                forall|k: int| 0 <= k < index ==> #[trigger] before[k] < index,
                forall|k: int| index <= k < PEDAL_COUNT ==> before[k] == k,
                forall|i: int, j: int|
                    0 <= i < j < index ==> runs_before(positions@, #[trigger] before[i] as int, #[trigger] before[j] as int),
                forall|k: int| index < k < PEDAL_COUNT ==> order@[k] == before[k],
                forall|k: int| 0 <= k <= scan ==> order@[k] == before[k],
                forall|k: int| scan < k <= index ==> order@[k] == before[k - 1],
                forall|k: int|
                    scan < k <= index ==> runs_before(positions@, candidate as int, #[trigger] order@[k] as int),
            ensures
                0 <= scan <= index,
                forall|k: int| index < k < PEDAL_COUNT ==> order@[k] == before[k],
                forall|k: int| 0 <= k < scan ==> order@[k] == before[k],
                forall|k: int| scan < k <= index ==> order@[k] == before[k - 1],
                forall|k: int|
                    scan < k <= index ==> runs_before(positions@, candidate as int, #[trigger] order@[k] as int),
                scan > 0 ==> positions@[before[scan - 1] as int] <= candidate_key,
            decreases scan,
        {
            let previous = order[scan - 1];
            assert(previous == before[scan - 1]);
            assert(previous < index);
            if positions[previous] <= candidate_key {
                break;
            }
            order[scan] = previous;
            scan -= 1;
        }
        order[scan] = candidate;
        proof {
            assert forall|i: int, j: int|
                0 <= i < j < index + 1 implies runs_before(positions@, #[trigger] order@[i] as int, #[trigger] order@[j] as int) by {
                if j < scan {
                    assert(order@[i] == before[i] && order@[j] == before[j]);
                } else if j == scan {
                    assert(order@[j] == candidate);
                    assert(order@[i] == before[i]);
                    assert(before[scan - 1] < index);
                    assert(positions@[before[scan - 1] as int] <= candidate_key);
                    assert(runs_before(positions@, before[scan - 1] as int, candidate as int));
                    if i < scan - 1 {
                        assert(runs_before(positions@, before[i] as int, before[scan - 1] as int));
                    }
                } else if i == scan {
                    assert(order@[i] == candidate);
                } else if i < scan {
                    assert(order@[i] == before[i]);
                    assert(order@[j] == before[j - 1]);
                    assert(runs_before(positions@, before[i] as int, before[j - 1] as int));
                } else {
                    assert(order@[i] == before[i - 1]);
                    assert(order@[j] == before[j - 1]);
                    assert(runs_before(positions@, before[i - 1] as int, before[j - 1] as int));
                }
            }
        }
        proof {
            assert forall|k: int| index < k < PEDAL_COUNT implies order@[k] == k by {
                assert(order@[k] == before[k]);
            }
            assert forall|k: int| 0 <= k < index + 1 implies #[trigger] order@[k] < index + 1 by {
                if k < scan {
                    assert(order@[k] == before[k]);
                } else if k > scan {
                    assert(order@[k] == before[k - 1]);
                }
            }
        }
        index += 1;
    }
    order
}

/// `slot` stands somewhere in `order`.
pub open spec fn holds_slot(order: Seq<usize>, slot: int) -> bool {
    exists|i: int| 0 <= i < order.len() && order[i] == slot
}

/// Every pedal stands in the chain exactly once: the chain is a permutation
/// of the slots.
pub proof fn lemma_chain_holds_every_pedal(positions: Seq<i64>, order: Seq<usize>)
    requires
        positions.len() == PEDAL_COUNT,
        is_chain_order(positions, order),
    ensures
        forall|slot: int| 0 <= slot < PEDAL_COUNT ==> #[trigger] holds_slot(order, slot),
        forall|i: int, j: int| 0 <= i < PEDAL_COUNT && 0 <= j < PEDAL_COUNT && i != j ==> order[i] != order[j],
{
    let slots = order.map_values(|x: usize| x as int);
    assert forall|i: int, j: int| 0 <= i < PEDAL_COUNT && 0 <= j < PEDAL_COUNT && i != j implies order[i] != order[j] by {
        if i < j {
            assert(runs_before(positions, order[i] as int, order[j] as int));
        } else {
            assert(runs_before(positions, order[j] as int, order[i] as int));
        }
    }
    assert(slots.no_duplicates());
    slots.unique_seq_to_set();
    lemma_int_range(0, PEDAL_COUNT as int);
    assert(slots.to_set().subset_of(set_int_range(0, PEDAL_COUNT as int)));
    lemma_subset_equality(slots.to_set(), set_int_range(0, PEDAL_COUNT as int));
    assert forall|slot: int| 0 <= slot < PEDAL_COUNT implies #[trigger] holds_slot(order, slot) by {
        assert(set_int_range(0, PEDAL_COUNT as int).contains(slot));
        assert(slots.to_set().contains(slot));
        let i = choose|i: int| 0 <= i < slots.len() && slots[i] == slot;
        assert(order[i] == slot);
    }
}

proof fn lemma_chains_agree_below(positions: Seq<i64>, first: Seq<usize>, second: Seq<usize>, n: int)
    requires
        0 <= n <= PEDAL_COUNT,
        positions.len() == PEDAL_COUNT,
        is_chain_order(positions, first),
        is_chain_order(positions, second),
    ensures
        forall|k: int| 0 <= k < n ==> first[k] == second[k],
    decreases n,
{
    if n > 0 {
        lemma_chains_agree_below(positions, first, second, n - 1);
        lemma_chain_holds_every_pedal(positions, first);
        lemma_chain_holds_every_pedal(positions, second);
        let i = n - 1;
        let a = first[i];
        let b = second[i];
        if a != b {
            // `b` sits later in `first`, and `a` sits later in `second`.
            assert(holds_slot(first, b as int));
            assert(holds_slot(second, a as int));
            let j1 = choose|j: int| 0 <= j < first.len() && first[j] == b;
            let j2 = choose|j: int| 0 <= j < second.len() && second[j] == a;
            if j1 < i {
                assert(second[j1] == b);
                assert(false);
            }
            if j2 < i {
                assert(first[j2] == a);
                assert(false);
            }
            assert(runs_before(positions, a as int, b as int));
            assert(runs_before(positions, b as int, a as int));
            assert(false);
        }
    }
}

/// The positions alone decide the chain: two orders that both satisfy
/// [`is_chain_order`] for the same positions are the same order.
pub proof fn lemma_chain_order_is_unique(positions: Seq<i64>, first: Seq<usize>, second: Seq<usize>)
    requires
        positions.len() == PEDAL_COUNT,
        is_chain_order(positions, first),
        is_chain_order(positions, second),
    ensures
        first == second,
{
    lemma_chains_agree_below(positions, first, second, PEDAL_COUNT as int);
    assert(first =~= second);
}

/// Positions that never decrease from one declared slot to the next leave
/// the board in declaration order; in particular, when every pedal shares one
/// position the chain falls back to declaration order.
pub proof fn lemma_ordered_positions_keep_declaration_order(positions: Seq<i64>, order: Seq<usize>)
    requires
        positions.len() == PEDAL_COUNT,
        forall|a: int, b: int| 0 <= a <= b < PEDAL_COUNT ==> positions[a] <= positions[b],
        is_chain_order(positions, order),
    ensures
        forall|i: int| 0 <= i < PEDAL_COUNT ==> order[i] == i,
{
    let identity = Seq::new(PEDAL_COUNT as nat, |i: int| i as usize);
    assert(is_chain_order(positions, identity));
    lemma_chain_order_is_unique(positions, order, identity);
}

proof fn lemma_pedal_controls()
    ensures
        pedal_table().len() == PEDAL_COUNT,
        pedal_table()[0].controls@ == seq![5u32, 6, 7],
        pedal_table()[1].controls@ == seq![10u32, 11, 12],
        pedal_table()[2].controls@ == seq![15u32, 16, 17],
        pedal_table()[3].controls@ == seq![20u32, 21, 22],
        pedal_table()[4].controls@ == seq![25u32, 26, 27],
        pedal_table()[5].controls@ == seq![30u32, 31, 32, 33, 34],
        pedal_table()[6].controls@ == seq![37u32, 38, 39, 40],
{
    assert(pedal_table()[0].controls@ =~= seq![5u32, 6, 7]);
    assert(pedal_table()[1].controls@ =~= seq![10u32, 11, 12]);
    assert(pedal_table()[2].controls@ =~= seq![15u32, 16, 17]);
    assert(pedal_table()[3].controls@ =~= seq![20u32, 21, 22]);
    assert(pedal_table()[4].controls@ =~= seq![25u32, 26, 27]);
    assert(pedal_table()[5].controls@ =~= seq![30u32, 31, 32, 33, 34]);
    assert(pedal_table()[6].controls@ =~= seq![37u32, 38, 39, 40]);
}

/// The first and the last index of the block of consecutive parameters that
/// pedal `slot` owns, from its footswitch to its last control.
pub open spec fn block_of(slot: int) -> (int, int) {
    if slot == 0 {
        (3, 7)
    } else if slot == 1 {
        (8, 12)
    } else if slot == 2 {
        (13, 17)
    } else if slot == 3 {
        (18, 22)
    } else if slot == 4 {
        (23, 27)
    } else if slot == 5 {
        (28, 34)
    } else {
        (35, 40)
    }
}

proof fn lemma_owns_is_block(slot: int, index: int)
    requires
        0 <= slot < PEDAL_COUNT,
        0 <= index < PARAMETER_COUNT,
    ensures
        owns(pedal_table()[slot], index) <==> block_of(slot).0 <= index <= block_of(slot).1,
{
    lemma_pedal_controls();
    let c = pedal_table()[slot].controls@;
    if block_of(slot).0 + 2 <= index <= block_of(slot).1 {
        assert(c[index - block_of(slot).0 - 2] == index as u32);
    }
    if c.contains(index as u32) {
        let k = choose|k: int| 0 <= k < c.len() && c[k] == index as u32;
        assert(block_of(slot).0 <= index <= block_of(slot).1);
    }
}

/// Every parameter that is not on the rig page belongs to exactly one pedal,
/// and every parameter a pedal owns is inside the contract and on that
/// pedal's page.
pub proof fn lemma_every_pedal_parameter_has_one_owner(index: int)
    requires
        0 <= index < PARAMETER_COUNT,
    ensures
        parameter_table()[index].page@ != "rig"@ ==> exists|slot: int|
            0 <= slot < PEDAL_COUNT && #[trigger] owns(pedal_table()[slot], index),
        forall|a: int, b: int|
            0 <= a < PEDAL_COUNT && 0 <= b < PEDAL_COUNT && #[trigger] owns(pedal_table()[a], index)
                && #[trigger] owns(pedal_table()[b], index) ==> a == b,
        forall|slot: int|
            0 <= slot < PEDAL_COUNT && #[trigger] owns(pedal_table()[slot], index)
                ==> parameter_table()[index].page == pedal_table()[slot].page,
{
    reveal_strlit("rig");
    reveal_strlit("comp");
    reveal_strlit("drive");
    reveal_strlit("dist");
    reveal_strlit("fuzz");
    reveal_strlit("chorus");
    reveal_strlit("delay");
    reveal_strlit("reverb");
    assert forall|slot: int| 0 <= slot < PEDAL_COUNT implies
        (#[trigger] owns(pedal_table()[slot], index) <==> block_of(slot).0 <= index <= block_of(slot).1) by {
        lemma_owns_is_block(slot, index);
    }
    if parameter_table()[index].page@ != "rig"@ {
        let slot = if index <= 7 { 0int } else if index <= 12 { 1 } else if index <= 17 { 2 } else if index
            <= 22 { 3 } else if index <= 27 { 4 } else if index <= 34 { 5 } else { 6 };
        assert(owns(pedal_table()[slot], index));
    }
}

/// The two conventions every surface relies on: a pedal's `engaged`
/// parameter is its footswitch, off by default, and its `position`
/// parameter is its slot on the board, from 1 to the number of pedals, with
/// the pedals declared in the order their default slots give.
pub proof fn lemma_footswitches_and_positions()
    ensures
        forall|slot: int|
            0 <= slot < PEDAL_COUNT ==> {
                &&& (#[trigger] pedal_table()[slot]).engaged < PARAMETER_COUNT
                &&& pedal_table()[slot].position < PARAMETER_COUNT
                &&& parameter_table()[pedal_table()[slot].engaged as int].kind == Kind::Boolean { default: false }
                &&& parameter_table()[pedal_table()[slot].engaged as int].control == Control::Toggle
                &&& parameter_table()[pedal_table()[slot].position as int].kind == Kind::Integer {
                    minimum: 1,
                    maximum: PEDAL_COUNT as i32,
                    default: (slot + 1) as i32,
                }
                &&& parameter_table()[pedal_table()[slot].position as int].control == Control::List
            },
{
    let pedals = pedal_table();
    let table = parameter_table();
    assert forall|slot: int| 0 <= slot < PEDAL_COUNT implies {
        &&& (#[trigger] pedal_table()[slot]).engaged < PARAMETER_COUNT
        &&& pedal_table()[slot].position < PARAMETER_COUNT
        &&& parameter_table()[pedal_table()[slot].engaged as int].kind == Kind::Boolean { default: false }
        &&& parameter_table()[pedal_table()[slot].engaged as int].control == Control::Toggle
        &&& parameter_table()[pedal_table()[slot].position as int].kind == Kind::Integer {
            minimum: 1,
            maximum: PEDAL_COUNT as i32,
            default: (slot + 1) as i32,
        }
        &&& parameter_table()[pedal_table()[slot].position as int].control == Control::List
    } by {
        assert(table[pedals[slot].engaged as int].index == pedals[slot].engaged);
    }
}

/// The positions every pedal starts at.
pub open spec fn default_positions() -> Seq<i64> {
    Seq::new(
        PEDAL_COUNT as nat,
        |slot: int|
            match parameter_table()[pedal_table()[slot].position as int].kind {
                Kind::Integer { default, .. } => default as i64,
                _ => 0,
            },
    )
}

/// A board at its defaults runs in declaration order.
pub proof fn lemma_default_board_keeps_declaration_order(order: Seq<usize>)
    requires
        is_chain_order(default_positions(), order),
    ensures
        forall|i: int| 0 <= i < PEDAL_COUNT ==> order[i] == i,
{
    lemma_footswitches_and_positions();
    let positions = default_positions();
    assert forall|slot: int| 0 <= slot < PEDAL_COUNT implies positions[slot] == slot + 1 by {
        assert(pedal_table()[slot] == pedal_table()[slot]);
    }
    lemma_ordered_positions_keep_declaration_order(positions, order);
}

/// The board, pedal by pedal: identifier, name, editor page and circuit
/// family, the footswitch and position parameters, and the controls. Every
/// pedal has a page of its own, so the header a page publishes is the
/// circuit of the one pedal on it.
pub proof fn lemma_board_contents()
    ensures
        pedal_table().len() == PEDAL_COUNT,
        pedal_table()[0].id@ == "comp"@ && pedal_table()[0].name@ == "Compressor"@ && pedal_table()[0].page@ == "comp"@,
        pedal_table()[0].circuit@ == "OTA feedback compressor with a peak detector"@,
        pedal_table()[0].engaged == 3 && pedal_table()[0].position == 4 && pedal_table()[0].controls@ == seq![5u32, 6, 7],
        pedal_table()[1].id@ == "drive"@ && pedal_table()[1].name@ == "Overdrive"@ && pedal_table()[1].page@ == "drive"@,
        pedal_table()[1].circuit@ == "Op-amp stage with symmetric diode clipping in the feedback loop"@,
        pedal_table()[1].engaged == 8 && pedal_table()[1].position == 9 && pedal_table()[1].controls@ == seq![10u32, 11, 12],
        pedal_table()[2].id@ == "dist"@ && pedal_table()[2].name@ == "Distortion"@ && pedal_table()[2].page@ == "dist"@,
        pedal_table()[2].circuit@ == "Transistor booster into an op-amp stage with hard clipping to ground"@,
        pedal_table()[2].engaged == 13 && pedal_table()[2].position == 14 && pedal_table()[2].controls@ == seq![15u32, 16, 17],
        pedal_table()[3].id@ == "fuzz"@ && pedal_table()[3].name@ == "Fuzz"@ && pedal_table()[3].page@ == "fuzz"@,
        pedal_table()[3].circuit@ == "Two cascaded feedback-clipping stages with a lowpass/highpass blend tone stack"@,
        pedal_table()[3].engaged == 18 && pedal_table()[3].position == 19 && pedal_table()[3].controls@ == seq![20u32, 21, 22],
        pedal_table()[4].id@ == "chorus"@ && pedal_table()[4].name@ == "Chorus"@ && pedal_table()[4].page@ == "chorus"@,
        pedal_table()[4].circuit@ == "Bucket-brigade delay line with companding and a swept clock"@,
        pedal_table()[4].engaged == 23 && pedal_table()[4].position == 24 && pedal_table()[4].controls@ == seq![25u32, 26, 27],
        pedal_table()[5].id@ == "delay"@ && pedal_table()[5].name@ == "Delay"@ && pedal_table()[5].page@ == "delay"@,
        pedal_table()[5].circuit@ == "Bucket-brigade echo with band-limited repeats, or a clean digital line"@,
        pedal_table()[5].engaged == 28 && pedal_table()[5].position == 29 && pedal_table()[5].controls@ == seq![30u32, 31, 32, 33, 34],
        pedal_table()[6].id@ == "reverb"@ && pedal_table()[6].name@ == "Reverb"@ && pedal_table()[6].page@ == "reverb"@,
        pedal_table()[6].circuit@ == "Dispersive spring tank or a feedback delay network plate"@,
        pedal_table()[6].engaged == 35 && pedal_table()[6].position == 36 && pedal_table()[6].controls@ == seq![37u32, 38, 39, 40],
        forall|i: int, j: int|
            0 <= i < j < PEDAL_COUNT ==> (#[trigger] pedal_table()[i]).page@ != (#[trigger] pedal_table()[j]).page@,
{
    lemma_pedal_controls();
    reveal_strlit("comp");
    reveal_strlit("drive");
    reveal_strlit("dist");
    reveal_strlit("fuzz");
    reveal_strlit("chorus");
    reveal_strlit("delay");
    reveal_strlit("reverb");
    let t = pedal_table();
    assert forall|i: int, j: int| 0 <= i < j < PEDAL_COUNT implies (#[trigger] t[i]).page@ != (#[trigger] t[j]).page@ by {
        assert(t[i].page@.len() != t[j].page@.len() || t[i].page@[0] != t[j].page@[0] || t[i].page@[1] != t[j].page@[1]);
    }
}

} // verus!
