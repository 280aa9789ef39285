//! What the package metadata publishes about the contract, beyond the
//! contract's own fields: the page headers, the flags of each parameter and
//! the names of its suggested control. Rendering it as JSON is the bench's
//! job.

use vstd::prelude::*;

use crate::contract::{Control, Kind};
use crate::pedal::{lemma_board_contents, pedal_table, pedals, PedalSpec, PEDAL_COUNT};
use crate::text::same_text;

verus! {

/// Version of the parameter schema document.
pub const PARAMETER_SCHEMA_VERSION: u32 = 1;
/// Version of the preset catalog document.
pub const PRESET_CATALOG_SCHEMA_VERSION: u32 = 1;
/// Version of the runtime descriptor document.
pub const RUNTIME_SCHEMA_VERSION: u32 = 1;

/// The name the schema gives a suggested control.
pub fn control(hint: Control) -> (name: &'static str)
    ensures
        name@ == hint.spec_name(),
{
    match hint {
        Control::Knob => "knob",
        Control::Toggle => "toggle",
        Control::List => "list",
    }
}

/// The flags the schema publishes for a parameter.
#[derive(Clone, Copy, PartialEq, Eq, Structural, Debug)]
pub struct ParameterFlags {
    pub automatable: bool,
    /// Only a continuous control is worth handing to a modulation source; a
    /// switch or a selector is not.
    pub modulatable: bool,
    pub read_only: bool,
    /// A pedal's slot on the board is an advanced setting.
    pub advanced: bool,
}

/// The flags of a parameter of this kind: every parameter can be automated
/// and written, continuous ones can be modulated, and whole-number ones are
/// advanced.
pub fn flags(kind: &Kind) -> (published: ParameterFlags)
    ensures
        published == (ParameterFlags {
            automatable: true,
            modulatable: kind is Float,
            read_only: false,
            advanced: kind is Integer,
        }),
{
    let modulatable = match kind {
        Kind::Float { .. } => true,
        _ => false,
    };
    let advanced = match kind {
        Kind::Integer { .. } => true,
        _ => false,
    };
    ParameterFlags { automatable: true, modulatable, read_only: false, advanced }
}

/// The header a page carries: the circuit family of the first pedal on it.
/// Publishing it through the schema lets the web surface describe a pedal
/// without keeping its own copy of the text.
pub fn page_header(page: &str) -> (header: Option<&'static str>)
    ensures
        header is None ==> forall|slot: int| 0 <= slot < PEDAL_COUNT ==> (#[trigger] pedal_table()[slot]).page@ != page@,
        header matches Some(text) ==> exists|slot: int|
            0 <= slot < PEDAL_COUNT && (#[trigger] pedal_table()[slot]).page@ == page@
                && text == pedal_table()[slot].circuit && forall|earlier: int|
                0 <= earlier < slot ==> (#[trigger] pedal_table()[earlier]).page@ != page@,
        forall|slot: int|
            0 <= slot < PEDAL_COUNT && (#[trigger] pedal_table()[slot]).page@ == page@ ==> header == Some(
                pedal_table()[slot].circuit,
            ),
{
    let table = pedals();
    let mut slot: usize = 0;
    while slot < PEDAL_COUNT
        invariant
            table@ == pedal_table(),
            0 <= slot <= PEDAL_COUNT,
            forall|earlier: int| 0 <= earlier < slot ==> (#[trigger] pedal_table()[earlier]).page@ != page@,
        decreases PEDAL_COUNT - slot,
    {
        let pedal: PedalSpec = table[slot];
        if same_text(pedal.page, page) {
            assert(pedal_table()[slot as int].page@ == page@);
            proof {
                lemma_board_contents();
            }
            assert forall|other: int|
                0 <= other < PEDAL_COUNT && (#[trigger] pedal_table()[other]).page@ == page@ implies other == slot by {
                if other < slot {
                    assert(pedal_table()[other].page@ != pedal_table()[slot as int].page@);
                } else if other > slot {
                    assert(pedal_table()[slot as int].page@ != pedal_table()[other].page@);
                }
            }
            return Some(pedal.circuit);
        }
        slot += 1;
    }
    None
}

} // verus!
