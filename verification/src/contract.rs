//! The public contract: every parameter the host can see, the pages they are
//! grouped on, and the rules that decide which values a parameter accepts.
//!
//! Nothing here performs audio work. The engine reads this table, the packager
//! renders the host's parameter schema from it, and the web surface receives
//! the same schema back from the host, so the three can never drift apart.
//!
//! Every number a continuous parameter declares (its range, default and step)
//! is written here in thousandths of its unit: each of them is a decimal with
//! at most three places, so the table holds them exactly.

use vstd::prelude::*;

verus! {

/// Number of public parameters. Also the length of the state block in words.
pub const PARAMETER_COUNT: usize = 42;

/// Parameter counts of earlier layouts of the state block. Parameters are
/// only ever appended, so a shorter block is an older layout, not a
/// corruption.
pub const PREVIOUS_PARAMETER_COUNTS: [usize; 1] = [41];

/// Number of editor pages.
pub const PAGE_COUNT: usize = 8;

/// An editor page. RackForge renders pages in `order`; the web surface uses
/// the same identifiers to group its pedal panels.
#[derive(Clone, Copy)]
pub struct PageSpec {
    pub id: &'static str,
    pub name: &'static str,
    pub order: i32,
}

/// The editor pages, in order.
pub open spec fn page_table() -> Seq<PageSpec> {
    seq![
        PageSpec { id: "rig", name: "Rig", order: 0 },
        PageSpec { id: "comp", name: "Compressor", order: 1 },
        PageSpec { id: "drive", name: "Overdrive", order: 2 },
        PageSpec { id: "dist", name: "Distortion", order: 3 },
        PageSpec { id: "fuzz", name: "Fuzz", order: 4 },
        PageSpec { id: "chorus", name: "Chorus", order: 5 },
        PageSpec { id: "delay", name: "Delay", order: 6 },
        PageSpec { id: "reverb", name: "Reverb", order: 7 },
    ]
}

/// The editor pages.
pub fn pages() -> (table: Vec<PageSpec>)
    ensures
        table@ == page_table(),
{
    let mut table: Vec<PageSpec> = Vec::new();
    table.push(PageSpec { id: "rig", name: "Rig", order: 0 });
    table.push(PageSpec { id: "comp", name: "Compressor", order: 1 });
    table.push(PageSpec { id: "drive", name: "Overdrive", order: 2 });
    table.push(PageSpec { id: "dist", name: "Distortion", order: 3 });
    table.push(PageSpec { id: "fuzz", name: "Fuzz", order: 4 });
    table.push(PageSpec { id: "chorus", name: "Chorus", order: 5 });
    table.push(PageSpec { id: "delay", name: "Delay", order: 6 });
    table.push(PageSpec { id: "reverb", name: "Reverb", order: 7 });
    assert(table@ =~= page_table());
    table
}

/// Choices of the delay's mode selector.
pub const DELAY_MODE_CHOICES: [&'static str; 2] = ["Analog (BBD)", "Digital"];
/// Choices of the reverb's mode selector.
pub const REVERB_MODE_CHOICES: [&'static str; 2] = ["Spring", "Plate"];
/// Choices of the rig's source selector.
pub const RIG_SOURCE_CHOICES: [&'static str; 3] = ["Buffered", "Single Coil", "Humbucker"];

/// The parameter kinds RF-Rig uses: a deliberate subset of the host's
/// parameter schema, with no triggers and no meters.
#[derive(Clone, Copy)]
#[allow(inconsistent_fields)]
pub enum Kind {
    /// A continuous control. Range, default and step are in thousandths of
    /// `unit`.
    Float {
        minimum: i32,
        maximum: i32,
        default: i32,
        step: i32,
        unit: Option<&'static str>,
    },
    /// A switch: stored as 0 or 1.
    Boolean {
        default: bool,
    },
    /// A whole number between two bounds.
    Integer {
        minimum: i32,
        maximum: i32,
        default: i32,
    },
    /// A selector: stored as the index of the choice.
    Enum {
        default: u32,
        choices: &'static [&'static str],
    },
}

/// Control hint published to RackForge surfaces.
#[derive(Clone, Copy, PartialEq, Eq, Structural, Debug)]
pub enum Control {
    Knob,
    Toggle,
    List,
}

impl Control {
    /// The identifier the host schema uses for this control.
    pub open spec fn spec_name(self) -> Seq<char> {
        match self {
            Control::Knob => "knob"@,
            Control::Toggle => "toggle"@,
            Control::List => "list"@,
        }
    }

    pub fn as_str(self) -> (name: &'static str)
        ensures
            name@ == self.spec_name(),
    {
        match self {
            Control::Knob => "knob",
            Control::Toggle => "toggle",
            Control::List => "list",
        }
    }
}

/// One parameter of the contract.
#[derive(Clone, Copy)]
pub struct ParameterSpec {
    pub index: u32,
    pub id: &'static str,
    pub name: &'static str,
    pub page: &'static str,
    pub order: i32,
    pub kind: Kind,
    pub control: Control,
}

/// The value a kind starts at, in thousandths: a switch is 0 or 1, a
/// position or a selection is its number.
pub open spec fn default_thousandths(kind: Kind) -> int {
    match kind {
        Kind::Float { default, .. } => default as int,
        Kind::Boolean { default } => if default { 1000 } else { 0 },
        Kind::Integer { default, .. } => default * 1000,
        Kind::Enum { default, .. } => default * 1000,
    }
}

/// Whether a whole value is inside what a switch, a position or a selector
/// declares.
pub open spec fn accepts_whole(kind: Kind, whole: int) -> bool {
    match kind {
        Kind::Float { .. } => false,
        Kind::Boolean { .. } => whole == 0 || whole == 1,
        Kind::Integer { minimum, maximum, .. } => minimum <= whole <= maximum,
        Kind::Enum { choices, .. } => 0 <= whole < choices@.len(),
    }
}

impl ParameterSpec {
    /// The value a parameter starts at, in thousandths of its unit.
    pub fn default_value(&self) -> (value: i64)
        ensures
            value == default_thousandths(self.kind),
    {
        match self.kind {
            Kind::Float { default, .. } => default as i64,
            Kind::Boolean { default } => {
                if default {
                    1000
                } else {
                    0
                }
            },
            Kind::Integer { default, .. } => default as i64 * 1000,
            Kind::Enum { default, .. } => default as i64 * 1000,
        }
    }

    /// The canonical stored value of a switch, a position or a selector, given
    /// a whole host value, or `None` when the value is outside what the
    /// parameter declares (always, for a continuous parameter). The host validates first; this is the engine's own
    /// guard so a broken caller cannot poison the audio thread.
    pub fn canonicalize_whole(&self, whole: i64) -> (canonical: Option<i64>)
        ensures
            canonical == (if accepts_whole(self.kind, whole as int) { Some(whole) } else { None::<i64> }),
            canonical_of(self.kind, whole as int) == (match canonical {
                Some(c) => Some(c as int),
                None => None,
            }),
    {
        match self.kind {
            Kind::Float { .. } => None,
            Kind::Boolean { .. } => {
                if whole == 0 || whole == 1 {
                    Some(whole)
                } else {
                    None
                }
            },
            Kind::Integer { minimum, maximum, .. } => {
                if whole >= minimum as i64 && whole <= maximum as i64 {
                    Some(whole)
                } else {
                    None
                }
            },
            Kind::Enum { choices, .. } => {
                if whole >= 0 && (whole as u64) < (choices.len() as u64) {
                    Some(whole)
                } else {
                    None
                }
            },
        }
    }
}

/// A continuous parameter with its own range and unit.
pub open spec fn spec_ranged(
    index: u32,
    id: &'static str,
    name: &'static str,
    page: &'static str,
    order: i32,
    minimum: i32,
    maximum: i32,
    default: i32,
    step: i32,
    unit: &'static str,
) -> ParameterSpec {
    ParameterSpec {
        index,
        id,
        name,
        page,
        order,
        kind: Kind::Float { minimum, maximum, default, step, unit: Some(unit) },
        control: Control::Knob,
    }
}

/// A unitless knob from 0 to 1 in steps of a thousandth.
pub open spec fn spec_knob(
    index: u32,
    id: &'static str,
    name: &'static str,
    page: &'static str,
    order: i32,
    default: i32,
) -> ParameterSpec {
    ParameterSpec {
        index,
        id,
        name,
        page,
        order,
        kind: Kind::Float { minimum: 0, maximum: 1000, default, step: 1, unit: None },
        control: Control::Knob,
    }
}

/// A pedal's footswitch, off by default.
pub open spec fn spec_footswitch(index: u32, id: &'static str, page: &'static str) -> ParameterSpec {
    ParameterSpec {
        index,
        id,
        name: "Engaged",
        page,
        order: 0,
        kind: Kind::Boolean { default: false },
        control: Control::Toggle,
    }
}

/// A pedal's slot on the board, from 1 to the number of pedals.
pub open spec fn spec_position(index: u32, id: &'static str, page: &'static str, default: i32) -> ParameterSpec {
    ParameterSpec {
        index,
        id,
        name: "Board Position",
        page,
        order: 1,
        kind: Kind::Integer { minimum: 1, maximum: 7, default },
        control: Control::List,
    }
}

/// A selector between named choices.
pub open spec fn spec_selector(
    index: u32,
    id: &'static str,
    name: &'static str,
    page: &'static str,
    order: i32,
    default: u32,
    choices: &'static [&'static str],
) -> ParameterSpec {
    ParameterSpec { index, id, name, page, order, kind: Kind::Enum { default, choices }, control: Control::List }
}

fn ranged(
    index: u32,
    id: &'static str,
    name: &'static str,
    page: &'static str,
    order: i32,
    minimum: i32,
    maximum: i32,
    default: i32,
    step: i32,
    unit: &'static str,
) -> (spec: ParameterSpec)
    ensures
        spec == spec_ranged(index, id, name, page, order, minimum, maximum, default, step, unit),
{
    ParameterSpec {
        index,
        id,
        name,
        page,
        order,
        kind: Kind::Float { minimum, maximum, default, step, unit: Some(unit) },
        control: Control::Knob,
    }
}

fn knob(
    index: u32,
    id: &'static str,
    name: &'static str,
    page: &'static str,
    order: i32,
    default: i32,
) -> (spec: ParameterSpec)
    ensures
        spec == spec_knob(index, id, name, page, order, default),
{
    ParameterSpec {
        index,
        id,
        name,
        page,
        order,
        kind: Kind::Float { minimum: 0, maximum: 1000, default, step: 1, unit: None },
        control: Control::Knob,
    }
}

fn footswitch(index: u32, id: &'static str, page: &'static str) -> (spec: ParameterSpec)
    ensures
        spec == spec_footswitch(index, id, page),
{
    ParameterSpec {
        index,
        id,
        name: "Engaged",
        page,
        order: 0,
        kind: Kind::Boolean { default: false },
        control: Control::Toggle,
    }
}

fn position(index: u32, id: &'static str, page: &'static str, default: i32) -> (spec: ParameterSpec)
    ensures
        spec == spec_position(index, id, page, default),
{
    ParameterSpec {
        index,
        id,
        name: "Board Position",
        page,
        order: 1,
        kind: Kind::Integer { minimum: 1, maximum: 7, default },
        control: Control::List,
    }
}

fn selector(
    index: u32,
    id: &'static str,
    name: &'static str,
    page: &'static str,
    order: i32,
    default: u32,
    choices: &'static [&'static str],
) -> (spec: ParameterSpec)
    ensures
        spec == spec_selector(index, id, name, page, order, default, choices),
{
    ParameterSpec { index, id, name, page, order, kind: Kind::Enum { default, choices }, control: Control::List }
}

/// Every parameter, by index.
pub open spec fn parameter_table() -> Seq<ParameterSpec> {
    seq![
        spec_ranged(0, "rig.input", "Input Trim", "rig", 0, -24000i32, 24000, 0, 100, "dB"),
        spec_ranged(1, "rig.output", "Output Level", "rig", 1, -24000i32, 24000, 0, 100, "dB"),
        spec_ranged(2, "rig.gate", "Noise Gate", "rig", 2, -90000i32, -20000i32, -90000i32, 500, "dBFS"),
        spec_footswitch(3, "comp.engaged", "comp"),
        spec_position(4, "comp.position", "comp", 1),
        spec_knob(5, "comp.sustain", "Sustain", "comp", 2, 500),
        spec_knob(6, "comp.attack", "Attack", "comp", 3, 500),
        spec_knob(7, "comp.level", "Level", "comp", 4, 500),
        spec_footswitch(8, "drive.engaged", "drive"),
        spec_position(9, "drive.position", "drive", 2),
        spec_knob(10, "drive.drive", "Drive", "drive", 2, 500),
        spec_knob(11, "drive.tone", "Tone", "drive", 3, 500),
        spec_knob(12, "drive.level", "Level", "drive", 4, 500),
        spec_footswitch(13, "dist.engaged", "dist"),
        spec_position(14, "dist.position", "dist", 3),
        spec_knob(15, "dist.distortion", "Distortion", "dist", 2, 500),
        spec_knob(16, "dist.tone", "Tone", "dist", 3, 500),
        spec_knob(17, "dist.level", "Level", "dist", 4, 500),
        spec_footswitch(18, "fuzz.engaged", "fuzz"),
        spec_position(19, "fuzz.position", "fuzz", 4),
        spec_knob(20, "fuzz.sustain", "Sustain", "fuzz", 2, 600),
        spec_knob(21, "fuzz.tone", "Tone", "fuzz", 3, 500),
        spec_knob(22, "fuzz.volume", "Volume", "fuzz", 4, 400),
        spec_footswitch(23, "chorus.engaged", "chorus"),
        spec_position(24, "chorus.position", "chorus", 5),
        spec_ranged(25, "chorus.rate", "Rate", "chorus", 2, 50, 8000, 800, 10, "Hz"),
        spec_knob(26, "chorus.depth", "Depth", "chorus", 3, 500),
        spec_knob(27, "chorus.mix", "Mix", "chorus", 4, 500),
        spec_footswitch(28, "delay.engaged", "delay"),
        spec_position(29, "delay.position", "delay", 6),
        spec_ranged(30, "delay.time", "Time", "delay", 2, 20000, 1200000, 380000, 1000, "ms"),
        spec_knob(31, "delay.feedback", "Repeats", "delay", 3, 350),
        spec_knob(32, "delay.mix", "Mix", "delay", 4, 300),
        spec_selector(33, "delay.mode", "Mode", "delay", 5, 0, &DELAY_MODE_CHOICES),
        spec_knob(34, "delay.width", "Width", "delay", 6, 0),
        spec_footswitch(35, "reverb.engaged", "reverb"),
        spec_position(36, "reverb.position", "reverb", 7),
        spec_knob(37, "reverb.decay", "Decay", "reverb", 2, 400),
        spec_knob(38, "reverb.tone", "Tone", "reverb", 3, 500),
        spec_knob(39, "reverb.mix", "Mix", "reverb", 4, 250),
        spec_selector(40, "reverb.mode", "Mode", "reverb", 5, 0, &REVERB_MODE_CHOICES),
        spec_selector(41, "rig.source", "Source", "rig", 3, 0, &RIG_SOURCE_CHOICES)
    ]
}

/// Every parameter, in index order.
#[verifier::rlimit(50)]
pub fn parameters() -> (table: Vec<ParameterSpec>)
    ensures
        table@ == parameter_table(),
{
    let mut table: Vec<ParameterSpec> = Vec::new();
    table.push(ranged(0, "rig.input", "Input Trim", "rig", 0, -24000, 24000, 0, 100, "dB"));
    table.push(ranged(1, "rig.output", "Output Level", "rig", 1, -24000, 24000, 0, 100, "dB"));
    table.push(ranged(2, "rig.gate", "Noise Gate", "rig", 2, -90000, -20000, -90000, 500, "dBFS"));
    table.push(footswitch(3, "comp.engaged", "comp"));
    table.push(position(4, "comp.position", "comp", 1));
    table.push(knob(5, "comp.sustain", "Sustain", "comp", 2, 500));
    table.push(knob(6, "comp.attack", "Attack", "comp", 3, 500));
    table.push(knob(7, "comp.level", "Level", "comp", 4, 500));
    table.push(footswitch(8, "drive.engaged", "drive"));
    table.push(position(9, "drive.position", "drive", 2));
    table.push(knob(10, "drive.drive", "Drive", "drive", 2, 500));
    table.push(knob(11, "drive.tone", "Tone", "drive", 3, 500));
    table.push(knob(12, "drive.level", "Level", "drive", 4, 500));
    table.push(footswitch(13, "dist.engaged", "dist"));
    table.push(position(14, "dist.position", "dist", 3));
    table.push(knob(15, "dist.distortion", "Distortion", "dist", 2, 500));
    table.push(knob(16, "dist.tone", "Tone", "dist", 3, 500));
    table.push(knob(17, "dist.level", "Level", "dist", 4, 500));
    table.push(footswitch(18, "fuzz.engaged", "fuzz"));
    table.push(position(19, "fuzz.position", "fuzz", 4));
    table.push(knob(20, "fuzz.sustain", "Sustain", "fuzz", 2, 600));
    table.push(knob(21, "fuzz.tone", "Tone", "fuzz", 3, 500));
    table.push(knob(22, "fuzz.volume", "Volume", "fuzz", 4, 400));
    table.push(footswitch(23, "chorus.engaged", "chorus"));
    table.push(position(24, "chorus.position", "chorus", 5));
    table.push(ranged(25, "chorus.rate", "Rate", "chorus", 2, 50, 8000, 800, 10, "Hz"));
    table.push(knob(26, "chorus.depth", "Depth", "chorus", 3, 500));
    table.push(knob(27, "chorus.mix", "Mix", "chorus", 4, 500));
    table.push(footswitch(28, "delay.engaged", "delay"));
    table.push(position(29, "delay.position", "delay", 6));
    table.push(ranged(30, "delay.time", "Time", "delay", 2, 20000, 1200000, 380000, 1000, "ms"));
    table.push(knob(31, "delay.feedback", "Repeats", "delay", 3, 350));
    table.push(knob(32, "delay.mix", "Mix", "delay", 4, 300));
    table.push(selector(33, "delay.mode", "Mode", "delay", 5, 0, &DELAY_MODE_CHOICES));
    table.push(knob(34, "delay.width", "Width", "delay", 6, 0));
    table.push(footswitch(35, "reverb.engaged", "reverb"));
    table.push(position(36, "reverb.position", "reverb", 7));
    table.push(knob(37, "reverb.decay", "Decay", "reverb", 2, 400));
    table.push(knob(38, "reverb.tone", "Tone", "reverb", 3, 500));
    table.push(knob(39, "reverb.mix", "Mix", "reverb", 4, 250));
    table.push(selector(40, "reverb.mode", "Mode", "reverb", 5, 0, &REVERB_MODE_CHOICES));
    table.push(selector(41, "rig.source", "Source", "rig", 3, 0, &RIG_SOURCE_CHOICES));
    assert(table@ =~= parameter_table());
    table
}

/// Every parameter declares its own index: the table can be addressed by
/// number.
pub proof fn lemma_every_parameter_declares_its_own_index()
    ensures
        parameter_table().len() == PARAMETER_COUNT,
        forall|i: int| 0 <= i < PARAMETER_COUNT ==> #[trigger] parameter_table()[i].index == i,
{
    let table = parameter_table();
    assert forall|i: int| 0 <= i < PARAMETER_COUNT implies #[trigger] table[i].index == i by {
        assert(table[i].index == i);
    }
}

/// The canonical value of a whole host value for a switch, a position or a
/// selector: the value itself when the parameter accepts it.
pub open spec fn canonical_of(kind: Kind, whole: int) -> Option<int> {
    if accepts_whole(kind, whole) {
        Some(whole)
    } else {
        None
    }
}

/// Validating a stored value again changes nothing: whatever a switch, a
/// position or a selector canonicalised a value to, it accepts unchanged.
pub proof fn lemma_canonical_whole_is_a_fixed_point(kind: Kind, whole: int, canonical: int)
    requires
        canonical_of(kind, whole) == Some(canonical),
    ensures
        canonical_of(kind, canonical) == Some(canonical),
{
}

/// `p` is parameter `index`, called `id` and `name` on page `page` at
/// position `order`, with the suggested control `control`.
pub open spec fn declares(
    p: ParameterSpec,
    index: int,
    id: Seq<char>,
    name: Seq<char>,
    page: Seq<char>,
    order: int,
    control: Control,
) -> bool {
    &&& p.index == index
    &&& p.id@ == id
    &&& p.name@ == name
    &&& p.page@ == page
    &&& p.order == order
    &&& p.control == control
}

/// `kind` is continuous from `minimum` to `maximum`, starting at `default`
/// and moving in steps of `step`, all in thousandths of `unit` (no unit for
/// a plain knob).
pub open spec fn is_continuous(kind: Kind, minimum: int, maximum: int, default: int, step: int, unit: Option<Seq<char>>) -> bool {
    match kind {
        Kind::Float { minimum: low, maximum: high, default: start, step: increment, unit: declared } => {
            &&& low == minimum
            &&& high == maximum
            &&& start == default
            &&& increment == step
            &&& match declared {
                Some(text) => unit == Some(text@),
                None => unit is None,
            }
        },
        _ => false,
    }
}

/// `kind` selects among `choices`, starting at choice `default`.
pub open spec fn is_selector(kind: Kind, default: int, choices: Seq<Seq<char>>) -> bool {
    match kind {
        Kind::Enum { default: start, choices: declared } => {
            &&& start == default
            &&& declared@.len() == choices.len()
            &&& forall|i: int| 0 <= i < choices.len() ==> (#[trigger] declared@[i])@ == choices[i]
        },
        _ => false,
    }
}

/// The contract, parameter by parameter: index, identifier, name, page,
/// order and control of each, and what it accepts: the range, default, step
/// and unit of every continuous parameter (in thousandths of the unit), the
/// switches, the board positions and the choices of every selector.
pub proof fn lemma_contract_contents()
    ensures
        parameter_table().len() == PARAMETER_COUNT,
        ({
            let t = parameter_table();
            &&& declares(t[0], 0, "rig.input"@, "Input Trim"@, "rig"@, 0, Control::Knob) && is_continuous(t[0].kind, -24000, 24000, 0, 100, Some("dB"@))
            &&& declares(t[1], 1, "rig.output"@, "Output Level"@, "rig"@, 1, Control::Knob) && is_continuous(t[1].kind, -24000, 24000, 0, 100, Some("dB"@))
            &&& declares(t[2], 2, "rig.gate"@, "Noise Gate"@, "rig"@, 2, Control::Knob) && is_continuous(t[2].kind, -90000, -20000, -90000, 500, Some("dBFS"@))
            &&& declares(t[3], 3, "comp.engaged"@, "Engaged"@, "comp"@, 0, Control::Toggle) && t[3].kind == Kind::Boolean { default: false }
            &&& declares(t[4], 4, "comp.position"@, "Board Position"@, "comp"@, 1, Control::List) && t[4].kind == Kind::Integer { minimum: 1, maximum: 7, default: 1 }
            &&& declares(t[5], 5, "comp.sustain"@, "Sustain"@, "comp"@, 2, Control::Knob) && is_continuous(t[5].kind, 0, 1000, 500, 1, None)
            &&& declares(t[6], 6, "comp.attack"@, "Attack"@, "comp"@, 3, Control::Knob) && is_continuous(t[6].kind, 0, 1000, 500, 1, None)
            &&& declares(t[7], 7, "comp.level"@, "Level"@, "comp"@, 4, Control::Knob) && is_continuous(t[7].kind, 0, 1000, 500, 1, None)
            &&& declares(t[8], 8, "drive.engaged"@, "Engaged"@, "drive"@, 0, Control::Toggle) && t[8].kind == Kind::Boolean { default: false }
            &&& declares(t[9], 9, "drive.position"@, "Board Position"@, "drive"@, 1, Control::List) && t[9].kind == Kind::Integer { minimum: 1, maximum: 7, default: 2 }
            &&& declares(t[10], 10, "drive.drive"@, "Drive"@, "drive"@, 2, Control::Knob) && is_continuous(t[10].kind, 0, 1000, 500, 1, None)
            &&& declares(t[11], 11, "drive.tone"@, "Tone"@, "drive"@, 3, Control::Knob) && is_continuous(t[11].kind, 0, 1000, 500, 1, None)
            &&& declares(t[12], 12, "drive.level"@, "Level"@, "drive"@, 4, Control::Knob) && is_continuous(t[12].kind, 0, 1000, 500, 1, None)
            &&& declares(t[13], 13, "dist.engaged"@, "Engaged"@, "dist"@, 0, Control::Toggle) && t[13].kind == Kind::Boolean { default: false }
            &&& declares(t[14], 14, "dist.position"@, "Board Position"@, "dist"@, 1, Control::List) && t[14].kind == Kind::Integer { minimum: 1, maximum: 7, default: 3 }
            &&& declares(t[15], 15, "dist.distortion"@, "Distortion"@, "dist"@, 2, Control::Knob) && is_continuous(t[15].kind, 0, 1000, 500, 1, None)
            &&& declares(t[16], 16, "dist.tone"@, "Tone"@, "dist"@, 3, Control::Knob) && is_continuous(t[16].kind, 0, 1000, 500, 1, None)
            &&& declares(t[17], 17, "dist.level"@, "Level"@, "dist"@, 4, Control::Knob) && is_continuous(t[17].kind, 0, 1000, 500, 1, None)
            &&& declares(t[18], 18, "fuzz.engaged"@, "Engaged"@, "fuzz"@, 0, Control::Toggle) && t[18].kind == Kind::Boolean { default: false }
            &&& declares(t[19], 19, "fuzz.position"@, "Board Position"@, "fuzz"@, 1, Control::List) && t[19].kind == Kind::Integer { minimum: 1, maximum: 7, default: 4 }
            &&& declares(t[20], 20, "fuzz.sustain"@, "Sustain"@, "fuzz"@, 2, Control::Knob) && is_continuous(t[20].kind, 0, 1000, 600, 1, None)
            &&& declares(t[21], 21, "fuzz.tone"@, "Tone"@, "fuzz"@, 3, Control::Knob) && is_continuous(t[21].kind, 0, 1000, 500, 1, None)
            &&& declares(t[22], 22, "fuzz.volume"@, "Volume"@, "fuzz"@, 4, Control::Knob) && is_continuous(t[22].kind, 0, 1000, 400, 1, None)
            &&& declares(t[23], 23, "chorus.engaged"@, "Engaged"@, "chorus"@, 0, Control::Toggle) && t[23].kind == Kind::Boolean { default: false }
            &&& declares(t[24], 24, "chorus.position"@, "Board Position"@, "chorus"@, 1, Control::List) && t[24].kind == Kind::Integer { minimum: 1, maximum: 7, default: 5 }
            &&& declares(t[25], 25, "chorus.rate"@, "Rate"@, "chorus"@, 2, Control::Knob) && is_continuous(t[25].kind, 50, 8000, 800, 10, Some("Hz"@))
            &&& declares(t[26], 26, "chorus.depth"@, "Depth"@, "chorus"@, 3, Control::Knob) && is_continuous(t[26].kind, 0, 1000, 500, 1, None)
            &&& declares(t[27], 27, "chorus.mix"@, "Mix"@, "chorus"@, 4, Control::Knob) && is_continuous(t[27].kind, 0, 1000, 500, 1, None)
            &&& declares(t[28], 28, "delay.engaged"@, "Engaged"@, "delay"@, 0, Control::Toggle) && t[28].kind == Kind::Boolean { default: false }
            &&& declares(t[29], 29, "delay.position"@, "Board Position"@, "delay"@, 1, Control::List) && t[29].kind == Kind::Integer { minimum: 1, maximum: 7, default: 6 }
            &&& declares(t[30], 30, "delay.time"@, "Time"@, "delay"@, 2, Control::Knob) && is_continuous(t[30].kind, 20000, 1200000, 380000, 1000, Some("ms"@))
            &&& declares(t[31], 31, "delay.feedback"@, "Repeats"@, "delay"@, 3, Control::Knob) && is_continuous(t[31].kind, 0, 1000, 350, 1, None)
            &&& declares(t[32], 32, "delay.mix"@, "Mix"@, "delay"@, 4, Control::Knob) && is_continuous(t[32].kind, 0, 1000, 300, 1, None)
            &&& declares(t[33], 33, "delay.mode"@, "Mode"@, "delay"@, 5, Control::List) && is_selector(t[33].kind, 0, seq!["Analog (BBD)"@, "Digital"@])
            &&& declares(t[34], 34, "delay.width"@, "Width"@, "delay"@, 6, Control::Knob) && is_continuous(t[34].kind, 0, 1000, 0, 1, None)
            &&& declares(t[35], 35, "reverb.engaged"@, "Engaged"@, "reverb"@, 0, Control::Toggle) && t[35].kind == Kind::Boolean { default: false }
            &&& declares(t[36], 36, "reverb.position"@, "Board Position"@, "reverb"@, 1, Control::List) && t[36].kind == Kind::Integer { minimum: 1, maximum: 7, default: 7 }
            &&& declares(t[37], 37, "reverb.decay"@, "Decay"@, "reverb"@, 2, Control::Knob) && is_continuous(t[37].kind, 0, 1000, 400, 1, None)
            &&& declares(t[38], 38, "reverb.tone"@, "Tone"@, "reverb"@, 3, Control::Knob) && is_continuous(t[38].kind, 0, 1000, 500, 1, None)
            &&& declares(t[39], 39, "reverb.mix"@, "Mix"@, "reverb"@, 4, Control::Knob) && is_continuous(t[39].kind, 0, 1000, 250, 1, None)
            &&& declares(t[40], 40, "reverb.mode"@, "Mode"@, "reverb"@, 5, Control::List) && is_selector(t[40].kind, 0, seq!["Spring"@, "Plate"@])
            &&& declares(t[41], 41, "rig.source"@, "Source"@, "rig"@, 3, Control::List) && is_selector(t[41].kind, 0, seq!["Buffered"@, "Single Coil"@, "Humbucker"@])
        }),
{
    assert(DELAY_MODE_CHOICES@ =~= seq!["Analog (BBD)", "Digital"]);
    assert(REVERB_MODE_CHOICES@ =~= seq!["Spring", "Plate"]);
    assert(RIG_SOURCE_CHOICES@ =~= seq!["Buffered", "Single Coil", "Humbucker"]);
}

} // verus!
