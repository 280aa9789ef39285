//! The bench's command-line rules: how an option finds its value and how a
//! `--set id=value` names the parameter it changes.

use vstd::prelude::*;

use crate::contract::{lemma_contract_contents, lemma_every_parameter_declares_its_own_index, parameter_table, parameters, PARAMETER_COUNT};
use crate::text::{all_digits, chars_of, find_char, first_index_of, is_digit, parse_u32, parsed_u32, same_text, unsigned_digits};

verus! {

/// The argument after `flag`, or the complaint that it has none.
pub fn next_value(arguments: &[String], index: usize, flag: &str) -> (value: Result<String, String>)
    ensures
        index + 1 < arguments@.len() ==> (value matches Ok(v) && v@ == arguments@[index + 1]@),
        index + 1 >= arguments@.len() ==> (value matches Err(e) && e@ == flag@ + " needs a value"@),
{
    if arguments.len() > 0 && index < arguments.len() - 1 {
        Ok(arguments[index + 1].clone())
    } else {
        let mut message = flag.to_owned();
        message.append(" needs a value");
        Err(message)
    }
}

/// Splits `id=value` at its first `=`.
pub fn split_assignment(assignment: &str) -> (parts: Option<(&str, &str)>)
    ensures
        first_index_of(assignment@, '=') >= assignment@.len() ==> parts is None,
        first_index_of(assignment@, '=') < assignment@.len() ==> (parts matches Some((name, value)) && name@
            == assignment@.subrange(0, first_index_of(assignment@, '='))
            && value@ == assignment@.subrange(first_index_of(assignment@, '=') + 1, assignment@.len() as int)),
{
    let chars = chars_of(assignment);
    let length = chars.len();
    let equals = find_char(&chars, 0, length, '=');
    assert(chars@.subrange(0, length as int) =~= assignment@);
    if equals >= length {
        return None;
    }
    Some((assignment.substring_char(0, equals), assignment.substring_char(equals + 1, length)))
}

/// The parameter a name stands for: an index written as a number, or else
/// the first parameter whose identifier it is.
pub open spec fn named_parameter(name: Seq<char>) -> Option<u32> {
    if parsed_u32(name) is Some {
        parsed_u32(name)
    } else if exists|k: int| 0 <= k < PARAMETER_COUNT && (#[trigger] parameter_table()[k]).id@ == name {
        let k = choose|k: int|
            0 <= k < PARAMETER_COUNT && (#[trigger] parameter_table()[k]).id@ == name && forall|j: int|
                0 <= j < k ==> (#[trigger] parameter_table()[j]).id@ != name;
        Some(parameter_table()[k].index)
    } else {
        None
    }
}

/// Resolves the name in a `--set` to a parameter index. A number is taken as
/// an index as it stands, whether or not a parameter has it; the engine
/// refuses an unknown index when the value is applied.
pub fn parameter_index(name: &str) -> (index: Option<u32>)
    ensures
        index == named_parameter(name@),
{
    let chars = chars_of(name);
    let length = chars.len();
    assert(chars@.subrange(0, length as int) =~= name@);
    let number = parse_u32(&chars, 0, length);
    if number.is_some() {
        return number;
    }
    assert(parsed_u32(name@) is None);
    let table = parameters();
    let mut position: usize = 0;
    while position < table.len()
        invariant
            table@ == parameter_table(),
            table@.len() == PARAMETER_COUNT,
            parsed_u32(name@) is None,
            0 <= position <= PARAMETER_COUNT,
            forall|j: int| 0 <= j < position ==> (#[trigger] parameter_table()[j]).id@ != name@,
        decreases PARAMETER_COUNT - position,
    {
        if same_text(table[position].id, name) {
            proof {
                let k = position as int;
                assert(0 <= k < PARAMETER_COUNT && parameter_table()[k].id@ == name@ && forall|j: int|
                    0 <= j < k ==> (#[trigger] parameter_table()[j]).id@ != name@);
                let chosen = choose|k: int|
                    0 <= k < PARAMETER_COUNT && (#[trigger] parameter_table()[k]).id@ == name@ && forall|j: int|
                        0 <= j < k ==> (#[trigger] parameter_table()[j]).id@ != name@;
                if chosen < k {
                    assert(false);
                } else if chosen > k {
                    assert(parameter_table()[k].id@ != name@);
                }
            }
            return Some(table[position].index);
        }
        position += 1;
    }
    None
}

/// A short fingerprint of an identifier: its length, its second character and
/// its last but one. The contract's identifiers all have different ones.
spec fn fingerprint(id: Seq<char>) -> (int, char, char) {
    (id.len() as int, id[1], id[id.len() - 2])
}

/// The parameter whose identifier has the fingerprint `key`, or -1.
spec fn parameter_with_fingerprint(key: (int, char, char)) -> int {
    if key == (9int, 'i', 'u') {
        0
    } else if key == (10int, 'i', 'u') {
        1
    } else if key == (8int, 'i', 't') {
        2
    } else if key == (12int, 'o', 'e') {
        3
    } else if key == (13int, 'o', 'o') {
        4
    } else if key == (12int, 'o', 'i') {
        5
    } else if key == (11int, 'o', 'c') {
        6
    } else if key == (10int, 'o', 'e') {
        7
    } else if key == (13int, 'r', 'e') {
        8
    } else if key == (14int, 'r', 'o') {
        9
    } else if key == (11int, 'r', 'v') {
        10
    } else if key == (10int, 'r', 'n') {
        11
    } else if key == (11int, 'r', 'e') {
        12
    } else if key == (12int, 'i', 'e') {
        13
    } else if key == (13int, 'i', 'o') {
        14
    } else if key == (15int, 'i', 'o') {
        15
    } else if key == (9int, 'i', 'n') {
        16
    } else if key == (10int, 'i', 'e') {
        17
    } else if key == (12int, 'u', 'e') {
        18
    } else if key == (13int, 'u', 'o') {
        19
    } else if key == (12int, 'u', 'i') {
        20
    } else if key == (9int, 'u', 'n') {
        21
    } else if key == (11int, 'u', 'm') {
        22
    } else if key == (14int, 'h', 'e') {
        23
    } else if key == (15int, 'h', 'o') {
        24
    } else if key == (11int, 'h', 't') {
        25
    } else if key == (12int, 'h', 't') {
        26
    } else if key == (10int, 'h', 'i') {
        27
    } else if key == (13int, 'e', 'e') {
        28
    } else if key == (14int, 'e', 'o') {
        29
    } else if key == (10int, 'e', 'm') {
        30
    } else if key == (14int, 'e', 'c') {
        31
    } else if key == (9int, 'e', 'i') {
        32
    } else if key == (10int, 'e', 'd') {
        33
    } else if key == (11int, 'e', 't') {
        34
    } else if key == (14int, 'e', 'e') {
        35
    } else if key == (15int, 'e', 'o') {
        36
    } else if key == (12int, 'e', 'a') {
        37
    } else if key == (11int, 'e', 'n') {
        38
    } else if key == (10int, 'e', 'i') {
        39
    } else if key == (11int, 'e', 'd') {
        40
    } else if key == (10int, 'i', 'c') {
        41
    } else {
        -1
    }
}

proof fn lemma_identifier_facts(k: int)
    requires
        0 <= k < PARAMETER_COUNT,
    ensures
        parameter_table()[k].id@.len() >= 2,
        parameter_with_fingerprint(fingerprint(parameter_table()[k].id@)) == k,
        parsed_u32(parameter_table()[k].id@) is None,
{
    lemma_contract_contents();
    let id = parameter_table()[k].id@;
    if k == 0 {
        reveal_strlit("rig.input");
    } else if k == 1 {
        reveal_strlit("rig.output");
    } else if k == 2 {
        reveal_strlit("rig.gate");
    } else if k == 3 {
        reveal_strlit("comp.engaged");
    } else if k == 4 {
        reveal_strlit("comp.position");
    } else if k == 5 {
        reveal_strlit("comp.sustain");
    } else if k == 6 {
        reveal_strlit("comp.attack");
    } else if k == 7 {
        reveal_strlit("comp.level");
    } else if k == 8 {
        reveal_strlit("drive.engaged");
    } else if k == 9 {
        reveal_strlit("drive.position");
    } else if k == 10 {
        reveal_strlit("drive.drive");
    } else if k == 11 {
        reveal_strlit("drive.tone");
    } else if k == 12 {
        reveal_strlit("drive.level");
    } else if k == 13 {
        reveal_strlit("dist.engaged");
    } else if k == 14 {
        reveal_strlit("dist.position");
    } else if k == 15 {
        reveal_strlit("dist.distortion");
    } else if k == 16 {
        reveal_strlit("dist.tone");
    } else if k == 17 {
        reveal_strlit("dist.level");
    } else if k == 18 {
        reveal_strlit("fuzz.engaged");
    } else if k == 19 {
        reveal_strlit("fuzz.position");
    } else if k == 20 {
        reveal_strlit("fuzz.sustain");
    } else if k == 21 {
        reveal_strlit("fuzz.tone");
    } else if k == 22 {
        reveal_strlit("fuzz.volume");
    } else if k == 23 {
        reveal_strlit("chorus.engaged");
    } else if k == 24 {
        reveal_strlit("chorus.position");
    } else if k == 25 {
        reveal_strlit("chorus.rate");
    } else if k == 26 {
        reveal_strlit("chorus.depth");
    } else if k == 27 {
        reveal_strlit("chorus.mix");
    } else if k == 28 {
        reveal_strlit("delay.engaged");
    } else if k == 29 {
        reveal_strlit("delay.position");
    } else if k == 30 {
        reveal_strlit("delay.time");
    } else if k == 31 {
        reveal_strlit("delay.feedback");
    } else if k == 32 {
        reveal_strlit("delay.mix");
    } else if k == 33 {
        reveal_strlit("delay.mode");
    } else if k == 34 {
        reveal_strlit("delay.width");
    } else if k == 35 {
        reveal_strlit("reverb.engaged");
    } else if k == 36 {
        reveal_strlit("reverb.position");
    } else if k == 37 {
        reveal_strlit("reverb.decay");
    } else if k == 38 {
        reveal_strlit("reverb.tone");
    } else if k == 39 {
        reveal_strlit("reverb.mix");
    } else if k == 40 {
        reveal_strlit("reverb.mode");
    } else if k == 41 {
        reveal_strlit("rig.source");
    }
    assert(!is_digit(id[0]) && id[0] != '+');
    assert(!all_digits(unsigned_digits(id)));
}

/// No two parameters share an identifier, and no identifier reads as a
/// number.
pub proof fn lemma_identifiers_are_unique_names()
    ensures
        forall|i: int, j: int|
            0 <= i < PARAMETER_COUNT && 0 <= j < PARAMETER_COUNT && (#[trigger] parameter_table()[i]).id@
                == (#[trigger] parameter_table()[j]).id@ ==> i == j,
        forall|k: int| 0 <= k < PARAMETER_COUNT ==> parsed_u32((#[trigger] parameter_table()[k]).id@) is None,
{
    assert forall|i: int, j: int|
        0 <= i < PARAMETER_COUNT && 0 <= j < PARAMETER_COUNT && (#[trigger] parameter_table()[i]).id@
            == (#[trigger] parameter_table()[j]).id@ implies i == j by {
        lemma_identifier_facts(i);
        lemma_identifier_facts(j);
    }
    assert forall|k: int| 0 <= k < PARAMETER_COUNT implies parsed_u32((#[trigger] parameter_table()[k]).id@) is None by {
        lemma_identifier_facts(k);
    }
}

proof fn lemma_identifier_names_its_parameter(k: int)
    requires
        0 <= k < PARAMETER_COUNT,
    ensures
        named_parameter(parameter_table()[k].id@) == Some(k as u32),
{
    let name = parameter_table()[k].id@;
    lemma_identifier_facts(k);
    lemma_every_parameter_declares_its_own_index();
    assert forall|j: int| 0 <= j < k implies (#[trigger] parameter_table()[j]).id@ != name by {
        lemma_identifier_facts(j);
    }
    assert(0 <= k < PARAMETER_COUNT && (#[trigger] parameter_table()[k]).id@ == name && forall|j: int|
        0 <= j < k ==> (#[trigger] parameter_table()[j]).id@ != name);
    let chosen = choose|c: int|
        0 <= c < PARAMETER_COUNT && (#[trigger] parameter_table()[c]).id@ == name && forall|j: int|
            0 <= j < c ==> (#[trigger] parameter_table()[j]).id@ != name;
    lemma_identifier_facts(chosen);
    assert(chosen == k);
}

/// Every identifier of the contract resolves to the parameter that declares
/// it: `--set <id>=<value>` changes that parameter and no other.
pub proof fn lemma_every_identifier_names_its_parameter()
    ensures
        forall|k: int| 0 <= k < PARAMETER_COUNT ==> named_parameter((#[trigger] parameter_table()[k]).id@) == Some(k as u32),
{
    assert forall|k: int| 0 <= k < PARAMETER_COUNT implies named_parameter((#[trigger] parameter_table()[k]).id@) == Some(
        k as u32,
    ) by {
        lemma_identifier_names_its_parameter(k);
    }
}

} // verus!
