//! Reads the few manifest fields the generated metadata has to agree with.
//!
//! The host refuses to install a package whose runtime descriptor disagrees
//! with its manifest. Generating the descriptor from the manifest is how this
//! project makes that failure impossible instead of memorable. Reading the
//! file is the caller's job; this module takes its text.

use vstd::prelude::*;

use crate::text::{
    chars_of, find_char, first_index_of, leading_matches, parse_u32, parsed_u32, range_is, strip_range, strip_set,
    trailing_matches, trimmed, unquoted,
};

verus! {

/// The identity a package declares at the top of its manifest.
pub struct PackageIdentity {
    pub id: String,
    pub version: String,
    pub state_version: u32,
}

/// The fields of the top-level table read so far: `id`, `version` and
/// `state_version`, each absent until a line sets it.
pub type ManifestFields = (Option<Seq<char>>, Option<Seq<char>>, Option<u32>);

/// What one trimmed line of the top-level table does to the fields. A line
/// without `=` is not a field. A later line for the same key replaces an
/// earlier one; a `state_version` that is not a number clears it.
pub open spec fn read_line(fields: ManifestFields, line: Seq<char>) -> ManifestFields {
    let equals = first_index_of(line, '=');
    if equals >= line.len() {
        fields
    } else {
        let key = trimmed(line.subrange(0, equals));
        let value = unquoted(trimmed(line.subrange(equals + 1, line.len() as int)));
        if key == "id"@ {
            (Some(value), fields.1, fields.2)
        } else if key == "version"@ {
            (fields.0, Some(value), fields.2)
        } else if key == "state_version"@ {
            (fields.0, fields.1, parsed_u32(value))
        } else {
            fields
        }
    }
}

proof fn lemma_first_index_bounded(s: Seq<char>, c: char)
    ensures
        0 <= first_index_of(s, c) <= s.len(),
        first_index_of(s, c) < s.len() ==> s[first_index_of(s, c)] == c,
    decreases s.len(),
{
    if s.len() > 0 && s[0] != c {
        lemma_first_index_bounded(s.subrange(1, s.len() as int), c);
    }
}

/// The fields the text of a manifest declares before its first section
/// header, line by line.
pub open spec fn read_fields(text: Seq<char>, fields: ManifestFields) -> ManifestFields
    decreases text.len(),
{
    let end = first_index_of(text, '\n');
    let line = trimmed(text.subrange(0, end));
    if line.len() > 0 && line[0] == '[' {
        fields
    } else if end >= text.len() || end < 0 {
        read_line(fields, line)
    } else {
        read_fields(text.subrange(end + 1, text.len() as int), read_line(fields, line))
    }
}

/// A field's text, as the specification sees it.
pub open spec fn text_of(field: Option<String>) -> Option<Seq<char>> {
    match field {
        Some(s) => Some(s@),
        None => None,
    }
}

/// Reads the top-level table of a manifest. It stops at the first section
/// header, which is where every field it needs lives, and names the first
/// field that is missing.
pub fn parse(text: &str) -> (identity: Result<PackageIdentity, String>)
    ensures
        match read_fields(text@, (None, None, None)) {
            (Some(id), Some(version), Some(state_version)) => identity matches Ok(p) && p.id@ == id
                && p.version@ == version && p.state_version == state_version,
            (None, _, _) => identity matches Err(e) && e@ == "the manifest has no id"@,
            (Some(_), None, _) => identity matches Err(e) && e@ == "the manifest has no version"@,
            (Some(_), Some(_), None) => identity matches Err(e) && e@ == "the manifest has no state_version"@,
        },
{
    let chars = chars_of(text);
    let length = chars.len();
    let mut id: Option<String> = None;
    let mut version: Option<String> = None;
    let mut state_version: Option<u32> = None;
    let mut position: usize = 0;
    assert(text@.subrange(0, length as int) =~= text@);
    loop
        invariant_except_break
            read_fields(text@, (None, None, None)) == read_fields(
                text@.subrange(position as int, length as int),
                (text_of(id), text_of(version), state_version),
            ),
        invariant
            chars@ == text@,
            length == chars@.len(),
            0 <= position <= length,
        ensures
            read_fields(text@, (None, None, None)) == (text_of(id), text_of(version), state_version),
        decreases length - position,
    {
        let ghost rest = text@.subrange(position as int, length as int);
        let ghost before = (text_of(id), text_of(version), state_version);
        let end = find_char(&chars, position, length, '\n');
        proof {
            lemma_first_index_bounded(rest, '\n');
            assert(rest.subrange(0, end - position) =~= chars@.subrange(position as int, end as int));
        }
        let (start, stop) = strip_range(&chars, position, end, false);
        let ghost line = chars@.subrange(start as int, stop as int);
        if start < stop && chars[start] == '[' {
            break;
        }
        let equals = find_char(&chars, start, stop, '=');
        proof {
            lemma_first_index_bounded(line, '=');
        }
        if equals < stop {
            let (key_start, key_stop) = strip_range(&chars, start, equals, false);
            let (value_start, value_stop) = strip_range(&chars, equals + 1, stop, false);
            let (value_start, value_stop) = strip_range(&chars, value_start, value_stop, true);
            proof {
                assert(line.subrange(0, equals - start) =~= chars@.subrange(start as int, equals as int));
                assert(line.subrange(equals - start + 1, line.len() as int) =~= chars@.subrange(equals + 1, stop as int));
            }
            if range_is(&chars, key_start, key_stop, "id") {
                id = Some(text.substring_char(value_start, value_stop).to_owned());
            } else if range_is(&chars, key_start, key_stop, "version") {
                version = Some(text.substring_char(value_start, value_stop).to_owned());
            } else if range_is(&chars, key_start, key_stop, "state_version") {
                state_version = parse_u32(&chars, value_start, value_stop);
            }
        }
        assert((text_of(id), text_of(version), state_version) == read_line(before, line));
        if end >= length {
            break;
        }
        proof {
            assert(rest.subrange(end - position + 1, rest.len() as int) =~= text@.subrange(end + 1, length as int));
        }
        position = end + 1;
    }
    match id {
        None => Err("the manifest has no id".to_owned()),
        Some(id) => match version {
            None => Err("the manifest has no version".to_owned()),
            Some(version) => match state_version {
                None => Err("the manifest has no state_version".to_owned()),
                Some(state_version) => Ok(PackageIdentity { id, version, state_version }),
            },
        },
    }
}

proof fn lemma_first_index_absent(s: Seq<char>, c: char)
    requires
        !s.contains(c),
    ensures
        first_index_of(s, c) == s.len(),
    decreases s.len(),
{
    if s.len() > 0 {
        assert(s[0] != c);
        let rest = s.subrange(1, s.len() as int);
        assert forall|i: int| 0 <= i < rest.len() implies rest[i] != c by {
            assert(rest[i] == s[i + 1]);
        }
        lemma_first_index_absent(rest, c);
    }
}

proof fn lemma_first_index_after(line: Seq<char>, rest: Seq<char>, c: char)
    requires
        !line.contains(c),
    ensures
        first_index_of(line + seq![c] + rest, c) == line.len(),
    decreases line.len(),
{
    let text = line + seq![c] + rest;
    if line.len() > 0 {
        assert(line[0] != c);
        let shorter = line.subrange(1, line.len() as int);
        assert forall|i: int| 0 <= i < shorter.len() implies shorter[i] != c by {
            assert(shorter[i] == line[i + 1]);
        }
        assert(text.subrange(1, text.len() as int) =~= shorter + seq![c] + rest);
        lemma_first_index_after(shorter, rest, c);
    } else {
        assert(text[0] == c);
    }
}

proof fn lemma_leading_bounded(s: Seq<char>, matches: spec_fn(char) -> bool)
    ensures
        0 <= leading_matches(s, matches) <= s.len(),
    decreases s.len(),
{
    if s.len() > 0 && matches(s[0]) {
        lemma_leading_bounded(s.subrange(1, s.len() as int), matches);
    }
}

proof fn lemma_trailing_bounded(s: Seq<char>, matches: spec_fn(char) -> bool)
    ensures
        0 <= trailing_matches(s, matches) <= s.len(),
    decreases s.len(),
{
    if s.len() > 0 && matches(s[s.len() - 1]) {
        lemma_trailing_bounded(s.subrange(0, s.len() - 1), matches);
    }
}

proof fn lemma_trimmed_keeps_out(line: Seq<char>, c: char)
    requires
        !line.contains(c),
    ensures
        !trimmed(line).contains(c),
{
    let matches = strip_set(false);
    let lead = leading_matches(line, matches);
    lemma_leading_bounded(line, matches);
    let rest = line.subrange(lead, line.len() as int);
    lemma_trailing_bounded(rest, matches);
    let cut = rest.subrange(0, rest.len() - trailing_matches(rest, matches));
    assert(trimmed(line) == cut);
    assert forall|i: int| 0 <= i < cut.len() implies cut[i] != c by {
        assert(cut[i] == line[lead + i]);
    }
}

/// A line that sets no field and opens no section (an empty line, a comment,
/// anything without `=`) is passed over: the fields after it are what the
/// rest of the text makes of the fields before it. Only a section header
/// ends the top-level table.
pub proof fn lemma_lines_without_a_field_are_passed_over(line: Seq<char>, rest: Seq<char>, fields: ManifestFields)
    requires
        !line.contains('\n'),
        !line.contains('='),
        !(trimmed(line).len() > 0 && trimmed(line)[0] == '['),
    ensures
        read_fields(line + seq!['\n'] + rest, fields) == read_fields(rest, fields),
{
    let text = line + seq!['\n'] + rest;
    lemma_first_index_after(line, rest, '\n');
    assert(text.subrange(0, line.len() as int) =~= line);
    assert(text.subrange(line.len() + 1int, text.len() as int) =~= rest);
    lemma_trimmed_keeps_out(line, '=');
    lemma_first_index_absent(trimmed(line), '=');
}

/// A section header ends the top-level table: nothing after it is read.
pub proof fn lemma_a_section_header_ends_the_table(line: Seq<char>, rest: Seq<char>, fields: ManifestFields)
    requires
        !line.contains('\n'),
        trimmed(line).len() > 0,
        trimmed(line)[0] == '[',
    ensures
        read_fields(line + seq!['\n'] + rest, fields) == fields,
{
    let text = line + seq!['\n'] + rest;
    lemma_first_index_after(line, rest, '\n');
    assert(text.subrange(0, line.len() as int) =~= line);
}

/// An empty line between two lines of the top-level table changes nothing.
pub proof fn lemma_an_empty_line_changes_nothing(rest: Seq<char>, fields: ManifestFields)
    ensures
        read_fields(seq!['\n'] + rest, fields) == read_fields(rest, fields),
{
    let empty = Seq::<char>::empty();
    assert(trimmed(empty) =~= empty) by {
        lemma_leading_bounded(empty, strip_set(false));
        lemma_trailing_bounded(empty, strip_set(false));
    }
    assert(empty + seq!['\n'] + rest =~= seq!['\n'] + rest);
    lemma_lines_without_a_field_are_passed_over(empty, rest, fields);
}

} // verus!
