//! What this library relies on from the `configparser` crate.
//!
//! The crate's `Ini` is used in two ways: as the settings source, which is
//! parsed with `read` and looked up with `get`, and as the builder of the
//! client configuration, which is made with `new_cs`, filled with `set` and
//! turned into text with `writes`.
//!
//! Nothing in this file is proved: each contract restates what the crate's
//! source does, built with its `indexmap` feature, which keeps sections and
//! keys in the order of their insertion.

use configparser::ini::Ini;
use vstd::prelude::*;

verus! {

/// The longest text, in characters, that is handed to `Ini::read`. The crate
/// counts the lines of a text in 32 bits and panics where the count
/// overflows; a text this long has far fewer lines.
pub const MAX_SOURCE_LENGTH: usize = 16777216;

/// A key with its value; a key may stand alone, without a value.
pub type Entry = (Seq<char>, Option<Seq<char>>);

/// A section's name with its entries in order.
pub type Section = (Seq<char>, Seq<Entry>);

/// The `Ini` of `configparser`. Nothing inside it is visible here: what it
/// holds goes by the names below.
#[verifier::external_type_specification]
#[verifier::external_body]
pub struct ExIni(Ini);

/// The sections that an `Ini` holds, in the order of their insertion, each
/// with its keys in the order of theirs.
pub uninterp spec fn ini_sections(ini: Ini) -> Seq<Section>;

/// Whether an `Ini` is set up as `Ini::new_cs` sets it up: case-sensitive,
/// with the default section called `default`, values on a single line.
/// This concerns the settings only, not the contents.
pub uninterp spec fn ini_plain(ini: Ini) -> bool;

/// What `Ini::read` makes of a text of at most `MAX_SOURCE_LENGTH`
/// characters, on an `Ini` as `Ini::new` gives it: the `Ini` with the
/// parsed contents, or nothing where the text is not ini syntax.
pub uninterp spec fn ini_parsed(text: Seq<char>) -> Option<Ini>;

/// What `Ini::get` finds under a section and a key.
pub uninterp spec fn ini_value(ini: Ini, section: Seq<char>, key: Seq<char>) -> Option<Seq<char>>;

/// The entries after `key` is given `value`: a key that is present keeps its
/// place and gets the new value, a new key goes last.
pub open spec fn put_key(
    entries: Seq<Entry>,
    key: Seq<char>,
    value: Option<Seq<char>>,
) -> Seq<Entry>
    decreases entries.len(),
{
    if entries.len() == 0 {
        seq![(key, value)]
    } else if entries[0].0 == key {
        seq![(key, value)] + entries.drop_first()
    } else {
        seq![entries[0]] + put_key(entries.drop_first(), key, value)
    }
}

/// The sections after `key` in `section` is given `value`: a section that is
/// present keeps its place, a new section goes last.
pub open spec fn put_entry(
    sections: Seq<Section>,
    section: Seq<char>,
    key: Seq<char>,
    value: Option<Seq<char>>,
) -> Seq<Section>
    decreases sections.len(),
{
    if sections.len() == 0 {
        seq![(section, seq![(key, value)])]
    } else if sections[0].0 == section {
        seq![(section, put_key(sections[0].1, key, value))] + sections.drop_first()
    } else {
        seq![sections[0]] + put_entry(sections.drop_first(), section, key, value)
    }
}

/// Whether one of the sections has the given name.
pub open spec fn has_section(sections: Seq<Section>, name: Seq<char>) -> bool {
    exists|i: int| 0 <= i < sections.len() && (#[trigger] sections[i]).0 == name
}

/// One line of a section: the key, and `=` with the value where there is one.
pub open spec fn entry_line(entry: Entry) -> Seq<char> {
    match entry.1 {
        Some(value) => entry.0 + seq!['='] + value + seq!['\n'],
        None => entry.0 + seq!['\n'],
    }
}

/// The lines of a section's entries, in order.
pub open spec fn entry_lines(entries: Seq<Entry>) -> Seq<char>
    decreases entries.len(),
{
    if entries.len() == 0 {
        Seq::empty()
    } else {
        entry_lines(entries.drop_last()) + entry_line(entries.last())
    }
}

/// A section as text: its name in square brackets on a line, then its entries.
pub open spec fn section_text(section: Section) -> Seq<char> {
    seq!['['] + section.0 + seq![']', '\n'] + entry_lines(section.1)
}

/// The sections as text, one after the other.
pub open spec fn document(sections: Seq<Section>) -> Seq<char>
    decreases sections.len(),
{
    if sections.len() == 0 {
        Seq::empty()
    } else {
        document(sections.drop_last()) + section_text(sections.last())
    }
}

/// `Ini::new_cs` returns an empty, case-sensitive `Ini`.
pub assume_specification[ Ini::new_cs ]() -> (ini: Ini)
    ensures
        ini_plain(ini),
        ini_sections(ini) == Seq::<Section>::empty(),
;

/// `Ini::set` on a case-sensitive `Ini` stores the value under the section
/// and key as they are written, creating either where it is missing, and
/// changes no setting.
pub assume_specification[ Ini::set ](
    ini: &mut Ini,
    section: &str,
    key: &str,
    value: Option<String>,
) -> (previous: Option<Option<String>>)
    requires
        ini_plain(*old(ini)),
    ensures
        ini_plain(*final(ini)),
        ini_sections(*final(ini)) == put_entry(
            ini_sections(*old(ini)),
            section@,
            key@,
            match value {
                Some(s) => Some(s@),
                None => None,
            },
        ),
;

/// `Ini::get` reads and does not change the `Ini`; what it finds depends on
/// the `Ini`, the section and the key alone.
pub assume_specification[ Ini::get ](ini: &Ini, section: &str, key: &str) -> (value: Option<String>)
    ensures
        ini_value(*ini, section@, key@) == match value {
            Some(s) => Some(s@),
            None => None,
        },
;

/// `Ini::read`, on a new `Ini`, parses the text and keeps what it parsed, or
/// fails with a message. What comes of it depends on the text alone. The
/// text must be short enough for the crate's count of its lines.
#[verifier::external_body]
pub(crate) fn ini_from_text(text: String) -> (conf: Option<Ini>)
    requires
        text@.len() <= MAX_SOURCE_LENGTH,
    ensures
        conf == ini_parsed(text@),
{
    let mut conf = Ini::new();
    match conf.read(text) {
        Ok(_) => Some(conf),
        Err(_) => None,
    }
}

/// `Ini::writes` on an `Ini` set up by `new_cs`, with no section called
/// `default`, writes each section in order: the name in square brackets,
/// then a line for each key, `key=value` or the key alone, each line ended
/// by a line feed (as the crate does on every target but Windows).
pub assume_specification[ Ini::writes ](ini: &Ini) -> (text: String)
    requires
        ini_plain(*ini),
        !has_section(ini_sections(*ini), "default"@),
    ensures
        text@ == document(ini_sections(*ini)),
;

} // verus!
