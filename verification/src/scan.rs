//! The file scanner: which entries of a directory are RAW candidates, and
//! what the JPEG file of a candidate is called.
//!
//! A name here is the last component of a path, as a directory listing gives
//! it (never `.` or `..`). Its extension is what follows its last dot, unless
//! that dot is its first character; its stem is what stands before that dot.
//! Extensions are compared without regard to ASCII case.

use vstd::prelude::*;
use vstd::string::*;

verus! {

/// The lower-case form of an ASCII capital, and any other character itself.
pub open spec fn ascii_lower(c: char) -> char {
    if 'A' <= c && c <= 'Z' {
        ((c as u8) + 32) as char
    } else {
        c
    }
}

/// A sequence of characters with its ASCII capitals in lower case.
pub open spec fn lowered(s: Seq<char>) -> Seq<char> {
    Seq::new(s.len(), |i: int| ascii_lower(s[i]))
}

/// The position of the last dot of a name, and -1 for a name without one.
pub open spec fn last_dot(name: Seq<char>) -> int
    decreases name.len(),
{
    if name.len() == 0 {
        -1
    } else if name.last() == '.' {
        name.len() - 1
    } else {
        last_dot(name.drop_last())
    }
}

/// The extension of a name, without its dot.
pub open spec fn extension_of(name: Seq<char>) -> Option<Seq<char>> {
    if last_dot(name) > 0 {
        Some(name.subrange(last_dot(name) + 1, name.len() as int))
    } else {
        None
    }
}

/// The stem of a name: the name without its extension and the dot before it.
pub open spec fn stem_of(name: Seq<char>) -> Seq<char> {
    if last_dot(name) > 0 {
        name.subrange(0, last_dot(name))
    } else {
        name
    }
}

/// Whether an extension is one of the RAW formats that are converted.
pub open spec fn supported_extension(extension: Seq<char>) -> bool {
    let e = lowered(extension);
    e == "arw"@ || e == "nef"@ || e == "crw"@ || e == "cr2"@ || e == "orf"@ || e == "rw2"@
}

/// Whether a name is that of a candidate: it has a supported extension.
pub open spec fn candidate_name(name: Seq<char>) -> bool {
    extension_of(name) is Some && supported_extension(extension_of(name)->0)
}

/// The name of the JPEG file of a source file: its stem and `.jpg`.
pub open spec fn output_name_of(name: Seq<char>) -> Seq<char> {
    stem_of(name) + ".jpg"@
}

/// Where the last dot of a name stands: at a dot, with none after it.
pub proof fn lemma_last_dot(name: Seq<char>)
    ensures
        -1 <= last_dot(name) < name.len(),
        last_dot(name) >= 0 ==> name[last_dot(name)] == '.',
        forall|i: int| last_dot(name) < i < name.len() ==> name[i] != '.',
    decreases name.len(),
{
    if name.len() > 0 && name.last() != '.' {
        let front = name.drop_last();
        lemma_last_dot(front);
        assert forall|i: int| last_dot(name) < i < name.len() implies name[i] != '.' by {
            if i < front.len() {
                assert(front[i] != '.');
            }
        }
    }
}

/// Puts an ASCII capital in lower case.
pub fn to_ascii_lower(c: char) -> (l: char)
    ensures
        l == ascii_lower(c),
{
    if c >= 'A' && c <= 'Z' {
        ((c as u8) + 32) as char
    } else {
        c
    }
}

/// Whether `text`, with its ASCII capitals in lower case, is `expected`.
pub fn eq_ignoring_ascii_case(text: &str, expected: &str) -> (same: bool)
    ensures
        same == (lowered(text@) == expected@),
{
    let length = text.unicode_len();
    if length != expected.unicode_len() {
        return false;
    }
    let mut i: usize = 0;
    while i < length
        invariant
            i <= length,
            length == text@.len(),
            length == expected@.len(),
            forall|j: int| 0 <= j < i ==> ascii_lower(text@[j]) == expected@[j],
        decreases length - i,
    {
        if to_ascii_lower(text.get_char(i)) != expected.get_char(i) {
            assert(lowered(text@)[i as int] != expected@[i as int]);
            return false;
        }
        i = i + 1;
    }
    assert(lowered(text@) =~= expected@);
    true
}

/// A dot with no dot after it is the last dot; a name without a dot has none.
pub proof fn lemma_last_dot_is(name: Seq<char>, dot: int)
    requires
        -1 <= dot < name.len(),
        dot >= 0 ==> name[dot] == '.',
        forall|i: int| dot < i < name.len() ==> name[i] != '.',
    ensures
        last_dot(name) == dot,
    decreases name.len(),
{
    if name.len() > 0 && dot < name.len() - 1 {
        assert(name.last() != '.');
        lemma_last_dot_is(name.drop_last(), dot);
    }
}

/// The position of the dot that parts stem and extension, if the name has an
/// extension.
pub fn extension_dot(name: &str) -> (dot: Option<usize>)
    ensures
        match dot {
            Some(d) => 0 < d < name@.len() && d == last_dot(name@),
            None => last_dot(name@) <= 0,
        },
{
    let length = name.unicode_len();
    let mut i: usize = length;
    while i > 0
        invariant
            i <= length,
            length == name@.len(),
            forall|j: int| i <= j < length ==> name@[j] != '.',
        decreases i,
    {
        i = i - 1;
        if name.get_char(i) == '.' {
            proof {
                lemma_last_dot_is(name@, i as int);
            }
            if i > 0 {
                return Some(i);
            } else {
                return None;
            }
        }
    }
    proof {
        lemma_last_dot_is(name@, -1);
    }
    None
}

/// The extension of a file name, without its dot.
pub fn file_extension(name: &str) -> (extension: Option<&str>)
    ensures
        match extension {
            Some(e) => extension_of(name@) == Some(e@),
            None => extension_of(name@) is None,
        },
{
    let length = name.unicode_len();
    match extension_dot(name) {
        Some(dot) => Some(name.substring_char(dot + 1, length)),
        None => None,
    }
}

/// The stem of a file name.
pub fn file_stem(name: &str) -> (stem: &str)
    ensures
        stem@ == stem_of(name@),
{
    match extension_dot(name) {
        Some(dot) => name.substring_char(0, dot),
        None => name,
    }
}

/// Whether an extension, in any mix of cases, names a supported RAW format.
pub fn is_supported_extension(extension: &str) -> (supported: bool)
    ensures
        supported == supported_extension(extension@),
{
    eq_ignoring_ascii_case(extension, "arw") || eq_ignoring_ascii_case(extension, "nef")
        || eq_ignoring_ascii_case(extension, "crw") || eq_ignoring_ascii_case(extension, "cr2")
        || eq_ignoring_ascii_case(extension, "orf") || eq_ignoring_ascii_case(extension, "rw2")
}

/// Whether a file name is that of a candidate for conversion.
pub fn is_candidate(name: &str) -> (candidate: bool)
    ensures
        candidate == candidate_name(name@),
{
    match file_extension(name) {
        Some(extension) => is_supported_extension(extension),
        None => false,
    }
}

/// The name of the JPEG file written for the source file `name`.
pub fn output_file_name(name: &str) -> (output: String)
    ensures
        output@ == output_name_of(name@),
{
    let mut output = String::from_str(file_stem(name));
    output.append(".jpg");
    output
}

/// The names of a listing as mathematical values.
pub open spec fn name_views(names: Seq<String>) -> Seq<Seq<char>> {
    Seq::new(names.len(), |i: int| names[i]@)
}

/// The positions of the candidates in a listing, in the order of the listing.
pub open spec fn candidate_positions(names: Seq<Seq<char>>) -> Seq<int>
    decreases names.len(),
{
    if names.len() == 0 {
        Seq::empty()
    } else if candidate_name(names.last()) {
        candidate_positions(names.drop_last()).push(names.len() - 1)
    } else {
        candidate_positions(names.drop_last())
    }
}

/// The positions of the candidates among the entries of a directory.
pub fn candidates(names: &Vec<String>) -> (positions: Vec<usize>)
    ensures
        positions@.map_values(|p: usize| p as int) == candidate_positions(name_views(names@)),
{
    let mut positions: Vec<usize> = Vec::new();
    let mut i: usize = 0;
    while i < names.len()
        invariant
            i <= names.len(),
            positions@.map_values(|p: usize| p as int) == candidate_positions(
                name_views(names@).take(i as int),
            ),
        decreases names.len() - i,
    {
        let ghost listed = name_views(names@);
        assert(listed.take(i + 1).drop_last() == listed.take(i as int));
        assert(listed.take(i + 1).last() == names[i as int]@);
        if is_candidate(names[i].as_str()) {
            positions.push(i);
            assert(positions@.map_values(|p: usize| p as int) == candidate_positions(
                listed.take(i as int),
            ).push(i as int));
        }
        i = i + 1;
    }
    assert(name_views(names@).take(i as int) == name_views(names@));
    positions
}

/// The JPEG file written for a source file is never a candidate itself, so a
/// run does not feed on what an earlier run wrote, whatever the directories.
pub proof fn lemma_output_is_no_candidate(name: Seq<char>)
    ensures
        !candidate_name(output_name_of(name)),
{
    reveal_strlit(".jpg");
    reveal_strlit("arw");
    reveal_strlit("nef");
    reveal_strlit("crw");
    reveal_strlit("cr2");
    reveal_strlit("orf");
    reveal_strlit("rw2");
    let stem = stem_of(name);
    let output = output_name_of(name);
    lemma_last_dot_is(output, stem.len() as int);
    if stem.len() > 0 {
        let extension = extension_of(output)->0;
        assert(extension.len() == 3);
        assert(lowered(extension)[0] == 'j');
    }
}

} // verus!
