//! Where a lab note is kept: a directory for each course under a base
//! directory, and in it a file for each assignment.

use vstd::prelude::*;
use vstd::string::StrSliceExecFns;
use vstd::string::StringExecFns;
use vstd::string::StringSliceAdditionalSpecFns;
use vstd::utf8::{decode_utf8, encode_utf8, encode_utf8_decode_utf8, is_char_boundary};

verus! {

/// What `str::trim` leaves of a text.
pub uninterp spec fn trimmed(text: Seq<char>) -> Seq<char>;

/// What `str::to_lowercase` makes of a text.
pub uninterp spec fn lowercased(text: Seq<char>) -> Seq<char>;

/// A text in which `to` stands in place of every `from`.
pub open spec fn replaced(text: Seq<char>, from: char, to: Seq<char>) -> Seq<char>
    decreases text.len(),
{
    if text.len() == 0 {
        Seq::empty()
    } else {
        let last = if text.last() == from {
            to
        } else {
            seq![text.last()]
        };
        replaced(text.drop_last(), from, to) + last
    }
}

/// `str::trim`, which takes the white space off both ends of a text. The
/// contract gives the result a name and claims that it depends on the text
/// alone.
#[verifier::external_body]
fn trim(text: &str) -> (out: &str)
    ensures
        out@ == trimmed(text@),
{
    text.trim()
}

/// `str::to_lowercase`, which writes a text in lower case. The contract
/// gives the result a name and claims that it depends on the text alone.
#[verifier::external_body]
fn to_lowercase(text: &str) -> (out: String)
    ensures
        out@ == lowercased(text@),
{
    text.to_lowercase()
}

/// Writes `to` in place of every `from` in a text.
fn replace(text: &str, from: char, to: &str) -> (out: String)
    ensures
        out@ == replaced(text@, from, to@),
{
    let length = text.unicode_len();
    let mut out = String::new();
    let mut at: usize = 0;
    assert(text@.take(0) =~= Seq::<char>::empty());
    while at < length
        invariant
            at <= length,
            length == text@.len(),
            out@ == replaced(text@.take(at as int), from, to@),
        decreases length - at,
    {
        if text.get_char(at) == from {
            out.append(to);
        } else {
            out.append(text.substring_char(at, at + 1));
        }
        at += 1;
        proof {
            let head = text@.take(at as int);
            assert(head.drop_last() =~= text@.take(at - 1));
            assert(text@.subrange(at - 1, at as int) =~= seq![head.last()]);
        }
    }
    assert(text@.take(length as int) =~= text@);
    out
}

/// A name made fit for a path: trimmed, in lower case, with `filler` in
/// place of every space.
pub open spec fn path_name(text: Seq<char>, filler: Seq<char>) -> Seq<char> {
    replaced(lowercased(trimmed(text)), ' ', filler)
}

/// The start of a course's name that stands for the course: the characters
/// that its first seven bytes hold.
pub open spec fn course_code(course_name: Seq<char>) -> Seq<char> {
    decode_utf8(encode_utf8(course_name).subrange(0, 7))
}

/// The directory of a course's lab notes.
pub open spec fn lab_directory(base_dir: Seq<char>, course_name: Seq<char>) -> Seq<char> {
    base_dir + path_name(course_code(course_name), Seq::empty()) + "/lab/"@
}

/// The name of the file of an assignment's lab note.
pub open spec fn lab_file_name(assignment_name: Seq<char>) -> Seq<char> {
    path_name(assignment_name, "_"@) + ".md"@
}

/// Makes a name fit for a path.
fn to_path_name(text: &str, filler: &str) -> (name: String)
    ensures
        name@ == path_name(text@, filler@),
{
    let lower = to_lowercase(trim(text));
    replace(lower.as_str(), ' ', filler)
}

/// The directory of a course's lab notes. The name of the course has to be
/// at least seven bytes long, and the seventh must end a character.
pub fn course_dir(base_dir: &str, course_name: &str) -> (dir: String)
    requires
        is_char_boundary(course_name.spec_bytes(), 7),
    ensures
        dir@ == lab_directory(base_dir@, course_name@),
{
    let (code, _) = course_name.split_at(7);
    proof {
        encode_utf8_decode_utf8(code@);
        reveal_strlit("");
        assert(""@ =~= Seq::<char>::empty());
        assert(code@ == course_code(course_name@));
    }
    let mut dir = String::from_str(base_dir);
    dir.append(to_path_name(code, "").as_str());
    dir.append("/lab/");
    dir
}

/// The name of the file of an assignment's lab note.
pub fn file_name(assignment_name: &str) -> (name: String)
    ensures
        name@ == lab_file_name(assignment_name@),
{
    let mut name = to_path_name(assignment_name, "_");
    name.append(".md");
    name
}

/// The path of a lab note: its file in its directory.
pub fn file_path(course_dir: &str, file_name: &str) -> (path: String)
    ensures
        path@ == course_dir@ + "/"@ + file_name@,
{
    let mut path = String::from_str(course_dir);
    path.append("/");
    path.append(file_name);
    path
}

/// Whether a base directory is written with `~`, which stands for a home
/// directory and is not a full path.
pub fn names_home(base_dir: &str) -> (home: bool)
    ensures
        home == base_dir@.contains('~'),
{
    let length = base_dir.unicode_len();
    let mut at: usize = 0;
    while at < length
        invariant
            at <= length,
            length == base_dir@.len(),
            forall|k: int| 0 <= k < at ==> base_dir@[k] != '~',
        decreases length - at,
    {
        if base_dir.get_char(at) == '~' {
            return true;
        }
        at += 1;
    }
    false
}

} // verus!
