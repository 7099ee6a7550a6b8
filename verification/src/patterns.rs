//! Which reader a radiation-pattern file goes to, and the state of a slot
//! that holds the pattern of one end of a path.
use vstd::prelude::*;

use crate::text::{chars_of, push_range, string_of};

verus! {

/// The kinds of file a pattern is read from.
#[derive(PartialEq, Eq, Structural, Clone, Copy, Debug)]
pub enum PatternFormat {
    /// A SPLAT! pair of `.az` and `.el` files.
    Splat,
    /// A pattern this program saved.
    Saved,
    /// The output of a NEC-2 run.
    NecOutput,
}

/// `c` with an ASCII capital turned into its small letter.
pub open spec fn ascii_lower(c: char) -> char {
    if 'A' <= c && c <= 'Z' {
        ((c as u32) + 32) as char
    } else {
        c
    }
}

/// Whether a file extension names a SPLAT! pattern file: `az` or `el`,
/// ASCII letters in either case.
pub open spec fn splat_extension(ext: Seq<char>) -> bool {
    &&& ext.len() == 2
    &&& (ascii_lower(ext[0]) == 'a' && ascii_lower(ext[1]) == 'z') || (ascii_lower(ext[0]) == 'e'
        && ascii_lower(ext[1]) == 'l')
}

/// Whether `ext`, the extension of a file's name, marks it as one of a
/// SPLAT! pair.
pub fn is_splat_extension(ext: &str) -> (r: bool)
    ensures
        r == splat_extension(ext@),
{
    let cs = chars_of(ext);
    if cs.len() != 2 {
        return false;
    }
    let a = cs[0];
    let b = cs[1];
    let az = (a == 'a' || a == 'A') && (b == 'z' || b == 'Z');
    let el = (a == 'e' || a == 'E') && (b == 'l' || b == 'L');
    az || el
}

/// The first line of a pattern this program saved begins so.
pub open spec fn saved_header() -> Seq<char> {
    "# antenna-toolbox pattern"@
}

/// A NEC-2 run prints this above its radiation patterns.
pub open spec fn nec_marker() -> Seq<char> {
    "RADIATION PATTERNS"@
}

/// Whether `needle` stands in `text` from position `i` on.
pub open spec fn occurs_at(text: Seq<char>, needle: Seq<char>, i: int) -> bool {
    0 <= i && i + needle.len() <= text.len() && text.subrange(i, i + needle.len()) == needle
}

/// Whether `needle` stands anywhere in `text`.
pub open spec fn occurs_in(text: Seq<char>, needle: Seq<char>) -> bool {
    exists|i: int| occurs_at(text, needle, i)
}

/// The reader that a file's text goes to, where its extension is not a
/// SPLAT! one: a saved pattern by its first line, NEC-2 output by the
/// heading of its patterns anywhere in it, else none.
pub open spec fn text_format_of(text: Seq<char>) -> Option<PatternFormat> {
    if occurs_at(text, saved_header(), 0) {
        Some(PatternFormat::Saved)
    } else if occurs_in(text, nec_marker()) {
        Some(PatternFormat::NecOutput)
    } else {
        None
    }
}

/// Whether `needle` stands in `text` from position `i` on.
fn matches_at(text: &Vec<char>, needle: &Vec<char>, i: usize) -> (r: bool)
    ensures
        r == occurs_at(text@, needle@, i as int),
{
    if i > text.len() || needle.len() > text.len() - i {
        return false;
    }
    let mut k: usize = 0;
    while k < needle.len()
        invariant
            i + needle@.len() <= text.len(),
            k <= needle@.len(),
            forall|j: int| 0 <= j < k ==> text@[i + j] == needle@[j],
        decreases needle@.len() - k,
    {
        if text[i + k] != needle[k] {
            assert(text@.subrange(i as int, i + needle@.len())[k as int] != needle@[k as int]);
            return false;
        }
        k = k + 1;
    }
    assert(text@.subrange(i as int, i + needle@.len()) =~= needle@);
    true
}

/// Whether `needle` stands anywhere in `text`.
fn contains_seq(text: &Vec<char>, needle: &Vec<char>) -> (r: bool)
    ensures
        r == occurs_in(text@, needle@),
{
    if needle.len() > text.len() {
        return false;
    }
    let last = text.len() - needle.len();
    let mut i: usize = 0;
    while i < last
        invariant
            last == text@.len() - needle@.len(),
            i <= last,
            forall|j: int| 0 <= j < i ==> !occurs_at(text@, needle@, j),
        decreases last - i,
    {
        if matches_at(text, needle, i) {
            return true;
        }
        i = i + 1;
    }
    if matches_at(text, needle, last) {
        return true;
    }
    assert forall|j: int| !occurs_at(text@, needle@, j) by {
        if 0 <= j && j + needle@.len() <= text@.len() {
            assert(j <= last);
        }
    }
    false
}

/// The reader for the text of a file whose extension is not a SPLAT! one:
/// `Saved` where it begins with the header of a saved pattern, else
/// `NecOutput` where it holds the heading of NEC-2's radiation patterns,
/// else `None`.
pub fn text_format(text: &str) -> (r: Option<PatternFormat>)
    ensures
        r == text_format_of(text@),
{
    let t = chars_of(text);
    let header = chars_of("# antenna-toolbox pattern");
    if matches_at(&t, &header, 0) {
        return Some(PatternFormat::Saved);
    }
    let marker = chars_of("RADIATION PATTERNS");
    if contains_seq(&t, &marker) {
        Some(PatternFormat::NecOutput)
    } else {
        None
    }
}

/// The words of the error for a file that is none of the three kinds.
pub open spec fn not_a_pattern_message(path: Seq<char>) -> Seq<char> {
    path + ": not a pattern, NEC-2 output or SPLAT! file"@
}

/// The error for a file at `path` that is none of the three kinds.
pub fn not_a_pattern(path: &str) -> (r: String)
    ensures
        r@ == not_a_pattern_message(path@),
{
    let mut r = string_of(path);
    let tail = chars_of(": not a pattern, NEC-2 output or SPLAT! file");
    push_range(&mut r, &tail, 0, tail.len());
    assert(tail@.subrange(0, tail@.len() as int) =~= tail@);
    r
}

/// A slot for the radiation pattern of one end of a path, as the
/// contracts see it.
pub struct SlotView<P> {
    pub pattern: Option<P>,
    pub aim: bool,
    pub path: Seq<char>,
    pub message: Option<(bool, Seq<char>)>,
    pub wants_design: bool,
    pub file: Seq<char>,
}

/// The words a slot shows once a pattern called `name` is in it.
pub open spec fn loaded_message(name: Seq<char>) -> Seq<char> {
    "loaded "@ + name
}

impl<P> SlotView<P> {
    /// The slot with pattern `p`, called `name`, put in.
    pub open spec fn with_pattern(self, p: P, name: Seq<char>) -> SlotView<P> {
        SlotView { pattern: Some(p), message: Some((true, loaded_message(name))), ..self }
    }

    /// The slot telling of a failure for the reason `why`; the pattern it
    /// held stays.
    pub open spec fn with_failure(self, why: Seq<char>) -> SlotView<P> {
        SlotView { message: Some((false, why)), ..self }
    }

    /// The slot after the file at `path` was read with the outcome `read`:
    /// the pattern and its name, or the reason it could not be had.
    pub open spec fn after_load(self, path: Seq<char>, read: Result<(P, String), String>) -> SlotView<P> {
        let s = SlotView { path, ..self };
        match read {
            Ok((p, name)) => s.with_pattern(p, name@),
            Err(why) => s.with_failure(why@),
        }
    }
}

/// The slot for the radiation pattern of one end of a path: the pattern,
/// whether the station turns it toward the other end, the path typed for a
/// file, what the slot last said, and whether the user asked for the
/// design's own pattern. `file` names where the pattern is kept between
/// runs.
pub struct PatternSlot<P> {
    pub pattern: Option<P>,
    pub aim: bool,
    pub path: String,
    msg: Option<(bool, String)>,
    wants_design: bool,
    file: &'static str,
}

impl<P> View for PatternSlot<P> {
    type V = SlotView<P>;

    closed spec fn view(&self) -> SlotView<P> {
        SlotView {
            pattern: self.pattern,
            aim: self.aim,
            path: self.path@,
            message: match self.msg {
                Some((ok, m)) => Some((ok, m@)),
                None => None,
            },
            wants_design: self.wants_design,
            file: self.file@,
        }
    }
}

impl<P> PatternSlot<P> {
    /// An empty slot whose pattern is kept in `file`.
    pub fn new(file: &'static str) -> (r: Self)
        ensures
            r@ == (SlotView::<P> {
                pattern: None,
                aim: false,
                path: Seq::empty(),
                message: None,
                wants_design: false,
                file: file@,
            }),
    {
        PatternSlot {
            pattern: None,
            aim: false,
            path: String::new(),
            msg: None,
            wants_design: false,
            file,
        }
    }

    /// The slot, turned toward the other end.
    pub fn aimed(self) -> (r: Self)
        ensures
            r@ == (SlotView::<P> { aim: true, ..self@ }),
    {
        let mut s = self;
        s.aim = true;
        s
    }

    /// The name of the file the pattern is kept in.
    pub fn file(&self) -> (r: &'static str)
        ensures
            r@ == self@.file,
    {
        self.file
    }

    /// What the slot last said: whether it went well, and the words.
    pub fn message(&self) -> (r: Option<(bool, String)>)
        ensures
            match r {
                Some((ok, m)) => self@.message == Some((ok, m@)),
                None => self@.message is None,
            },
    {
        match &self.msg {
            Some((ok, m)) => Some((*ok, m.clone())),
            None => None,
        }
    }

    /// Notes that the user asked for the design's own pattern.
    pub fn want_design(&mut self)
        ensures
            final(self)@ == (SlotView::<P> { wants_design: true, ..old(self)@ }),
    {
        self.wants_design = true;
    }

    /// Whether the user asked for the design's own pattern since the last
    /// call; the request is then taken.
    pub fn take_design_request(&mut self) -> (r: bool)
        ensures
            r == old(self)@.wants_design,
            final(self)@ == (SlotView::<P> { wants_design: false, ..old(self)@ }),
    {
        let r = self.wants_design;
        self.wants_design = false;
        r
    }

    /// Puts in the pattern `p`, called `name`, and says so.
    pub fn set(&mut self, p: P, name: &str)
        ensures
            final(self)@ == old(self)@.with_pattern(p, name@),
    {
        let mut m = String::new();
        let head = chars_of("loaded ");
        push_range(&mut m, &head, 0, head.len());
        let n = chars_of(name);
        push_range(&mut m, &n, 0, n.len());
        assert(Seq::<char>::empty() + head@.subrange(0, head@.len() as int) + n@.subrange(
            0,
            n@.len() as int,
        ) =~= loaded_message(name@));
        self.msg = Some((true, m));
        self.pattern = Some(p);
    }

    /// Says that a pattern could not be had, for the reason `why`; the
    /// pattern held stays.
    pub fn failed(&mut self, why: String)
        ensures
            final(self)@ == old(self)@.with_failure(why@),
    {
        self.msg = Some((false, why));
    }

    /// Empties the slot, so that the fixed gain applies again.
    pub fn clear(&mut self)
        ensures
            final(self)@ == (SlotView::<P> { pattern: None, message: None, ..old(self)@ }),
    {
        self.pattern = None;
        self.msg = None;
    }

    /// Takes the outcome `read` of reading the file at `path`: the pattern
    /// and its name, or the reason it could not be had.
    pub fn load(&mut self, path: &str, read: Result<(P, String), String>)
        ensures
            final(self)@ == old(self)@.after_load(path@, read),
    {
        self.path = string_of(path);
        match read {
            Ok((p, name)) => self.set(p, name.as_str()),
            Err(why) => self.failed(why),
        }
    }
}

/// A file that cannot be read as a pattern leaves the pattern the slot held
/// in place; the slot keeps the path and says why, as a failure.
pub proof fn a_failed_load_keeps_the_pattern<P>(s: SlotView<P>, path: Seq<char>, why: String)
    ensures
        s.after_load(path, Err(why)).pattern == s.pattern,
        s.after_load(path, Err(why)).path == path,
        s.after_load(path, Err(why)).message == Some((false, why@)),
{
}

/// A file read as a pattern replaces the one the slot held, whatever it
/// was, and the slot says that it was loaded.
pub proof fn a_good_load_replaces_the_pattern<P>(s: SlotView<P>, path: Seq<char>, p: P, name: String)
    ensures
        s.after_load(path, Ok((p, name))).pattern == Some(p),
        s.after_load(path, Ok((p, name))).message == Some((true, loaded_message(name@))),
        s.after_load(path, Ok((p, name))).aim == s.aim,
{
}

/// A SPLAT! file is known by its extension alone: exactly the two letters
/// `az` or `el`, each in either case.
pub proof fn splat_files_end_in_az_or_el(ext: Seq<char>)
    ensures
        splat_extension(ext) <==> ext.len() == 2 && (((ext[0] == 'a' || ext[0] == 'A') && (ext[1] == 'z'
            || ext[1] == 'Z')) || ((ext[0] == 'e' || ext[0] == 'E') && (ext[1] == 'l' || ext[1] == 'L'))),
{
}

} // verus!
