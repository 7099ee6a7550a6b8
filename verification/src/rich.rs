use vstd::prelude::*;

use crate::text::{chars_of, string_of_range};

verus! {

/// Whether a two-character marker starts at `i`: `**` toggles bold, `^^`
/// toggles the warning colour.
pub open spec fn marker_at(t: Seq<char>, i: int) -> bool {
    &&& 0 <= i
    &&& i + 1 < t.len()
    &&& ((t[i] == '*' && t[i + 1] == '*') || (t[i] == '^' && t[i + 1] == '^'))
}

/// The first position at or after `from` where a marker starts, or the
/// length of `t` when there is none.
pub open spec fn next_marker(t: Seq<char>, from: int) -> int
    decreases t.len() - from,
{
    if from < 0 || from + 1 >= t.len() {
        t.len() as int
    } else if marker_at(t, from) {
        from
    } else {
        next_marker(t, from + 1)
    }
}

/// The styled runs of `t` from position `pos`, given the bold and warning
/// states in force there: each run is the text up to the next marker, and
/// each marker flips its own state.
pub open spec fn sections_from(t: Seq<char>, pos: int, bold: bool, warn: bool) -> Seq<
    (Seq<char>, bool, bool),
>
    decreases t.len() - pos,
{
    if pos < 0 || pos >= t.len() {
        Seq::empty()
    } else {
        let i = next_marker(t, pos);
        let head = if i > pos {
            seq![(t.subrange(pos, i), bold, warn)]
        } else {
            Seq::empty()
        };
        if i < pos || i + 2 > t.len() {
            head
        } else {
            head + sections_from(
                t,
                i + 2,
                if t[i] == '*' { !bold } else { bold },
                if t[i] == '^' { !warn } else { warn },
            )
        }
    }
}

/// The text of `t` from `pos` with every marker taken out.
pub open spec fn plain_from(t: Seq<char>, pos: int) -> Seq<char>
    decreases t.len() - pos,
{
    if pos < 0 || pos >= t.len() {
        Seq::empty()
    } else if marker_at(t, pos) {
        plain_from(t, pos + 2)
    } else {
        seq![t[pos]] + plain_from(t, pos + 1)
    }
}

/// The texts of a list of runs, joined.
pub open spec fn joined(s: Seq<(Seq<char>, bool, bool)>) -> Seq<char>
    decreases s.len(),
{
    if s.len() == 0 {
        Seq::empty()
    } else {
        s[0].0 + joined(s.drop_first())
    }
}

/// A run of text in one style.
pub struct Section {
    pub text: String,
    pub bold: bool,
    pub warn: bool,
}

impl View for Section {
    type V = (Seq<char>, bool, bool);

    open spec fn view(&self) -> (Seq<char>, bool, bool) {
        (self.text@, self.bold, self.warn)
    }
}

/// The colour a run is drawn in: the warning colour wins over bold.
#[derive(Clone, Copy, PartialEq, Eq, Debug)]
pub enum Role {
    Readout,
    Value,
    Base,
}

/// The colour role of a run with the given states.
pub fn role(bold: bool, warn: bool) -> (r: Role)
    ensures
        r == (if warn {
            Role::Readout
        } else if bold {
            Role::Value
        } else {
            Role::Base
        }),
{
    if warn {
        Role::Readout
    } else if bold {
        Role::Value
    } else {
        Role::Base
    }
}

proof fn lemma_next_marker_bounds(t: Seq<char>, from: int)
    requires
        0 <= from <= t.len(),
    ensures
        from <= next_marker(t, from) <= t.len(),
        next_marker(t, from) < t.len() ==> marker_at(t, next_marker(t, from)),
        forall|j: int| from <= j < next_marker(t, from) ==> !marker_at(t, j),
    decreases t.len() - from,
{
    if from + 1 >= t.len() {
    } else if marker_at(t, from) {
    } else {
        lemma_next_marker_bounds(t, from + 1);
    }
}

proof fn lemma_joined_append(a: Seq<(Seq<char>, bool, bool)>, b: Seq<(Seq<char>, bool, bool)>)
    ensures
        joined(a + b) == joined(a) + joined(b),
    decreases a.len(),
{
    if a.len() == 0 {
        assert(a + b =~= b);
        assert(joined(a) + joined(b) =~= joined(b));
    } else {
        assert((a + b).drop_first() =~= a.drop_first() + b);
        lemma_joined_append(a.drop_first(), b);
        assert(joined(a + b) == a[0].0 + joined(a.drop_first() + b));
        assert(a[0].0 + (joined(a.drop_first()) + joined(b)) =~= (a[0].0 + joined(a.drop_first()))
            + joined(b));
    }
}

proof fn lemma_plain_run(t: Seq<char>, pos: int, k: int)
    requires
        0 <= pos <= k <= next_marker(t, pos),
        pos <= t.len(),
    ensures
        plain_from(t, k) == t.subrange(k, next_marker(t, pos)) + plain_from(t, next_marker(t, pos)),
    decreases next_marker(t, pos) - k,
{
    lemma_next_marker_bounds(t, pos);
    let i = next_marker(t, pos);
    if k == i {
        assert(t.subrange(k, i) + plain_from(t, i) =~= plain_from(t, i));
    } else {
        assert(!marker_at(t, k));
        lemma_plain_run(t, pos, k + 1);
        assert(plain_from(t, k) == seq![t[k]] + plain_from(t, k + 1));
        assert(seq![t[k]] + (t.subrange(k + 1, i) + plain_from(t, i)) =~= t.subrange(k, i)
            + plain_from(t, i));
    }
}

proof fn lemma_sections_join(t: Seq<char>, pos: int, bold: bool, warn: bool)
    requires
        0 <= pos <= t.len(),
    ensures
        joined(sections_from(t, pos, bold, warn)) == plain_from(t, pos),
        forall|k: int|
            0 <= k < sections_from(t, pos, bold, warn).len() ==> #[trigger] sections_from(
                t,
                pos,
                bold,
                warn,
            )[k].0.len() > 0,
    decreases t.len() - pos,
{
    if pos == t.len() {
        assert(joined(Seq::<(Seq<char>, bool, bool)>::empty()) =~= Seq::<char>::empty());
    } else {
        lemma_next_marker_bounds(t, pos);
        let i = next_marker(t, pos);
        lemma_plain_run(t, pos, pos);
        let head = if i > pos {
            seq![(t.subrange(pos, i), bold, warn)]
        } else {
            Seq::<(Seq<char>, bool, bool)>::empty()
        };
        assert(joined(head) == t.subrange(pos, i)) by {
            if i > pos {
                assert(head.drop_first() =~= Seq::<(Seq<char>, bool, bool)>::empty());
                assert(joined(head.drop_first()) =~= Seq::<char>::empty());
                assert(head[0].0 == t.subrange(pos, i));
                assert(joined(head) == head[0].0 + joined(head.drop_first()));
                assert(t.subrange(pos, i) + Seq::<char>::empty() =~= t.subrange(pos, i));
            } else {
                assert(t.subrange(pos, i) =~= Seq::<char>::empty());
                assert(joined(head) =~= Seq::<char>::empty());
            }
        }
        if i == t.len() {
            assert(plain_from(t, i) =~= Seq::<char>::empty());
            assert(t.subrange(pos, i) + Seq::<char>::empty() =~= t.subrange(pos, i));
        } else {
            let nb = if t[i] == '*' { !bold } else { bold };
            let nw = if t[i] == '^' { !warn } else { warn };
            lemma_sections_join(t, i + 2, nb, nw);
            lemma_joined_append(head, sections_from(t, i + 2, nb, nw));
            assert(plain_from(t, i) == plain_from(t, i + 2));
            let rest = sections_from(t, i + 2, nb, nw);
            assert forall|k: int| 0 <= k < (head + rest).len() implies #[trigger] (head + rest)[k].0.len()
                > 0 by {
                if k >= head.len() {
                    assert((head + rest)[k] == rest[k - head.len()]);
                }
            }
        }
    }
}

/// Taking the styles off again gives back the text: the runs that
/// `sections` returns, joined, are the text with every marker removed,
/// and no run is empty.
pub proof fn sections_keep_the_text(t: Seq<char>)
    ensures
        joined(sections_from(t, 0, false, false)) == plain_from(t, 0),
        forall|k: int|
            0 <= k < sections_from(t, 0, false, false).len() ==> #[trigger] sections_from(
                t,
                0,
                false,
                false,
            )[k].0.len() > 0,
{
    lemma_sections_join(t, 0, false, false);
}

/// Finds the next marker at or after `from` in `t`.
fn find_marker(t: &Vec<char>, from: usize) -> (i: usize)
    requires
        from <= t@.len(),
    ensures
        i == next_marker(t@, from as int),
{
    proof {
        lemma_next_marker_bounds(t@, from as int);
    }
    let mut j = from;
    while t.len() - j >= 2
        invariant
            from <= j <= t@.len(),
            next_marker(t@, j as int) == next_marker(t@, from as int),
        decreases t@.len() - j,
    {
        if (t[j] == '*' && t[j + 1] == '*') || (t[j] == '^' && t[j + 1] == '^') {
            return j;
        }
        j = j + 1;
    }
    t.len()
}

/// Splits `text` into runs of one style each. `**` toggles bold and `^^`
/// toggles the warning colour; the markers themselves are dropped, and so
/// are empty runs.
pub fn sections(text: &str) -> (out: Vec<Section>)
    ensures
        out@.map_values(|s: Section| s@) == sections_from(text@, 0, false, false),
{
    let t = chars_of(text);
    let mut out: Vec<Section> = Vec::new();
    let mut pos: usize = 0;
    let mut bold = false;
    let mut warn = false;
    while pos < t.len()
        invariant
            t@ == text@,
            pos <= t@.len(),
            out@.map_values(|s: Section| s@) + sections_from(t@, pos as int, bold, warn)
                == sections_from(t@, 0, false, false),
        decreases t@.len() - pos,
    {
        let i = find_marker(&t, pos);
        proof {
            lemma_next_marker_bounds(t@, pos as int);
        }
        let ghost before = out@.map_values(|s: Section| s@);
        if i > pos {
            let chunk = string_of_range(&t, pos, i);
            out.push(Section { text: chunk, bold, warn });
        }
        let ghost head = if i > pos {
            seq![(t@.subrange(pos as int, i as int), bold, warn)]
        } else {
            Seq::empty()
        };
        assert(out@.map_values(|s: Section| s@) =~= before + head);
        if i >= t.len() {
            assert(sections_from(t@, pos as int, bold, warn) == head);
            assert(sections_from(t@, i as int, bold, warn) =~= Seq::empty());
            assert(out@.map_values(|s: Section| s@) + Seq::empty() =~= out@.map_values(
                |s: Section| s@,
            ));
            return out;
        }
        let next_bold = if t[i] == '*' { !bold } else { bold };
        let next_warn = if t[i] == '^' { !warn } else { warn };
        assert(sections_from(t@, pos as int, bold, warn) == head + sections_from(
            t@,
            i + 2,
            next_bold,
            next_warn,
        ));
        assert(before + (head + sections_from(t@, i + 2, next_bold, next_warn)) =~= (before + head)
            + sections_from(t@, i + 2, next_bold, next_warn));
        bold = next_bold;
        warn = next_warn;
        pos = i + 2;
    }
    assert(sections_from(t@, pos as int, bold, warn) =~= Seq::empty());
    assert(out@.map_values(|s: Section| s@) + Seq::empty() =~= out@.map_values(|s: Section| s@));
    out
}

/// Whether `t` holds neither `*` nor `^`.
pub open spec fn unmarked(t: Seq<char>) -> bool {
    forall|j: int| 0 <= j < t.len() ==> t[j] != '*' && t[j] != '^'
}

proof fn lemma_no_marker_from(t: Seq<char>, pos: int)
    requires
        0 <= pos <= t.len(),
        forall|j: int| pos <= j ==> !marker_at(t, j),
    ensures
        next_marker(t, pos) == t.len(),
    decreases t.len() - pos,
{
    if pos + 1 < t.len() {
        lemma_no_marker_from(t, pos + 1);
    }
}

proof fn lemma_marker_first(t: Seq<char>, pos: int, k: int)
    requires
        0 <= pos <= k,
        forall|j: int| pos <= j < k ==> !marker_at(t, j),
        marker_at(t, k),
    ensures
        next_marker(t, pos) == k,
    decreases k - pos,
{
    if pos < k {
        lemma_marker_first(t, pos + 1, k);
    }
}

/// The runs of `t` from `pos` on, where no marker starts there or later:
/// the rest of the text, in the style in force, as one run.
proof fn lemma_rest_is_one_run(t: Seq<char>, pos: int, bold: bool, warn: bool)
    requires
        0 <= pos < t.len(),
        forall|j: int| pos <= j ==> !marker_at(t, j),
    ensures
        sections_from(t, pos, bold, warn) == seq![(t.subrange(pos, t.len() as int), bold, warn)],
{
    lemma_no_marker_from(t, pos);
}

/// Only `**` and `^^` are markers: a text in which no `*` follows a `*`
/// and no `^` follows a `^` is one plain run, all of it, and an empty text
/// has no runs.
pub proof fn only_double_stars_and_carets_mark(t: Seq<char>)
    requires
        forall|i: int|
            0 <= i < t.len() - 1 ==> !(#[trigger] t[i] == '*' && t[i + 1] == '*') && !(t[i] == '^'
                && t[i + 1] == '^'),
    ensures
        t.len() == 0 ==> sections_from(t, 0, false, false).len() == 0,
        t.len() > 0 ==> sections_from(t, 0, false, false) == seq![(t, false, false)],
{
    if t.len() > 0 {
        assert forall|j: int| 0 <= j implies !marker_at(t, j) by {
            if j + 1 < t.len() {
                assert(0 <= j < t.len() - 1);
            }
        }
        lemma_rest_is_one_run(t, 0, false, false);
        assert(t.subrange(0, t.len() as int) =~= t);
    }
}

/// A marker between two plain texts splits them into two runs: the text
/// before it plain, the text after it bold for `**` and in the warning
/// colour for `^^`, and the marker itself dropped.
pub proof fn a_marker_styles_what_follows(a: Seq<char>, m: char, c: Seq<char>)
    requires
        m == '*' || m == '^',
        a.len() > 0,
        c.len() > 0,
        unmarked(a),
        unmarked(c),
    ensures
        sections_from(a + seq![m, m] + c, 0, false, false) == seq![
            (a, false, false),
            (c, m == '*', m == '^'),
        ],
{
    let t = a + seq![m, m] + c;
    let k = a.len() as int;
    assert(t[k] == m && t[k + 1] == m);
    assert forall|j: int| 0 <= j < k implies !marker_at(t, j) by {
        assert(t[j] == a[j]);
    }
    lemma_marker_first(t, 0, k);
    assert forall|j: int| k + 2 <= j implies !marker_at(t, j) by {
        if j < t.len() {
            assert(t[j] == c[j - k - 2]);
        }
    }
    lemma_rest_is_one_run(t, k + 2, m == '*', m == '^');
    assert(t.subrange(0, k) =~= a);
    assert(t.subrange(k + 2, t.len() as int) =~= c);
    assert(sections_from(t, 0, false, false) == seq![(t.subrange(0, k), false, false)] + sections_from(
        t,
        k + 2,
        m == '*',
        m == '^',
    ));
}

} // verus!
