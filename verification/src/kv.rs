use vstd::prelude::*;

use crate::assoc::to_map;
use crate::table::Table;
use crate::text::{chars_of, push_char, string_of_range};

verus! {

/// The position of the first `c` in `u`, or the length of `u` when there
/// is none.
pub open spec fn first_of(u: Seq<char>, c: char) -> int
    decreases u.len(),
{
    if u.len() == 0 {
        0
    } else if u[0] == c {
        0
    } else {
        1 + first_of(u.drop_first(), c)
    }
}

/// One line of `key=value` text, with its line end.
pub open spec fn entry_line(k: Seq<char>, v: Seq<char>) -> Seq<char> {
    k + seq!['='] + v + seq!['\n']
}

/// The state text of a list of entries: one `key=value` line each, in
/// order.
pub open spec fn encoded(s: Seq<(Seq<char>, Seq<char>)>) -> Seq<char>
    decreases s.len(),
{
    if s.len() == 0 {
        Seq::empty()
    } else {
        entry_line(s[0].0, s[0].1) + encoded(s.drop_first())
    }
}

/// A raw line with the carriage return of a `\r\n` line end taken off.
pub open spec fn strip_cr(raw: Seq<char>, ended: bool) -> Seq<char> {
    if ended && raw.len() > 0 && raw.last() == '\r' {
        raw.drop_last()
    } else {
        raw
    }
}

/// The lines of `t`: split at each `\n`, a `\r` just before a `\n` dropped,
/// and no empty line after a final `\n`.
pub open spec fn lines_of(t: Seq<char>) -> Seq<Seq<char>>
    decreases t.len(),
{
    if t.len() == 0 {
        Seq::empty()
    } else {
        let e = first_of(t, '\n');
        proof {
            lemma_first_of(t, '\n');
        }
        if e < t.len() {
            seq![strip_cr(t.take(e), true)] + lines_of(t.skip(e + 1))
        } else {
            seq![t]
        }
    }
}

/// A line split at its first `=` into key and value; `None` when it has
/// no `=`.
pub open spec fn split_at_eq(line: Seq<char>) -> Option<(Seq<char>, Seq<char>)> {
    let i = first_of(line, '=');
    if i < line.len() {
        Some((line.take(i), line.skip(i + 1)))
    } else {
        None
    }
}

/// Adds the entries of `lines`, in order, to `m`: a line without `=` is
/// skipped, and a later line wins over an earlier one with the same key.
pub open spec fn fold_lines(m: Map<Seq<char>, Seq<char>>, lines: Seq<Seq<char>>) -> Map<
    Seq<char>,
    Seq<char>,
>
    decreases lines.len(),
{
    if lines.len() == 0 {
        m
    } else {
        let next = match split_at_eq(lines[0]) {
            Some(kv) => m.insert(kv.0, kv.1),
            None => m,
        };
        fold_lines(next, lines.drop_first())
    }
}

/// What a state text says: the entries of its lines.
pub open spec fn decoded(t: Seq<char>) -> Map<Seq<char>, Seq<char>> {
    fold_lines(Map::empty(), lines_of(t))
}

/// An entry that survives a trip through the text: the key holds no `=`
/// or line end, and the value no line end and no trailing carriage return.
pub open spec fn storable(k: Seq<char>, v: Seq<char>) -> bool {
    &&& !k.contains('=')
    &&& !k.contains('\n')
    &&& !v.contains('\n')
    &&& !(v.len() > 0 && v.last() == '\r')
}

/// `first_of` lies within the text, finds a `c` where it stops short of
/// the end, and passes no `c` before it.
pub proof fn lemma_first_of(u: Seq<char>, c: char)
    ensures
        0 <= first_of(u, c) <= u.len(),
        first_of(u, c) < u.len() ==> u[first_of(u, c)] == c,
        forall|q: int| 0 <= q < first_of(u, c) ==> u[q] != c,
    decreases u.len(),
{
    if u.len() > 0 && u[0] != c {
        lemma_first_of(u.drop_first(), c);
        assert forall|q: int| 0 <= q < first_of(u, c) implies u[q] != c by {
            if q > 0 {
                assert(u[q] == u.drop_first()[q - 1]);
            }
        }
    }
}

/// The first `c` is where the characterising conditions say it is.
proof fn lemma_first_of_is(u: Seq<char>, c: char, r: int)
    requires
        0 <= r <= u.len(),
        r < u.len() ==> u[r] == c,
        forall|q: int| 0 <= q < r ==> u[q] != c,
    ensures
        first_of(u, c) == r,
{
    lemma_first_of(u, c);
    let f = first_of(u, c);
    if f < r {
        assert(u[f] != c);
    }
    if r < f {
        assert(u[r] != c);
    }
}

proof fn lemma_fold_pairs(m: Map<Seq<char>, Seq<char>>, s: Seq<(Seq<char>, Seq<char>)>)
    requires
        forall|j: int| 0 <= j < s.len() ==> storable(#[trigger] s[j].0, s[j].1),
    ensures
        fold_lines(m, s.map_values(|p: (Seq<char>, Seq<char>)| p.0 + seq!['='] + p.1)) == pairs_onto(
            m,
            s,
        ),
    decreases s.len(),
{
    let ls = s.map_values(|p: (Seq<char>, Seq<char>)| p.0 + seq!['='] + p.1);
    if s.len() > 0 {
        let (k, v) = s[0];
        let line = k + seq!['='] + v;
        assert(ls[0] == line);
        assert(storable(s[0].0, s[0].1));
        lemma_first_of_is(line, '=', k.len() as int);
        assert(line.take(k.len() as int) =~= k);
        assert(line.skip(k.len() as int + 1) =~= v);
        assert(ls.drop_first() =~= s.drop_first().map_values(
            |p: (Seq<char>, Seq<char>)| p.0 + seq!['='] + p.1,
        ));
        lemma_fold_pairs(m.insert(k, v), s.drop_first());
    }
}

/// Inserts the pairs of `s` into `m`, first to last.
pub open spec fn pairs_onto(m: Map<Seq<char>, Seq<char>>, s: Seq<(Seq<char>, Seq<char>)>) -> Map<
    Seq<char>,
    Seq<char>,
>
    decreases s.len(),
{
    if s.len() == 0 {
        m
    } else {
        pairs_onto(m.insert(s[0].0, s[0].1), s.drop_first())
    }
}

proof fn lemma_pairs_onto_last(m: Map<Seq<char>, Seq<char>>, s: Seq<(Seq<char>, Seq<char>)>)
    requires
        s.len() > 0,
    ensures
        pairs_onto(m, s) == pairs_onto(m, s.drop_last()).insert(s.last().0, s.last().1),
    decreases s.len(),
{
    if s.len() == 1 {
        assert(s.drop_last() =~= Seq::<(Seq<char>, Seq<char>)>::empty());
        assert(s.drop_first() =~= Seq::<(Seq<char>, Seq<char>)>::empty());
        assert(s.last() == s[0]);
        assert(pairs_onto(m, s) == pairs_onto(m.insert(s[0].0, s[0].1), s.drop_first()));
    } else {
        let m2 = m.insert(s[0].0, s[0].1);
        lemma_pairs_onto_last(m2, s.drop_first());
        assert(s.drop_first().drop_last() =~= s.drop_last().drop_first());
        assert(s.drop_last()[0] == s[0]);
        assert(s.drop_first().last() == s.last());
        assert(pairs_onto(m, s) == pairs_onto(m2, s.drop_first()));
        assert(pairs_onto(m, s.drop_last()) == pairs_onto(m2, s.drop_last().drop_first()));
    }
}

proof fn lemma_pairs_onto_empty(s: Seq<(Seq<char>, Seq<char>)>)
    ensures
        pairs_onto(Map::empty(), s) == to_map(s),
    decreases s.len(),
{
    if s.len() > 0 {
        lemma_pairs_onto_last(Map::empty(), s);
        lemma_pairs_onto_empty(s.drop_last());
    }
}

proof fn lemma_lines_of_encoded(s: Seq<(Seq<char>, Seq<char>)>)
    requires
        forall|j: int| 0 <= j < s.len() ==> storable(#[trigger] s[j].0, s[j].1),
    ensures
        lines_of(encoded(s)) == s.map_values(|p: (Seq<char>, Seq<char>)| p.0 + seq!['='] + p.1),
    decreases s.len(),
{
    let ls = s.map_values(|p: (Seq<char>, Seq<char>)| p.0 + seq!['='] + p.1);
    if s.len() == 0 {
        assert(encoded(s) =~= Seq::<char>::empty());
        assert(ls =~= Seq::<Seq<char>>::empty());
    } else {
        let (k, v) = s[0];
        assert(storable(s[0].0, s[0].1));
        let line = k + seq!['='] + v;
        let rest = encoded(s.drop_first());
        let t = encoded(s);
        assert(t == entry_line(k, v) + rest);
        let e = line.len() as int;
        assert(t =~= line + seq!['\n'] + rest);
        assert forall|q: int| 0 <= q < e implies t[q] != '\n' by {
            assert(t[q] == line[q]);
            if q < k.len() {
                assert(k[q] == line[q]);
                assert(!k.contains('\n'));
            } else if q > k.len() {
                assert(v[q - k.len() - 1] == line[q]);
                assert(!v.contains('\n'));
            }
        }
        assert(t[e] == '\n');
        lemma_first_of_is(t, '\n', e);
        assert(t.take(e) =~= line);
        assert(t.skip(e + 1) =~= rest);
        assert(strip_cr(line, true) == line) by {
            if line.len() > 0 && line.last() == '\r' {
                if v.len() > 0 {
                    assert(line.last() == v.last());
                } else {
                    assert(line.last() == '=');
                }
            }
        }
        lemma_lines_of_encoded(s.drop_first());
        assert(ls =~= seq![line] + s.drop_first().map_values(
            |p: (Seq<char>, Seq<char>)| p.0 + seq!['='] + p.1,
        ));
    }
}

/// Writing the state out and reading it back gives the same entries: for
/// entries whose keys hold no `=` or line end and whose values hold no
/// line end and end in no carriage return, decoding the encoded text
/// gives the map of the entries, a later entry winning over an earlier one
/// with the same key.
pub proof fn decode_reads_back_encode(s: Seq<(Seq<char>, Seq<char>)>)
    requires
        forall|j: int| 0 <= j < s.len() ==> storable(#[trigger] s[j].0, s[j].1),
    ensures
        decoded(encoded(s)) == to_map(s),
{
    lemma_lines_of_encoded(s);
    lemma_fold_pairs(Map::empty(), s);
    lemma_pairs_onto_empty(s);
}

/// The state text of `entries`: `key=value` and a line end for each, in
/// order.
pub fn encode(entries: &Vec<(String, String)>) -> (out: String)
    ensures
        out@ == encoded(entries@.map_values(|p: (String, String)| (p.0@, p.1@))),
{
    let ghost s = entries@.map_values(|p: (String, String)| (p.0@, p.1@));
    let mut out = String::new();
    let mut i: usize = 0;
    assert(s.skip(0) =~= s);
    assert(out@ + encoded(s) =~= encoded(s));
    while i < entries.len()
        invariant
            i <= entries@.len(),
            s == entries@.map_values(|p: (String, String)| (p.0@, p.1@)),
            out@ + encoded(s.skip(i as int)) == encoded(s),
        decreases entries@.len() - i,
    {
        let ghost before = out@;
        let k = chars_of(entries[i].0.as_str());
        let v = chars_of(entries[i].1.as_str());
        crate::text::push_range(&mut out, &k, 0, k.len());
        push_char(&mut out, '=');
        crate::text::push_range(&mut out, &v, 0, v.len());
        push_char(&mut out, '\n');
        assert(k@.subrange(0, k@.len() as int) =~= k@);
        assert(v@.subrange(0, v@.len() as int) =~= v@);
        assert(out@ =~= before + entry_line(s[i as int].0, s[i as int].1));
        assert(s.skip(i as int).drop_first() =~= s.skip(i + 1));
        assert(encoded(s.skip(i as int)) == entry_line(s[i as int].0, s[i as int].1) + encoded(
            s.skip(i + 1),
        ));
        assert(before + (entry_line(s[i as int].0, s[i as int].1) + encoded(s.skip(i + 1)))
            =~= out@ + encoded(s.skip(i + 1)));
        i = i + 1;
    }
    assert(s.skip(i as int) =~= Seq::<(Seq<char>, Seq<char>)>::empty());
    assert(out@ + Seq::<char>::empty() =~= out@);
    out
}

/// The first `c` in `t[from..to]`, or `to`.
fn find_char(t: &Vec<char>, from: usize, to: usize, c: char) -> (r: usize)
    requires
        from <= to <= t@.len(),
    ensures
        from <= r <= to,
        r < to ==> t@[r as int] == c,
        forall|q: int| from <= q < r ==> t@[q] != c,
{
    let mut j = from;
    while j < to
        invariant
            from <= j <= to <= t@.len(),
            forall|q: int| from <= q < j ==> t@[q] != c,
        decreases to - j,
    {
        if t[j] == c {
            return j;
        }
        j = j + 1;
    }
    to
}

/// Reads a state text: every line of the form `key=value` (split at its
/// first `=`) gives an entry, other lines are skipped, and a later line
/// wins over an earlier one with the same key.
pub fn decode(text: &str) -> (out: Table)
    ensures
        out.view() == decoded(text@),
{
    let t = chars_of(text);
    let mut out = Table::new();
    let mut pos: usize = 0;
    assert(t@.skip(0) =~= t@);
    while pos < t.len()
        invariant
            t@ == text@,
            pos <= t@.len(),
            fold_lines(out.view(), lines_of(t@.skip(pos as int))) == decoded(t@),
        decreases t@.len() - pos,
    {
        let ghost u = t@.skip(pos as int);
        let e = find_char(&t, pos, t.len(), '\n');
        proof {
            assert forall|q: int| 0 <= q < e - pos implies u[q] != '\n' by {
                assert(u[q] == t@[pos + q]);
            }
            if e < t.len() {
                assert(u[e - pos] == t@[e as int]);
            }
            lemma_first_of_is(u, '\n', e - pos);
        }
        let ended = e < t.len();
        let end = if ended && e > pos && t[e - 1] == '\r' { e - 1 } else { e };
        let ghost raw = u.take(e - pos);
        let ghost line = strip_cr(raw, ended);
        assert(line =~= t@.subrange(pos as int, end as int));
        let q = find_char(&t, pos, end, '=');
        proof {
            assert forall|r: int| 0 <= r < q - pos implies line[r] != '=' by {
                assert(line[r] == t@[pos + r]);
            }
            if q < end {
                assert(line[q - pos] == t@[q as int]);
            }
            lemma_first_of_is(line, '=', q - pos);
        }
        let ghost before = out.view();
        if q < end {
            let key = string_of_range(&t, pos, q);
            let value = string_of_range(&t, q + 1, end);
            assert(key@ =~= line.take(q - pos));
            assert(value@ =~= line.skip(q - pos + 1));
            out.insert(key, value);
        }
        let ghost next = match split_at_eq(line) {
            Some(kv) => before.insert(kv.0, kv.1),
            None => before,
        };
        assert(out.view() == next);
        if !ended {
            assert(lines_of(u) == seq![u]);
            assert(line =~= u);
            assert(fold_lines(before, lines_of(u)) == fold_lines(next, lines_of(u).drop_first()));
            assert(lines_of(u).drop_first() =~= Seq::<Seq<char>>::empty());
            return out;
        }
        assert(u.skip(e - pos + 1) =~= t@.skip(e + 1));
        assert(lines_of(u) == seq![line] + lines_of(t@.skip(e + 1)));
        assert((seq![line] + lines_of(t@.skip(e + 1))).drop_first() =~= lines_of(t@.skip(e + 1)));
        pos = e + 1;
    }
    assert(t@.skip(pos as int) =~= Seq::<char>::empty());
    assert(lines_of(t@.skip(pos as int)) =~= Seq::<Seq<char>>::empty());
    out
}

/// The state text is one `key=value` line per entry, in order: an entry is
/// its key, `=`, its value and a line end, and the text of two lists one
/// after the other is the two texts one after the other.
pub proof fn a_line_per_entry(k: Seq<char>, v: Seq<char>, s1: Seq<(Seq<char>, Seq<char>)>, s2: Seq<(Seq<char>, Seq<char>)>)
    ensures
        encoded(seq![(k, v)]) == k + seq!['='] + v + seq!['\n'],
        encoded(s1 + s2) == encoded(s1) + encoded(s2),
    decreases s1.len(),
{
    let one = seq![(k, v)];
    assert(one.drop_first() =~= Seq::<(Seq<char>, Seq<char>)>::empty());
    assert(encoded(one.drop_first()) == Seq::<char>::empty());
    assert(encoded(one) == entry_line(k, v) + encoded(one.drop_first()));
    assert(encoded(one) =~= k + seq!['='] + v + seq!['\n']);
    if s1.len() == 0 {
        assert(s1 + s2 =~= s2);
        assert(encoded(s1) =~= Seq::<char>::empty());
        assert(encoded(s1) + encoded(s2) =~= encoded(s2));
    } else {
        a_line_per_entry(k, v, s1.drop_first(), s2);
        assert((s1 + s2).drop_first() =~= s1.drop_first() + s2);
        assert((s1 + s2)[0] == s1[0]);
        assert(encoded(s1 + s2) =~= encoded(s1) + encoded(s2));
    }
}

} // verus!
