use vstd::prelude::*;

use crate::text::{chars_of, push_char};

verus! {

/// The lower-case form of a text by Unicode's rules, as
/// `str::to_lowercase` of std gives it.
pub uninterp spec fn lowercase_of(s: Seq<char>) -> Seq<char>;

/// The lower-case form of `s`: `str::to_lowercase` of std. Its result is
/// named, not stated: Unicode's case rules take tables to state.
#[verifier::external_body]
fn to_lowercase(s: &str) -> (r: String)
    ensures
        r@ == lowercase_of(s@),
{
    s.to_lowercase()
}

/// Whether `c` is an ASCII letter or digit.
pub open spec fn is_ascii_alnum(c: char) -> bool {
    ('0' <= c && c <= '9') || ('a' <= c && c <= 'z') || ('A' <= c && c <= 'Z')
}

/// A lower-cased name made safe for a file name: every character that is
/// not an ASCII letter or digit becomes `-`.
pub open spec fn slugged(lower: Seq<char>) -> Seq<char> {
    Seq::new(lower.len(), |i: int| if is_ascii_alnum(lower[i]) { lower[i] } else { '-' })
}

/// `lower` with every character that is not an ASCII letter or digit
/// turned into `-`.
pub fn slug_of_lowercase(lower: &str) -> (r: String)
    ensures
        r@ == slugged(lower@),
{
    let cs = chars_of(lower);
    let mut r = String::new();
    let mut i: usize = 0;
    while i < cs.len()
        invariant
            cs@ == lower@,
            i <= cs@.len(),
            r@ == slugged(lower@).take(i as int),
        decreases cs@.len() - i,
    {
        let c = cs[i];
        let ok = ('0' <= c && c <= '9') || ('a' <= c && c <= 'z') || ('A' <= c && c <= 'Z');
        push_char(&mut r, if ok { c } else { '-' });
        assert(slugged(lower@).take(i + 1) =~= slugged(lower@).take(i as int).push(
            if ok { c } else { '-' },
        ));
        i = i + 1;
    }
    assert(slugged(lower@).take(i as int) =~= slugged(lower@));
    r
}

/// The name of a design made into the start of a file name: lower-cased,
/// every character that is not an ASCII letter or digit turned into `-`.
pub fn slug(name: &str) -> (r: String)
    ensures
        r@ == slugged(lowercase_of(name@)),
{
    let lower = to_lowercase(name);
    slug_of_lowercase(lower.as_str())
}

/// A slug holds only ASCII letters, digits and `-`, and is as long as the
/// lower-cased name.
pub proof fn slugs_are_safe(lower: Seq<char>)
    ensures
        slugged(lower).len() == lower.len(),
        forall|i: int|
            0 <= i < lower.len() ==> is_ascii_alnum(#[trigger] slugged(lower)[i]) || slugged(lower)[i]
                == '-',
{
}

} // verus!
