use vstd::prelude::*;

use crate::assoc::to_map;
use crate::designs::same_text;
use crate::kv::{decode_reads_back_encode, decoded, encoded, storable};
use crate::numbers::{
    decimal, flag_text, flag_value, parse_bool, parse_usize, saved_numbers_read_back, usize_value,
};
use crate::table::Table;
use crate::text::{chars_of, push_range, string_of};

verus! {

/// How the VNA tab takes the cable out of a measurement.
#[derive(Clone, Copy, PartialEq, Eq, Structural, Debug)]
pub enum Deembed {
    Off,
    Cable,
    Measured,
}

/// The name a de-embedding mode is saved under.
pub open spec fn deembed_name_of(d: Deembed) -> &'static str {
    match d {
        Deembed::Off => "off",
        Deembed::Cable => "cable",
        Deembed::Measured => "measured",
    }
}

/// The name a de-embedding mode is saved under.
pub fn deembed_name(d: Deembed) -> (s: &'static str)
    ensures
        s == deembed_name_of(d),
{
    match d {
        Deembed::Off => "off",
        Deembed::Cable => "cable",
        Deembed::Measured => "measured",
    }
}

/// The de-embedding mode to restore from its saved name: `cable` gives
/// the cable model, `measured` the measured fit but only while there is
/// one, and anything else, or nothing, turns it off.
pub open spec fn deembed_for(name: Option<Seq<char>>, has_fit: bool) -> Deembed {
    match name {
        Some(n) => if n == "cable"@ {
            Deembed::Cable
        } else if n == "measured"@ && has_fit {
            Deembed::Measured
        } else {
            Deembed::Off
        },
        None => Deembed::Off,
    }
}

/// The de-embedding mode to restore from its saved name, as
/// `deembed_for` says.
pub fn deembed_from(name: Option<&str>, has_fit: bool) -> (d: Deembed)
    ensures
        d == deembed_for(
            match name {
                Some(n) => Some(n@),
                None => None,
            },
            has_fit,
        ),
{
    match name {
        Some(n) => {
            if same_text(n, "cable") {
                Deembed::Cable
            } else if same_text(n, "measured") && has_fit {
                Deembed::Measured
            } else {
                Deembed::Off
            }
        },
        None => Deembed::Off,
    }
}

/// A saved de-embedding mode comes back as it was, except that the
/// measured fit falls back to off when no fit is saved with it.
pub proof fn deembed_reads_back(d: Deembed, has_fit: bool)
    ensures
        deembed_for(Some(deembed_name_of(d)@), has_fit) == (if d == Deembed::Measured && !has_fit {
            Deembed::Off
        } else {
            d
        }),
{
    reveal_strlit("off");
    reveal_strlit("cable");
    reveal_strlit("measured");
    assert("off"@.len() == 3);
    assert("cable"@.len() == 5);
    assert("measured"@.len() == 8);
}

/// Which radio climate a saved climate code stands for: codes count from
/// 1, so code `c` is entry `c - 1` of the `count` climates; 0 and codes
/// past the end stand for none.
pub fn climate_index(code: usize, count: usize) -> (r: Option<usize>)
    ensures
        r == (if 1 <= code && code <= count {
            Some((code - 1) as usize)
        } else {
            None::<usize>
        }),
{
    if code >= 1 && code <= count {
        Some(code - 1)
    } else {
        None
    }
}

/// The cable to restore from a saved index: the last of the `count`
/// cables when the index runs past it.
pub fn cable_index(saved: usize, count: usize) -> (r: usize)
    requires
        count >= 1,
    ensures
        r == (if saved < count - 1 {
            saved
        } else {
            (count - 1) as usize
        }),
{
    if saved < count - 1 {
        saved
    } else {
        count - 1
    }
}

/// The key a pattern slot's setting is saved under: the slot's tag, then
/// the setting's name.
pub fn slot_key(tag: &str, field: &str) -> (k: String)
    ensures
        k@ == tag@ + field@,
{
    let mut k = string_of(tag);
    let f = chars_of(field);
    push_range(&mut k, &f, 0, f.len());
    assert(f@.subrange(0, f@.len() as int) =~= f@);
    k
}

/// The count or index saved under `key`, where one is saved there and reads
/// as a `usize`.
pub open spec fn saved_usize_of(saved: Map<Seq<char>, Seq<char>>, key: Seq<char>) -> Option<usize> {
    if saved.dom().contains(key) {
        usize_value(saved[key])
    } else {
        None
    }
}

/// The flag saved under `key`, where one is saved there and reads as
/// `true` or `false`.
pub open spec fn saved_flag_of(saved: Map<Seq<char>, Seq<char>>, key: Seq<char>) -> Option<bool> {
    if saved.dom().contains(key) {
        flag_value(saved[key])
    } else {
        None
    }
}

/// The count or index saved under `key`, as `saved_usize_of` says.
pub fn saved_usize(saved: &Table, key: &str) -> (r: Option<usize>)
    ensures
        r == saved_usize_of(saved.view(), key@),
{
    match saved.get(key) {
        Some(v) => parse_usize(v.as_str()),
        None => None,
    }
}

/// The flag saved under `key`, as `saved_flag_of` says.
pub fn saved_flag(saved: &Table, key: &str) -> (r: Option<bool>)
    ensures
        r == saved_flag_of(saved.view(), key@),
{
    match saved.get(key) {
        Some(v) => parse_bool(v.as_str()),
        None => None,
    }
}

/// A count and a flag written into the state text come back when it is
/// read: where the entries written give `key` the count `n` in decimal,
/// the text read back gives `n` under `key`; where they give `flag_key` a
/// flag, it gives that flag.
pub proof fn saved_settings_read_back(
    s: Seq<(Seq<char>, Seq<char>)>,
    key: Seq<char>,
    n: usize,
    flag_key: Seq<char>,
    b: bool,
)
    requires
        forall|j: int| 0 <= j < s.len() ==> storable(#[trigger] s[j].0, s[j].1),
        to_map(s).dom().contains(key),
        to_map(s)[key] == decimal(n as nat),
        to_map(s).dom().contains(flag_key),
        to_map(s)[flag_key] == flag_text(b),
    ensures
        saved_usize_of(decoded(encoded(s)), key) == Some(n),
        saved_flag_of(decoded(encoded(s)), flag_key) == Some(b),
{
    decode_reads_back_encode(s);
    saved_numbers_read_back(n as nat, b);
}

/// The de-embedding modes are saved under their own names: `off`, `cable`
/// and `measured`.
pub proof fn deembed_modes_are_saved_by_name()
    ensures
        deembed_name_of(Deembed::Off)@ == "off"@,
        deembed_name_of(Deembed::Cable)@ == "cable"@,
        deembed_name_of(Deembed::Measured)@ == "measured"@,
        deembed_for(Some("cable"@), false) == Deembed::Cable,
        deembed_for(Some("measured"@), true) == Deembed::Measured,
        deembed_for(Some("off"@), true) == Deembed::Off,
{
    reveal_strlit("off");
    reveal_strlit("cable");
    reveal_strlit("measured");
    assert("off"@.len() != "cable"@.len());
    assert("measured"@.len() != "cable"@.len());
    assert("off"@.len() != "measured"@.len());
}

} // verus!
