//! The settings the app saves between runs that are not measurements: the
//! design and its metal, the path's flags and model choices, and the VNA's
//! sweep and cable. The app adds the measured values, which are fractions.
use vstd::prelude::*;

use crate::assoc::{lemma_to_map_unique, to_map, unique_keys};
use crate::designs::{
    by_id, by_id_finds_every_design, design_for, ids_are_plain, plain_text, registry, Design,
};
use crate::kv::{decode_reads_back_encode, decoded, encoded, storable};
use crate::material::{
    lemma_named_by_saved_name, material_named, saved_name_of, saved_names_are_plain, Material,
};
use crate::names::is_ascii_alnum;
use crate::numbers::{
    all_digits, bool_text, decimal, flag_text, flag_value, lemma_decimal_digits,
    saved_numbers_read_back, usize_text, usize_value,
};
use crate::state::{
    cable_index, climate_index, deembed_for, deembed_from, deembed_name, deembed_name_of,
    deembed_reads_back, saved_flag, saved_flag_of, saved_usize, saved_usize_of, Deembed,
};
use crate::table::Table;
use crate::text::string_of;

verus! {

/// The settings that are not measurements. Climates, grounds and cables
/// are given by their place in the lists the app offers.
#[derive(Clone, Copy)]
pub struct Settings {
    pub design: Design,
    pub metal: Material,
    pub site_transmits: bool,
    pub site_aim: bool,
    pub far_aim: bool,
    pub itm_climate: usize,
    pub itm_ground: usize,
    pub itm_vertical: bool,
    pub itm_sea_auto: bool,
    pub vna_points: usize,
    pub vna_cable: usize,
    pub vna_deembed: Deembed,
}

/// The entries the settings are saved as, key and text. A climate is
/// saved by its code, which counts from 1.
pub open spec fn snapshot_entries(s: Settings) -> Seq<(Seq<char>, Seq<char>)> {
    seq![
        ("design"@, s.design.id@),
        ("metal"@, saved_name_of(s.metal)@),
        ("site_transmits"@, flag_text(s.site_transmits)),
        ("aim"@, flag_text(s.site_aim)),
        ("far_aim"@, flag_text(s.far_aim)),
        ("itm_climate"@, decimal((s.itm_climate + 1) as nat)),
        ("itm_ground"@, decimal(s.itm_ground as nat)),
        ("itm_vertical"@, flag_text(s.itm_vertical)),
        ("itm_sea_auto"@, flag_text(s.itm_sea_auto)),
        ("vna_points"@, decimal(s.vna_points as nat)),
        ("vna_cable"@, decimal(s.vna_cable as nat)),
        ("vna_deembed"@, deembed_name_of(s.vna_deembed)@),
    ]
}

/// The flag saved under `key` where one reads as a flag, else `cur`.
pub open spec fn flag_or(saved: Map<Seq<char>, Seq<char>>, key: Seq<char>, cur: bool) -> bool {
    match saved_flag_of(saved, key) {
        Some(b) => b,
        None => cur,
    }
}

/// The design saved by id, where one is saved (an unknown id gives the
/// first design), else `cur`.
pub open spec fn design_or(saved: Map<Seq<char>, Seq<char>>, cur: Design) -> Design {
    if saved.dom().contains("design"@) {
        design_for(saved["design"@])
    } else {
        cur
    }
}

/// The metal saved by name, where one has that name, else `cur`.
pub open spec fn metal_or(saved: Map<Seq<char>, Seq<char>>, cur: Material) -> Material {
    if saved.dom().contains("metal"@) && material_named(saved["metal"@]) is Some {
        material_named(saved["metal"@]).unwrap()
    } else {
        cur
    }
}

/// The climate whose saved code names one of the `climates`, codes
/// counting from 1, else `cur`.
pub open spec fn climate_or(saved: Map<Seq<char>, Seq<char>>, climates: usize, cur: usize) -> usize {
    match saved_usize_of(saved, "itm_climate"@) {
        Some(c) => if 1 <= c && c <= climates {
            (c - 1) as usize
        } else {
            cur
        },
        None => cur,
    }
}

/// The ground saved by its place among the `grounds`, else `cur`.
pub open spec fn ground_or(saved: Map<Seq<char>, Seq<char>>, grounds: usize, cur: usize) -> usize {
    match saved_usize_of(saved, "itm_ground"@) {
        Some(g) => if g < grounds {
            g
        } else {
            cur
        },
        None => cur,
    }
}

/// The sweep's points as saved, else `cur`.
pub open spec fn points_or(saved: Map<Seq<char>, Seq<char>>, cur: usize) -> usize {
    match saved_usize_of(saved, "vna_points"@) {
        Some(n) => n,
        None => cur,
    }
}

/// The cable as saved, the last of the `cables` where the index runs past
/// it, else `cur`.
pub open spec fn cable_or(saved: Map<Seq<char>, Seq<char>>, cables: usize, cur: usize) -> usize {
    match saved_usize_of(saved, "vna_cable"@) {
        Some(n) => if n < cables - 1 {
            n
        } else {
            (cables - 1) as usize
        },
        None => cur,
    }
}

/// The de-embedding mode from its saved name, or off where none is saved;
/// the measured fit only where `has_fit`.
pub open spec fn deembed_saved(saved: Map<Seq<char>, Seq<char>>, has_fit: bool) -> Deembed {
    deembed_for(
        if saved.dom().contains("vna_deembed"@) {
            Some(saved["vna_deembed"@])
        } else {
            None
        },
        has_fit,
    )
}

/// The settings `cur` with what `saved` holds put in: a design saved by id
/// (an unknown id gives the first design); a metal saved by name, where
/// one has that name; each flag and count that reads as one; a climate
/// code that names one of the `climates`; a ground among the `grounds`; a
/// cable, the last of the `cables` where the index runs past it. The
/// de-embedding mode is always set, from its saved name or to off, and to
/// the measured fit only where `has_fit`. Anything else stays as it was.
pub open spec fn restored(
    cur: Settings,
    saved: Map<Seq<char>, Seq<char>>,
    climates: usize,
    grounds: usize,
    cables: usize,
    has_fit: bool,
) -> Settings {
    Settings {
        design: design_or(saved, cur.design),
        metal: metal_or(saved, cur.metal),
        site_transmits: flag_or(saved, "site_transmits"@, cur.site_transmits),
        site_aim: flag_or(saved, "aim"@, cur.site_aim),
        far_aim: flag_or(saved, "far_aim"@, cur.far_aim),
        itm_climate: climate_or(saved, climates, cur.itm_climate),
        itm_ground: ground_or(saved, grounds, cur.itm_ground),
        itm_vertical: flag_or(saved, "itm_vertical"@, cur.itm_vertical),
        itm_sea_auto: flag_or(saved, "itm_sea_auto"@, cur.itm_sea_auto),
        vna_points: points_or(saved, cur.vna_points),
        vna_cable: cable_or(saved, cables, cur.vna_cable),
        vna_deembed: deembed_saved(saved, has_fit),
    }
}

/// The entries the settings are saved as.
pub fn snapshot(s: &Settings) -> (v: Vec<(String, String)>)
    requires
        s.itm_climate < usize::MAX,
    ensures
        v@.map_values(|p: (String, String)| (p.0@, p.1@)) == snapshot_entries(*s),
{
    let mut v: Vec<(String, String)> = Vec::new();
    v.push((string_of("design"), string_of(s.design.id)));
    v.push((string_of("metal"), string_of(s.metal.saved_name())));
    v.push((string_of("site_transmits"), string_of(bool_text(s.site_transmits))));
    v.push((string_of("aim"), string_of(bool_text(s.site_aim))));
    v.push((string_of("far_aim"), string_of(bool_text(s.far_aim))));
    v.push((string_of("itm_climate"), usize_text(s.itm_climate + 1)));
    v.push((string_of("itm_ground"), usize_text(s.itm_ground)));
    v.push((string_of("itm_vertical"), string_of(bool_text(s.itm_vertical))));
    v.push((string_of("itm_sea_auto"), string_of(bool_text(s.itm_sea_auto))));
    v.push((string_of("vna_points"), usize_text(s.vna_points)));
    v.push((string_of("vna_cable"), usize_text(s.vna_cable)));
    v.push((string_of("vna_deembed"), string_of(deembed_name(s.vna_deembed))));
    assert(v@.map_values(|p: (String, String)| (p.0@, p.1@)) =~= snapshot_entries(*s));
    v
}

/// The flag saved under `key` where one reads as a flag, else `cur`.
fn restore_flag(saved: &Table, key: &str, cur: bool) -> (r: bool)
    ensures
        r == flag_or(saved.view(), key@, cur),
{
    match saved_flag(saved, key) {
        Some(b) => b,
        None => cur,
    }
}

fn restore_design(saved: &Table, cur: Design) -> (r: Design)
    ensures
        r == design_or(saved.view(), cur),
{
    match saved.get("design") {
        Some(id) => by_id(id.as_str()),
        None => cur,
    }
}

fn restore_metal(saved: &Table, cur: Material) -> (r: Material)
    ensures
        r == metal_or(saved.view(), cur),
{
    match saved.get("metal") {
        Some(name) => match Material::named(name.as_str()) {
            Some(m) => m,
            None => cur,
        },
        None => cur,
    }
}

fn restore_climate(saved: &Table, climates: usize, cur: usize) -> (r: usize)
    ensures
        r == climate_or(saved.view(), climates, cur),
{
    match saved_usize(saved, "itm_climate") {
        Some(c) => match climate_index(c, climates) {
            Some(i) => i,
            None => cur,
        },
        None => cur,
    }
}

fn restore_ground(saved: &Table, grounds: usize, cur: usize) -> (r: usize)
    ensures
        r == ground_or(saved.view(), grounds, cur),
{
    match saved_usize(saved, "itm_ground") {
        Some(g) => if g < grounds {
            g
        } else {
            cur
        },
        None => cur,
    }
}

fn restore_points(saved: &Table, cur: usize) -> (r: usize)
    ensures
        r == points_or(saved.view(), cur),
{
    match saved_usize(saved, "vna_points") {
        Some(n) => n,
        None => cur,
    }
}

fn restore_cable(saved: &Table, cables: usize, cur: usize) -> (r: usize)
    requires
        cables >= 1,
    ensures
        r == cable_or(saved.view(), cables, cur),
{
    match saved_usize(saved, "vna_cable") {
        Some(n) => cable_index(n, cables),
        None => cur,
    }
}

fn restore_deembed(saved: &Table, has_fit: bool) -> (r: Deembed)
    ensures
        r == deembed_saved(saved.view(), has_fit),
{
    match saved.get("vna_deembed") {
        Some(name) => deembed_from(Some(name.as_str()), has_fit),
        None => deembed_from(None, has_fit),
    }
}

/// Puts what `saved` holds into `cur`, as `restored` says.
pub fn restore(
    cur: &mut Settings,
    saved: &Table,
    climates: usize,
    grounds: usize,
    cables: usize,
    has_fit: bool,
)
    requires
        cables >= 1,
    ensures
        *final(cur) == restored(*old(cur), saved.view(), climates, grounds, cables, has_fit),
{
    let c = *cur;
    *cur = Settings {
        design: restore_design(saved, c.design),
        metal: restore_metal(saved, c.metal),
        site_transmits: restore_flag(saved, "site_transmits", c.site_transmits),
        site_aim: restore_flag(saved, "aim", c.site_aim),
        far_aim: restore_flag(saved, "far_aim", c.far_aim),
        itm_climate: restore_climate(saved, climates, c.itm_climate),
        itm_ground: restore_ground(saved, grounds, c.itm_ground),
        itm_vertical: restore_flag(saved, "itm_vertical", c.itm_vertical),
        itm_sea_auto: restore_flag(saved, "itm_sea_auto", c.itm_sea_auto),
        vna_points: restore_points(saved, c.vna_points),
        vna_cable: restore_cable(saved, cables, c.vna_cable),
        vna_deembed: restore_deembed(saved, has_fit),
    };
}

/// Whether every character of a key is an ASCII letter, a digit or `_`.
spec fn key_text(k: Seq<char>) -> bool {
    forall|j: int| 0 <= j < k.len() ==> is_ascii_alnum(#[trigger] k[j]) || k[j] == '_'
}

proof fn lemma_plain_storable(k: Seq<char>, v: Seq<char>)
    requires
        key_text(k),
        plain_text(v),
    ensures
        storable(k, v),
{
    if k.contains('=') {
        let j = choose|j: int| 0 <= j < k.len() && k[j] == '=';
        assert(is_ascii_alnum(k[j]) || k[j] == '_');
    }
    if k.contains('\n') {
        let j = choose|j: int| 0 <= j < k.len() && k[j] == '\n';
        assert(is_ascii_alnum(k[j]) || k[j] == '_');
    }
    if v.contains('\n') {
        let j = choose|j: int| 0 <= j < v.len() && v[j] == '\n';
        assert(is_ascii_alnum(v[j]));
    }
    if v.len() > 0 {
        assert(is_ascii_alnum(v[v.len() - 1]));
    }
}

proof fn lemma_values_plain(s: Settings)
    requires
        exists|i: int| 0 <= i < registry().len() && registry()[i] == s.design,
    ensures
        forall|i: int| 0 <= i < snapshot_entries(s).len() ==> plain_text(#[trigger] snapshot_entries(s)[i].1),
{
    let e = snapshot_entries(s);
    ids_are_plain();
    let i = choose|i: int| 0 <= i < registry().len() && registry()[i] == s.design;
    assert(plain_text(registry()[i].id@));
    saved_names_are_plain(s.metal);
    reveal_strlit("true");
    reveal_strlit("false");
    reveal_strlit("off");
    reveal_strlit("cable");
    reveal_strlit("measured");
    assert forall|b: bool| plain_text(#[trigger] flag_text(b)) by {}
    assert forall|d: Deembed| plain_text(#[trigger] deembed_name_of(d)@) by {}
    assert forall|n: nat| plain_text(#[trigger] decimal(n)) by {
        lemma_decimal_digits(n);
        assert forall|j: int| 0 <= j < decimal(n).len() implies is_ascii_alnum(#[trigger] decimal(n)[j]) by {
            assert(all_digits(decimal(n)));
        }
    }
    assert(plain_text(e[0].1));
    assert(plain_text(e[1].1));
    assert(plain_text(e[2].1));
    assert(plain_text(e[3].1));
    assert(plain_text(e[4].1));
    assert(plain_text(e[5].1));
    assert(plain_text(e[6].1));
    assert(plain_text(e[7].1));
    assert(plain_text(e[8].1));
    assert(plain_text(e[9].1));
    assert(plain_text(e[10].1));
    assert(plain_text(e[11].1));
}

proof fn lemma_keys(s: Settings)
    ensures
        unique_keys(snapshot_entries(s)),
        forall|i: int| 0 <= i < snapshot_entries(s).len() ==> key_text(#[trigger] snapshot_entries(s)[i].0),
{
    reveal_strlit("design");
    reveal_strlit("metal");
    reveal_strlit("site_transmits");
    reveal_strlit("aim");
    reveal_strlit("far_aim");
    reveal_strlit("itm_climate");
    reveal_strlit("itm_ground");
    reveal_strlit("itm_vertical");
    reveal_strlit("itm_sea_auto");
    reveal_strlit("vna_points");
    reveal_strlit("vna_cable");
    reveal_strlit("vna_deembed");
    let e = snapshot_entries(s);
    assert(key_text(e[0].0));
    assert(key_text(e[1].0));
    assert(key_text(e[2].0));
    assert(key_text(e[3].0));
    assert(key_text(e[4].0));
    assert(key_text(e[5].0));
    assert(key_text(e[6].0));
    assert(key_text(e[7].0));
    assert(key_text(e[8].0));
    assert(key_text(e[9].0));
    assert(key_text(e[10].0));
    assert(key_text(e[11].0));
    assert forall|i: int, j: int| 0 <= i < e.len() && 0 <= j < e.len() && i != j implies e[i].0 != e[j].0 by {
        if e[i].0 == e[j].0 {
            assert(e[i].0.len() == e[j].0.len());
            assert(e[i].0[0] == e[j].0[0]);
            assert(e[i].0[e[i].0.len() - 1] == e[j].0[e[j].0.len() - 1]);
            assert(e[i].0[4] == e[j].0[4]);
        }
    }
}

/// The settings read back as they were saved: restoring, over any
/// settings, the text that the snapshot of `s` is written as gives `s`,
/// where its design is one of the registry, its climate, ground and cable
/// stand in the lists offered, and a measured fit is there for a measured
/// de-embedding.
pub proof fn settings_read_back(
    s: Settings,
    cur: Settings,
    climates: usize,
    grounds: usize,
    cables: usize,
    has_fit: bool,
)
    requires
        exists|i: int| 0 <= i < registry().len() && registry()[i] == s.design,
        s.itm_climate < climates,
        s.itm_ground < grounds,
        s.vna_cable < cables,
        s.vna_deembed == Deembed::Measured ==> has_fit,
    ensures
        restored(cur, decoded(encoded(snapshot_entries(s))), climates, grounds, cables, has_fit) == s,
{
    let e = snapshot_entries(s);
    lemma_keys(s);
    lemma_values_plain(s);
    assert forall|j: int| 0 <= j < e.len() implies storable(#[trigger] e[j].0, e[j].1) by {
        lemma_plain_storable(e[j].0, e[j].1);
    }
    decode_reads_back_encode(e);
    lemma_to_map_unique(e);
    let m = decoded(encoded(e));
    assert(m == to_map(e));
    assert(m.dom().contains(e[0].0) && m[e[0].0] == e[0].1);
    assert(m.dom().contains(e[1].0) && m[e[1].0] == e[1].1);
    assert(m.dom().contains(e[2].0) && m[e[2].0] == e[2].1);
    assert(m.dom().contains(e[3].0) && m[e[3].0] == e[3].1);
    assert(m.dom().contains(e[4].0) && m[e[4].0] == e[4].1);
    assert(m.dom().contains(e[5].0) && m[e[5].0] == e[5].1);
    assert(m.dom().contains(e[6].0) && m[e[6].0] == e[6].1);
    assert(m.dom().contains(e[7].0) && m[e[7].0] == e[7].1);
    assert(m.dom().contains(e[8].0) && m[e[8].0] == e[8].1);
    assert(m.dom().contains(e[9].0) && m[e[9].0] == e[9].1);
    assert(m.dom().contains(e[10].0) && m[e[10].0] == e[10].1);
    assert(m.dom().contains(e[11].0) && m[e[11].0] == e[11].1);
    let i = choose|i: int| 0 <= i < registry().len() && registry()[i] == s.design;
    by_id_finds_every_design(i);
    lemma_named_by_saved_name(s.metal);
    saved_numbers_read_back((s.itm_climate + 1) as nat, s.site_transmits);
    saved_numbers_read_back(s.itm_ground as nat, s.site_aim);
    saved_numbers_read_back(s.vna_points as nat, s.far_aim);
    saved_numbers_read_back(s.vna_cable as nat, s.itm_vertical);
    saved_numbers_read_back(0, s.itm_sea_auto);
    deembed_reads_back(s.vna_deembed, has_fit);
}

/// The flag saved under `key` in `m`, where one reads as `true` or
/// `false`, else `cur`.
pub open spec fn flag_under(m: Map<Seq<char>, Seq<char>>, key: Seq<char>, cur: bool) -> bool {
    if m.dom().contains(key) && flag_value(m[key]) is Some {
        flag_value(m[key]).unwrap()
    } else {
        cur
    }
}

/// The count saved under `key` in `m`, where one reads as a `usize`.
pub open spec fn count_under(m: Map<Seq<char>, Seq<char>>, key: Seq<char>) -> Option<usize> {
    if m.dom().contains(key) {
        usize_value(m[key])
    } else {
        None
    }
}

/// Each setting has a key of its own, the one the app has always used, and
/// restoring reads each from its own key whatever else is saved: the
/// site's aim from `aim` and the far end's from `far_aim`, whether the site
/// transmits from `site_transmits`, the path model's choices from
/// `itm_climate`, `itm_ground`, `itm_vertical` and `itm_sea_auto`, the
/// design from `design`, its metal from `metal`, and the VNA's points,
/// cable and de-embedding from `vna_points`, `vna_cable` and
/// `vna_deembed`. A snapshot writes each setting under that same key.
pub proof fn each_setting_has_its_own_key(
    cur: Settings,
    m: Map<Seq<char>, Seq<char>>,
    climates: usize,
    grounds: usize,
    cables: usize,
    has_fit: bool,
    s: Settings,
)
    ensures
        ({
            let r = restored(cur, m, climates, grounds, cables, has_fit);
            &&& r.site_aim == flag_under(m, "aim"@, cur.site_aim)
            &&& r.far_aim == flag_under(m, "far_aim"@, cur.far_aim)
            &&& r.site_transmits == flag_under(m, "site_transmits"@, cur.site_transmits)
            &&& r.itm_vertical == flag_under(m, "itm_vertical"@, cur.itm_vertical)
            &&& r.itm_sea_auto == flag_under(m, "itm_sea_auto"@, cur.itm_sea_auto)
            &&& r.design == (if m.dom().contains("design"@) {
                design_for(m["design"@])
            } else {
                cur.design
            })
            &&& r.metal == (if m.dom().contains("metal"@) && material_named(m["metal"@]) is Some {
                material_named(m["metal"@]).unwrap()
            } else {
                cur.metal
            })
            &&& r.vna_points == (match count_under(m, "vna_points"@) {
                Some(n) => n,
                None => cur.vna_points,
            })
            &&& r.itm_ground == (match count_under(m, "itm_ground"@) {
                Some(g) => if g < grounds {
                    g
                } else {
                    cur.itm_ground
                },
                None => cur.itm_ground,
            })
            &&& r.itm_climate == (match count_under(m, "itm_climate"@) {
                Some(c) => if 1 <= c <= climates {
                    (c - 1) as usize
                } else {
                    cur.itm_climate
                },
                None => cur.itm_climate,
            })
            &&& r.vna_cable == (match count_under(m, "vna_cable"@) {
                Some(n) => if n + 1 < cables {
                    n
                } else {
                    (cables - 1) as usize
                },
                None => cur.vna_cable,
            })
            &&& r.vna_deembed == deembed_for(
                if m.dom().contains("vna_deembed"@) {
                    Some(m["vna_deembed"@])
                } else {
                    None
                },
                has_fit,
            )
        }),
        snapshot_entries(s).contains(("aim"@, if s.site_aim { "true"@ } else { "false"@ })),
        snapshot_entries(s).contains(("far_aim"@, if s.far_aim { "true"@ } else { "false"@ })),
        snapshot_entries(s).contains(
            ("site_transmits"@, if s.site_transmits { "true"@ } else { "false"@ }),
        ),
        snapshot_entries(s).contains(("itm_vertical"@, if s.itm_vertical { "true"@ } else { "false"@ })),
        snapshot_entries(s).contains(("itm_sea_auto"@, if s.itm_sea_auto { "true"@ } else { "false"@ })),
        snapshot_entries(s).contains(("design"@, s.design.id@)),
        snapshot_entries(s).contains(("metal"@, saved_name_of(s.metal)@)),
        snapshot_entries(s).contains(("itm_climate"@, decimal((s.itm_climate + 1) as nat))),
        snapshot_entries(s).contains(("itm_ground"@, decimal(s.itm_ground as nat))),
        snapshot_entries(s).contains(("vna_points"@, decimal(s.vna_points as nat))),
        snapshot_entries(s).contains(("vna_cable"@, decimal(s.vna_cable as nat))),
        snapshot_entries(s).contains(("vna_deembed"@, deembed_name_of(s.vna_deembed)@)),
{
    let e = snapshot_entries(s);
    assert(e[0] == ("design"@, s.design.id@));
    assert(e[1] == ("metal"@, saved_name_of(s.metal)@));
    assert(e[2] == ("site_transmits"@, if s.site_transmits { "true"@ } else { "false"@ }));
    assert(e[3] == ("aim"@, if s.site_aim { "true"@ } else { "false"@ }));
    assert(e[4] == ("far_aim"@, if s.far_aim { "true"@ } else { "false"@ }));
    assert(e[5] == ("itm_climate"@, decimal((s.itm_climate + 1) as nat)));
    assert(e[6] == ("itm_ground"@, decimal(s.itm_ground as nat)));
    assert(e[7] == ("itm_vertical"@, if s.itm_vertical { "true"@ } else { "false"@ }));
    assert(e[8] == ("itm_sea_auto"@, if s.itm_sea_auto { "true"@ } else { "false"@ }));
    assert(e[9] == ("vna_points"@, decimal(s.vna_points as nat)));
    assert(e[10] == ("vna_cable"@, decimal(s.vna_cable as nat)));
    assert(e[11] == ("vna_deembed"@, deembed_name_of(s.vna_deembed)@));
}

} // verus!
