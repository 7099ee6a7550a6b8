use vstd::prelude::*;

use crate::names::is_ascii_alnum;
use crate::text::chars_of;

verus! {

/// How a design radiates, which the design picker groups by.
#[derive(Clone, Copy, PartialEq, Eq, Debug)]
pub enum Group {
    Beam,
    TwoSide,
    Omni,
}

/// What a design is made of.
#[derive(Clone, Copy, PartialEq, Eq, Debug)]
pub enum Build {
    Wire,
    Sheet,
    Both,
    Pcb,
}

/// What the picker shows of one antenna design.
#[derive(Clone, Copy)]
pub struct Design {
    pub id: &'static str,
    pub name: &'static str,
    pub group: Group,
    pub build: Build,
    pub gain: &'static str,
}

/// Every design, in the order the picker lists them.
pub open spec fn registry() -> Seq<Design> {
    seq![
        Design { id: "moxon", name: "Moxon rectangle", group: Group::Beam, build: Build::Wire, gain: "6 dBi" },
        Design { id: "yagi2", name: "2-el Yagi", group: Group::Beam, build: Build::Wire, gain: "6 dBi" },
        Design { id: "yagi3", name: "3-el Yagi", group: Group::Beam, build: Build::Wire, gain: "8 dBi" },
        Design { id: "lpda", name: "Log-periodic", group: Group::Beam, build: Build::Wire, gain: "8.9 dBi" },
        Design { id: "hb9cv", name: "HB9CV", group: Group::Beam, build: Build::Wire, gain: "6.6 dBi" },
        Design { id: "quad", name: "2-el quad", group: Group::Beam, build: Build::Wire, gain: "7 dBi" },
        Design { id: "biquad", name: "Biquad", group: Group::Beam, build: Build::Wire, gain: "11 dBi" },
        Design { id: "helix", name: "Axial helix", group: Group::Beam, build: Build::Wire, gain: "13 dBi" },
        Design { id: "corner", name: "Corner reflector", group: Group::Beam, build: Build::Both, gain: "12 dBi" },
        Design { id: "dish", name: "Parabolic dish", group: Group::Beam, build: Build::Both, gain: "17 dBi" },
        Design { id: "vivaldi", name: "Vivaldi", group: Group::Beam, build: Build::Sheet, gain: "7 dBi" },
        Design { id: "loop", name: "Wire loop", group: Group::TwoSide, build: Build::Wire, gain: "3 dBi" },
        Design { id: "delta", name: "Delta loop", group: Group::TwoSide, build: Build::Wire, gain: "3.0 dBi" },
        Design { id: "hentenna", name: "Hentenna", group: Group::TwoSide, build: Build::Wire, gain: "5.3 dBi" },
        Design { id: "folded", name: "Folded dipole", group: Group::TwoSide, build: Build::Wire, gain: "2.2 dBi" },
        Design { id: "invv", name: "Inverted V", group: Group::TwoSide, build: Build::Wire, gain: "6.3 dBi" },
        Design { id: "efhw", name: "End-fed half-wave", group: Group::TwoSide, build: Build::Wire, gain: "2.2 dBi" },
        Design { id: "ocf", name: "Off-centre-fed dipole", group: Group::TwoSide, build: Build::Wire, gain: "2.2 dBi" },
        Design { id: "bowtie", name: "Bowtie", group: Group::TwoSide, build: Build::Sheet, gain: "2 dBi" },
        Design { id: "spiral", name: "Archimedean spiral", group: Group::TwoSide, build: Build::Sheet, gain: "4 dBi" },
        Design { id: "monopole", name: "Quarter-wave monopole", group: Group::Omni, build: Build::Wire, gain: "5.1 dBi" },
        Design { id: "gp", name: "Ground plane", group: Group::Omni, build: Build::Wire, gain: "1 dBi" },
        Design { id: "fiveeighths", name: "5/8-wave vertical", group: Group::Omni, build: Build::Wire, gain: "8 dBi" },
        Design { id: "dipole", name: "Vertical dipole", group: Group::Omni, build: Build::Wire, gain: "2 dBi" },
        Design { id: "vdip", name: "V-dipole", group: Group::Omni, build: Build::Wire, gain: "2 dBi" },
        Design { id: "collinear", name: "Collinear", group: Group::Omni, build: Build::Wire, gain: "6 dBi" },
        Design { id: "jpole", name: "J-pole", group: Group::Omni, build: Build::Wire, gain: "2.7 dBi" },
        Design { id: "slimjim", name: "Slim Jim", group: Group::Omni, build: Build::Wire, gain: "3 dBi" },
        Design { id: "sleeve", name: "Sleeve dipole", group: Group::Omni, build: Build::Wire, gain: "2.2 dBi" },
        Design { id: "discone", name: "Discone", group: Group::Omni, build: Build::Wire, gain: "2 dBi" },
        Design { id: "discmono", name: "Disc monopole", group: Group::Omni, build: Build::Sheet, gain: "2 dBi" },
        Design { id: "coil", name: "Helical whip", group: Group::Omni, build: Build::Wire, gain: "0 dBi" },
        Design { id: "lindenblad", name: "Parasitic Lindenblad", group: Group::Omni, build: Build::Wire, gain: "2 dBi" },
        Design { id: "turnstile", name: "Turnstile", group: Group::Omni, build: Build::Wire, gain: "2.1 dBi" },
        Design { id: "qfh", name: "Quadrifilar helix", group: Group::Omni, build: Build::Wire, gain: "4.9 dBi" },
        Design { id: "patch", name: "Microstrip patch", group: Group::Beam, build: Build::Pcb, gain: "6 dBi" },
        Design { id: "ifa", name: "Printed inverted-F", group: Group::Omni, build: Build::Pcb, gain: "1 dBi" },
    ]
}

/// Where the first design with id `id` stands, or `None`.
pub open spec fn index_of(r: Seq<Design>, id: Seq<char>, from: int) -> Option<int>
    decreases r.len() - from,
{
    if from < 0 || from >= r.len() {
        None
    } else if r[from].id@ == id {
        Some(from)
    } else {
        index_of(r, id, from + 1)
    }
}

/// The design that `by_id` gives for `id`: the first with that id, or the
/// first design of all when none has it.
pub open spec fn design_for(id: Seq<char>) -> Design {
    match index_of(registry(), id, 0) {
        Some(i) => registry()[i],
        None => registry()[0],
    }
}

/// Every design, in the order the picker lists them.
pub fn designs() -> (v: Vec<Design>)
    ensures
        v@ == registry(),
{
    let v = vec![
        Design { id: "moxon", name: "Moxon rectangle", group: Group::Beam, build: Build::Wire, gain: "6 dBi" },
        Design { id: "yagi2", name: "2-el Yagi", group: Group::Beam, build: Build::Wire, gain: "6 dBi" },
        Design { id: "yagi3", name: "3-el Yagi", group: Group::Beam, build: Build::Wire, gain: "8 dBi" },
        Design { id: "lpda", name: "Log-periodic", group: Group::Beam, build: Build::Wire, gain: "8.9 dBi" },
        Design { id: "hb9cv", name: "HB9CV", group: Group::Beam, build: Build::Wire, gain: "6.6 dBi" },
        Design { id: "quad", name: "2-el quad", group: Group::Beam, build: Build::Wire, gain: "7 dBi" },
        Design { id: "biquad", name: "Biquad", group: Group::Beam, build: Build::Wire, gain: "11 dBi" },
        Design { id: "helix", name: "Axial helix", group: Group::Beam, build: Build::Wire, gain: "13 dBi" },
        Design { id: "corner", name: "Corner reflector", group: Group::Beam, build: Build::Both, gain: "12 dBi" },
        Design { id: "dish", name: "Parabolic dish", group: Group::Beam, build: Build::Both, gain: "17 dBi" },
        Design { id: "vivaldi", name: "Vivaldi", group: Group::Beam, build: Build::Sheet, gain: "7 dBi" },
        Design { id: "loop", name: "Wire loop", group: Group::TwoSide, build: Build::Wire, gain: "3 dBi" },
        Design { id: "delta", name: "Delta loop", group: Group::TwoSide, build: Build::Wire, gain: "3.0 dBi" },
        Design { id: "hentenna", name: "Hentenna", group: Group::TwoSide, build: Build::Wire, gain: "5.3 dBi" },
        Design { id: "folded", name: "Folded dipole", group: Group::TwoSide, build: Build::Wire, gain: "2.2 dBi" },
        Design { id: "invv", name: "Inverted V", group: Group::TwoSide, build: Build::Wire, gain: "6.3 dBi" },
        Design { id: "efhw", name: "End-fed half-wave", group: Group::TwoSide, build: Build::Wire, gain: "2.2 dBi" },
        Design { id: "ocf", name: "Off-centre-fed dipole", group: Group::TwoSide, build: Build::Wire, gain: "2.2 dBi" },
        Design { id: "bowtie", name: "Bowtie", group: Group::TwoSide, build: Build::Sheet, gain: "2 dBi" },
        Design { id: "spiral", name: "Archimedean spiral", group: Group::TwoSide, build: Build::Sheet, gain: "4 dBi" },
        Design { id: "monopole", name: "Quarter-wave monopole", group: Group::Omni, build: Build::Wire, gain: "5.1 dBi" },
        Design { id: "gp", name: "Ground plane", group: Group::Omni, build: Build::Wire, gain: "1 dBi" },
        Design { id: "fiveeighths", name: "5/8-wave vertical", group: Group::Omni, build: Build::Wire, gain: "8 dBi" },
        Design { id: "dipole", name: "Vertical dipole", group: Group::Omni, build: Build::Wire, gain: "2 dBi" },
        Design { id: "vdip", name: "V-dipole", group: Group::Omni, build: Build::Wire, gain: "2 dBi" },
        Design { id: "collinear", name: "Collinear", group: Group::Omni, build: Build::Wire, gain: "6 dBi" },
        Design { id: "jpole", name: "J-pole", group: Group::Omni, build: Build::Wire, gain: "2.7 dBi" },
        Design { id: "slimjim", name: "Slim Jim", group: Group::Omni, build: Build::Wire, gain: "3 dBi" },
        Design { id: "sleeve", name: "Sleeve dipole", group: Group::Omni, build: Build::Wire, gain: "2.2 dBi" },
        Design { id: "discone", name: "Discone", group: Group::Omni, build: Build::Wire, gain: "2 dBi" },
        Design { id: "discmono", name: "Disc monopole", group: Group::Omni, build: Build::Sheet, gain: "2 dBi" },
        Design { id: "coil", name: "Helical whip", group: Group::Omni, build: Build::Wire, gain: "0 dBi" },
        Design { id: "lindenblad", name: "Parasitic Lindenblad", group: Group::Omni, build: Build::Wire, gain: "2 dBi" },
        Design { id: "turnstile", name: "Turnstile", group: Group::Omni, build: Build::Wire, gain: "2.1 dBi" },
        Design { id: "qfh", name: "Quadrifilar helix", group: Group::Omni, build: Build::Wire, gain: "4.9 dBi" },
        Design { id: "patch", name: "Microstrip patch", group: Group::Beam, build: Build::Pcb, gain: "6 dBi" },
        Design { id: "ifa", name: "Printed inverted-F", group: Group::Omni, build: Build::Pcb, gain: "1 dBi" },
    ];
    assert(v@ =~= registry());
    v
}

/// Whether two texts are the same.
pub fn same_text(a: &str, b: &str) -> (r: bool)
    ensures
        r == (a@ == b@),
{
    let x = chars_of(a);
    let y = chars_of(b);
    if x.len() != y.len() {
        return false;
    }
    let mut i: usize = 0;
    while i < x.len()
        invariant
            x@ == a@,
            y@ == b@,
            x@.len() == y@.len(),
            i <= x@.len(),
            forall|j: int| 0 <= j < i ==> x@[j] == y@[j],
        decreases x@.len() - i,
    {
        if x[i] != y[i] {
            return false;
        }
        i = i + 1;
    }
    assert(x@ =~= y@);
    true
}

/// The design with id `id`, or the first design when no design has it.
pub fn by_id(id: &str) -> (d: Design)
    ensures
        d == design_for(id@),
{
    let all = designs();
    let mut i: usize = 0;
    while i < all.len()
        invariant
            all@ == registry(),
            i <= all@.len(),
            index_of(registry(), id@, i as int) == index_of(registry(), id@, 0),
        decreases all@.len() - i,
    {
        if same_text(all[i].id, id) {
            return all[i];
        }
        i = i + 1;
    }
    all[0]
}

/// Length, first and last character of an id, which tell the ids apart.
spec fn signature(s: Seq<char>) -> (int, char, char) {
    (s.len() as int, s[0], s[s.len() - 1])
}

spec fn signatures() -> Seq<(int, char, char)> {
    seq![
        (5int, 'm', 'n'),
        (5int, 'y', '2'),
        (5int, 'y', '3'),
        (4int, 'l', 'a'),
        (5int, 'h', 'v'),
        (4int, 'q', 'd'),
        (6int, 'b', 'd'),
        (5int, 'h', 'x'),
        (6int, 'c', 'r'),
        (4int, 'd', 'h'),
        (7int, 'v', 'i'),
        (4int, 'l', 'p'),
        (5int, 'd', 'a'),
        (8int, 'h', 'a'),
        (6int, 'f', 'd'),
        (4int, 'i', 'v'),
        (4int, 'e', 'w'),
        (3int, 'o', 'f'),
        (6int, 'b', 'e'),
        (6int, 's', 'l'),
        (8int, 'm', 'e'),
        (2int, 'g', 'p'),
        (11int, 'f', 's'),
        (6int, 'd', 'e'),
        (4int, 'v', 'p'),
        (9int, 'c', 'r'),
        (5int, 'j', 'e'),
        (7int, 's', 'm'),
        (6int, 's', 'e'),
        (7int, 'd', 'e'),
        (8int, 'd', 'o'),
        (4int, 'c', 'l'),
        (10int, 'l', 'd'),
        (9int, 't', 'e'),
        (3int, 'q', 'h'),
        (5int, 'p', 'h'),
        (3int, 'i', 'a'),
    ]
}

/// No two designs share an id.
pub proof fn ids_are_distinct()
    ensures
        forall|i: int, j: int|
            0 <= i < registry().len() && 0 <= j < registry().len() && i != j ==> registry()[i].id@
                != registry()[j].id@,
{
    reveal_strlit("moxon");
    reveal_strlit("yagi2");
    reveal_strlit("yagi3");
    reveal_strlit("lpda");
    reveal_strlit("hb9cv");
    reveal_strlit("quad");
    reveal_strlit("biquad");
    reveal_strlit("helix");
    reveal_strlit("corner");
    reveal_strlit("dish");
    reveal_strlit("vivaldi");
    reveal_strlit("loop");
    reveal_strlit("delta");
    reveal_strlit("hentenna");
    reveal_strlit("folded");
    reveal_strlit("invv");
    reveal_strlit("efhw");
    reveal_strlit("ocf");
    reveal_strlit("bowtie");
    reveal_strlit("spiral");
    reveal_strlit("monopole");
    reveal_strlit("gp");
    reveal_strlit("fiveeighths");
    reveal_strlit("dipole");
    reveal_strlit("vdip");
    reveal_strlit("collinear");
    reveal_strlit("jpole");
    reveal_strlit("slimjim");
    reveal_strlit("sleeve");
    reveal_strlit("discone");
    reveal_strlit("discmono");
    reveal_strlit("coil");
    reveal_strlit("lindenblad");
    reveal_strlit("turnstile");
    reveal_strlit("qfh");
    reveal_strlit("patch");
    reveal_strlit("ifa");
    assert(signature(registry()[0].id@) == (5int, 'm', 'n'));
    assert(signature(registry()[1].id@) == (5int, 'y', '2'));
    assert(signature(registry()[2].id@) == (5int, 'y', '3'));
    assert(signature(registry()[3].id@) == (4int, 'l', 'a'));
    assert(signature(registry()[4].id@) == (5int, 'h', 'v'));
    assert(signature(registry()[5].id@) == (4int, 'q', 'd'));
    assert(signature(registry()[6].id@) == (6int, 'b', 'd'));
    assert(signature(registry()[7].id@) == (5int, 'h', 'x'));
    assert(signature(registry()[8].id@) == (6int, 'c', 'r'));
    assert(signature(registry()[9].id@) == (4int, 'd', 'h'));
    assert(signature(registry()[10].id@) == (7int, 'v', 'i'));
    assert(signature(registry()[11].id@) == (4int, 'l', 'p'));
    assert(signature(registry()[12].id@) == (5int, 'd', 'a'));
    assert(signature(registry()[13].id@) == (8int, 'h', 'a'));
    assert(signature(registry()[14].id@) == (6int, 'f', 'd'));
    assert(signature(registry()[15].id@) == (4int, 'i', 'v'));
    assert(signature(registry()[16].id@) == (4int, 'e', 'w'));
    assert(signature(registry()[17].id@) == (3int, 'o', 'f'));
    assert(signature(registry()[18].id@) == (6int, 'b', 'e'));
    assert(signature(registry()[19].id@) == (6int, 's', 'l'));
    assert(signature(registry()[20].id@) == (8int, 'm', 'e'));
    assert(signature(registry()[21].id@) == (2int, 'g', 'p'));
    assert(signature(registry()[22].id@) == (11int, 'f', 's'));
    assert(signature(registry()[23].id@) == (6int, 'd', 'e'));
    assert(signature(registry()[24].id@) == (4int, 'v', 'p'));
    assert(signature(registry()[25].id@) == (9int, 'c', 'r'));
    assert(signature(registry()[26].id@) == (5int, 'j', 'e'));
    assert(signature(registry()[27].id@) == (7int, 's', 'm'));
    assert(signature(registry()[28].id@) == (6int, 's', 'e'));
    assert(signature(registry()[29].id@) == (7int, 'd', 'e'));
    assert(signature(registry()[30].id@) == (8int, 'd', 'o'));
    assert(signature(registry()[31].id@) == (4int, 'c', 'l'));
    assert(signature(registry()[32].id@) == (10int, 'l', 'd'));
    assert(signature(registry()[33].id@) == (9int, 't', 'e'));
    assert(signature(registry()[34].id@) == (3int, 'q', 'h'));
    assert(signature(registry()[35].id@) == (5int, 'p', 'h'));
    assert(signature(registry()[36].id@) == (3int, 'i', 'a'));
    assert forall|i: int| 0 <= i < registry().len() implies signature(registry()[i].id@)
        == #[trigger] signatures()[i] by {
    }
    assert forall|i: int, j: int|
        0 <= i < registry().len() && 0 <= j < registry().len() && i != j implies registry()[i].id@
            != registry()[j].id@ by {
        assert(signatures()[i] != signatures()[j]);
    }
}

/// Looking a design up by its own id finds that design.
pub proof fn by_id_finds_every_design(i: int)
    requires
        0 <= i < registry().len(),
    ensures
        design_for(registry()[i].id@) == registry()[i],
{
    ids_are_distinct();
    lemma_index_of(registry(), registry()[i].id@, 0, i);
}

proof fn lemma_index_of(r: Seq<Design>, id: Seq<char>, from: int, i: int)
    requires
        0 <= from <= i < r.len(),
        r[i].id@ == id,
        forall|a: int, b: int| 0 <= a < r.len() && 0 <= b < r.len() && a != b ==> r[a].id@ != r[b].id@,
    ensures
        index_of(r, id, from) == Some(i),
    decreases i - from,
{
    if from < i {
        assert(r[from].id@ != r[i].id@);
        lemma_index_of(r, id, from + 1, i);
    }
}

/// Whether every character of `s` is an ASCII letter or digit.
pub open spec fn plain_text(s: Seq<char>) -> bool {
    forall|j: int| 0 <= j < s.len() ==> is_ascii_alnum(#[trigger] s[j])
}

/// Every design's id is made of ASCII letters and digits.
pub proof fn ids_are_plain()
    ensures
        forall|i: int| 0 <= i < registry().len() ==> plain_text(#[trigger] registry()[i].id@),
{
    reveal_strlit("moxon");
    assert(plain_text(registry()[0].id@));
    reveal_strlit("yagi2");
    assert(plain_text(registry()[1].id@));
    reveal_strlit("yagi3");
    assert(plain_text(registry()[2].id@));
    reveal_strlit("lpda");
    assert(plain_text(registry()[3].id@));
    reveal_strlit("hb9cv");
    assert(plain_text(registry()[4].id@));
    reveal_strlit("quad");
    assert(plain_text(registry()[5].id@));
    reveal_strlit("biquad");
    assert(plain_text(registry()[6].id@));
    reveal_strlit("helix");
    assert(plain_text(registry()[7].id@));
    reveal_strlit("corner");
    assert(plain_text(registry()[8].id@));
    reveal_strlit("dish");
    assert(plain_text(registry()[9].id@));
    reveal_strlit("vivaldi");
    assert(plain_text(registry()[10].id@));
    reveal_strlit("loop");
    assert(plain_text(registry()[11].id@));
    reveal_strlit("delta");
    assert(plain_text(registry()[12].id@));
    reveal_strlit("hentenna");
    assert(plain_text(registry()[13].id@));
    reveal_strlit("folded");
    assert(plain_text(registry()[14].id@));
    reveal_strlit("invv");
    assert(plain_text(registry()[15].id@));
    reveal_strlit("efhw");
    assert(plain_text(registry()[16].id@));
    reveal_strlit("ocf");
    assert(plain_text(registry()[17].id@));
    reveal_strlit("bowtie");
    assert(plain_text(registry()[18].id@));
    reveal_strlit("spiral");
    assert(plain_text(registry()[19].id@));
    reveal_strlit("monopole");
    assert(plain_text(registry()[20].id@));
    reveal_strlit("gp");
    assert(plain_text(registry()[21].id@));
    reveal_strlit("fiveeighths");
    assert(plain_text(registry()[22].id@));
    reveal_strlit("dipole");
    assert(plain_text(registry()[23].id@));
    reveal_strlit("vdip");
    assert(plain_text(registry()[24].id@));
    reveal_strlit("collinear");
    assert(plain_text(registry()[25].id@));
    reveal_strlit("jpole");
    assert(plain_text(registry()[26].id@));
    reveal_strlit("slimjim");
    assert(plain_text(registry()[27].id@));
    reveal_strlit("sleeve");
    assert(plain_text(registry()[28].id@));
    reveal_strlit("discone");
    assert(plain_text(registry()[29].id@));
    reveal_strlit("discmono");
    assert(plain_text(registry()[30].id@));
    reveal_strlit("coil");
    assert(plain_text(registry()[31].id@));
    reveal_strlit("lindenblad");
    assert(plain_text(registry()[32].id@));
    reveal_strlit("turnstile");
    assert(plain_text(registry()[33].id@));
    reveal_strlit("qfh");
    assert(plain_text(registry()[34].id@));
    reveal_strlit("patch");
    assert(plain_text(registry()[35].id@));
    reveal_strlit("ifa");
    assert(plain_text(registry()[36].id@));
    assert forall|i: int| 0 <= i < registry().len() implies plain_text(#[trigger] registry()[i].id@) by {
        assert(0 <= i < 37);
    }
}

/// Looking a design up by its id gives that design as the program
/// describes it: its name, how it radiates, what it is built of and its
/// gain.
pub proof fn each_id_finds_its_design()
    ensures
        design_for("moxon"@) == (Design { id: "moxon", name: "Moxon rectangle", group: Group::Beam, build: Build::Wire, gain: "6 dBi" }),
        design_for("yagi2"@) == (Design { id: "yagi2", name: "2-el Yagi", group: Group::Beam, build: Build::Wire, gain: "6 dBi" }),
        design_for("yagi3"@) == (Design { id: "yagi3", name: "3-el Yagi", group: Group::Beam, build: Build::Wire, gain: "8 dBi" }),
        design_for("lpda"@) == (Design { id: "lpda", name: "Log-periodic", group: Group::Beam, build: Build::Wire, gain: "8.9 dBi" }),
        design_for("hb9cv"@) == (Design { id: "hb9cv", name: "HB9CV", group: Group::Beam, build: Build::Wire, gain: "6.6 dBi" }),
        design_for("quad"@) == (Design { id: "quad", name: "2-el quad", group: Group::Beam, build: Build::Wire, gain: "7 dBi" }),
        design_for("biquad"@) == (Design { id: "biquad", name: "Biquad", group: Group::Beam, build: Build::Wire, gain: "11 dBi" }),
        design_for("helix"@) == (Design { id: "helix", name: "Axial helix", group: Group::Beam, build: Build::Wire, gain: "13 dBi" }),
        design_for("corner"@) == (Design { id: "corner", name: "Corner reflector", group: Group::Beam, build: Build::Both, gain: "12 dBi" }),
        design_for("dish"@) == (Design { id: "dish", name: "Parabolic dish", group: Group::Beam, build: Build::Both, gain: "17 dBi" }),
        design_for("vivaldi"@) == (Design { id: "vivaldi", name: "Vivaldi", group: Group::Beam, build: Build::Sheet, gain: "7 dBi" }),
        design_for("loop"@) == (Design { id: "loop", name: "Wire loop", group: Group::TwoSide, build: Build::Wire, gain: "3 dBi" }),
        design_for("delta"@) == (Design { id: "delta", name: "Delta loop", group: Group::TwoSide, build: Build::Wire, gain: "3.0 dBi" }),
        design_for("hentenna"@) == (Design { id: "hentenna", name: "Hentenna", group: Group::TwoSide, build: Build::Wire, gain: "5.3 dBi" }),
        design_for("folded"@) == (Design { id: "folded", name: "Folded dipole", group: Group::TwoSide, build: Build::Wire, gain: "2.2 dBi" }),
        design_for("invv"@) == (Design { id: "invv", name: "Inverted V", group: Group::TwoSide, build: Build::Wire, gain: "6.3 dBi" }),
        design_for("efhw"@) == (Design { id: "efhw", name: "End-fed half-wave", group: Group::TwoSide, build: Build::Wire, gain: "2.2 dBi" }),
        design_for("ocf"@) == (Design { id: "ocf", name: "Off-centre-fed dipole", group: Group::TwoSide, build: Build::Wire, gain: "2.2 dBi" }),
        design_for("bowtie"@) == (Design { id: "bowtie", name: "Bowtie", group: Group::TwoSide, build: Build::Sheet, gain: "2 dBi" }),
        design_for("spiral"@) == (Design { id: "spiral", name: "Archimedean spiral", group: Group::TwoSide, build: Build::Sheet, gain: "4 dBi" }),
        design_for("monopole"@) == (Design { id: "monopole", name: "Quarter-wave monopole", group: Group::Omni, build: Build::Wire, gain: "5.1 dBi" }),
        design_for("gp"@) == (Design { id: "gp", name: "Ground plane", group: Group::Omni, build: Build::Wire, gain: "1 dBi" }),
        design_for("fiveeighths"@) == (Design { id: "fiveeighths", name: "5/8-wave vertical", group: Group::Omni, build: Build::Wire, gain: "8 dBi" }),
        design_for("dipole"@) == (Design { id: "dipole", name: "Vertical dipole", group: Group::Omni, build: Build::Wire, gain: "2 dBi" }),
        design_for("vdip"@) == (Design { id: "vdip", name: "V-dipole", group: Group::Omni, build: Build::Wire, gain: "2 dBi" }),
        design_for("collinear"@) == (Design { id: "collinear", name: "Collinear", group: Group::Omni, build: Build::Wire, gain: "6 dBi" }),
        design_for("jpole"@) == (Design { id: "jpole", name: "J-pole", group: Group::Omni, build: Build::Wire, gain: "2.7 dBi" }),
        design_for("slimjim"@) == (Design { id: "slimjim", name: "Slim Jim", group: Group::Omni, build: Build::Wire, gain: "3 dBi" }),
        design_for("sleeve"@) == (Design { id: "sleeve", name: "Sleeve dipole", group: Group::Omni, build: Build::Wire, gain: "2.2 dBi" }),
        design_for("discone"@) == (Design { id: "discone", name: "Discone", group: Group::Omni, build: Build::Wire, gain: "2 dBi" }),
        design_for("discmono"@) == (Design { id: "discmono", name: "Disc monopole", group: Group::Omni, build: Build::Sheet, gain: "2 dBi" }),
        design_for("coil"@) == (Design { id: "coil", name: "Helical whip", group: Group::Omni, build: Build::Wire, gain: "0 dBi" }),
        design_for("lindenblad"@) == (Design { id: "lindenblad", name: "Parasitic Lindenblad", group: Group::Omni, build: Build::Wire, gain: "2 dBi" }),
        design_for("turnstile"@) == (Design { id: "turnstile", name: "Turnstile", group: Group::Omni, build: Build::Wire, gain: "2.1 dBi" }),
        design_for("qfh"@) == (Design { id: "qfh", name: "Quadrifilar helix", group: Group::Omni, build: Build::Wire, gain: "4.9 dBi" }),
        design_for("patch"@) == (Design { id: "patch", name: "Microstrip patch", group: Group::Beam, build: Build::Pcb, gain: "6 dBi" }),
        design_for("ifa"@) == (Design { id: "ifa", name: "Printed inverted-F", group: Group::Omni, build: Build::Pcb, gain: "1 dBi" }),
{
    by_id_finds_every_design(0);
    by_id_finds_every_design(1);
    by_id_finds_every_design(2);
    by_id_finds_every_design(3);
    by_id_finds_every_design(4);
    by_id_finds_every_design(5);
    by_id_finds_every_design(6);
    by_id_finds_every_design(7);
    by_id_finds_every_design(8);
    by_id_finds_every_design(9);
    by_id_finds_every_design(10);
    by_id_finds_every_design(11);
    by_id_finds_every_design(12);
    by_id_finds_every_design(13);
    by_id_finds_every_design(14);
    by_id_finds_every_design(15);
    by_id_finds_every_design(16);
    by_id_finds_every_design(17);
    by_id_finds_every_design(18);
    by_id_finds_every_design(19);
    by_id_finds_every_design(20);
    by_id_finds_every_design(21);
    by_id_finds_every_design(22);
    by_id_finds_every_design(23);
    by_id_finds_every_design(24);
    by_id_finds_every_design(25);
    by_id_finds_every_design(26);
    by_id_finds_every_design(27);
    by_id_finds_every_design(28);
    by_id_finds_every_design(29);
    by_id_finds_every_design(30);
    by_id_finds_every_design(31);
    by_id_finds_every_design(32);
    by_id_finds_every_design(33);
    by_id_finds_every_design(34);
    by_id_finds_every_design(35);
    by_id_finds_every_design(36);
}

} // verus!
