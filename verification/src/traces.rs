use vstd::prelude::*;

verus! {

/// Grid divisions across the trace display.
pub const DIVS_X: usize = 10;

/// Grid divisions up the trace display.
pub const DIVS_Y: usize = 8;

/// What a VNA trace shows.
#[derive(Clone, Copy, PartialEq, Eq, Structural, Debug)]
pub enum Kind {
    LogMag,
    Swr,
    Phase,
    R,
    X,
    Z,
}

/// Every kind of trace, in the order the menu lists them.
pub fn all_kinds() -> (v: Vec<Kind>)
    ensures
        v@ == seq![Kind::LogMag, Kind::Swr, Kind::Phase, Kind::R, Kind::X, Kind::Z],
{
    let v = vec![Kind::LogMag, Kind::Swr, Kind::Phase, Kind::R, Kind::X, Kind::Z];
    assert(v@ =~= seq![Kind::LogMag, Kind::Swr, Kind::Phase, Kind::R, Kind::X, Kind::Z]);
    v
}

/// The name of a kind on screen.
pub open spec fn label_of(k: Kind) -> &'static str {
    match k {
        Kind::LogMag => "LOGMAG",
        Kind::Swr => "SWR",
        Kind::Phase => "PHASE",
        Kind::R => "R",
        Kind::X => "X",
        Kind::Z => "|Z|",
    }
}

/// The unit a kind is read in; SWR has none.
pub open spec fn unit_of(k: Kind) -> &'static str {
    match k {
        Kind::LogMag => "dB",
        Kind::Swr => "",
        Kind::Phase => "°",
        Kind::R | Kind::X | Kind::Z => "Ω",
    }
}

impl Kind {
    /// The name of this kind on screen.
    pub fn label(self) -> (s: &'static str)
        ensures
            s == label_of(self),
    {
        match self {
            Kind::LogMag => "LOGMAG",
            Kind::Swr => "SWR",
            Kind::Phase => "PHASE",
            Kind::R => "R",
            Kind::X => "X",
            Kind::Z => "|Z|",
        }
    }

    /// The unit this kind is read in; SWR has none.
    pub fn unit(self) -> (s: &'static str)
        ensures
            s == unit_of(self),
    {
        match self {
            Kind::LogMag => "dB",
            Kind::Swr => "",
            Kind::Phase => "°",
            Kind::R | Kind::X | Kind::Z => "Ω",
        }
    }
}

/// No two kinds share a name on screen.
pub proof fn labels_are_distinct(a: Kind, b: Kind)
    requires
        a != b,
    ensures
        label_of(a)@ != label_of(b)@,
{
    reveal_strlit("LOGMAG");
    reveal_strlit("SWR");
    reveal_strlit("PHASE");
    reveal_strlit("R");
    reveal_strlit("X");
    reveal_strlit("|Z|");
    if label_of(a)@ == label_of(b)@ {
        assert(label_of(a)@.len() == label_of(b)@.len());
        assert(label_of(a)@[0] == label_of(b)@[0]);
    }
}

/// Each kind of trace is shown under the name and in the unit the VNA
/// itself uses.
pub proof fn kinds_read_as_the_instrument_reads_them()
    ensures
        label_of(Kind::LogMag)@ == "LOGMAG"@ && unit_of(Kind::LogMag)@ == "dB"@,
        label_of(Kind::Swr)@ == "SWR"@ && unit_of(Kind::Swr)@ == ""@,
        label_of(Kind::Phase)@ == "PHASE"@ && unit_of(Kind::Phase)@ == "°"@,
        label_of(Kind::R)@ == "R"@ && unit_of(Kind::R)@ == "Ω"@,
        label_of(Kind::X)@ == "X"@ && unit_of(Kind::X)@ == "Ω"@,
        label_of(Kind::Z)@ == "|Z|"@ && unit_of(Kind::Z)@ == "Ω"@,
        DIVS_X == 10 && DIVS_Y == 8,
{
}

} // verus!
