use vstd::prelude::*;

verus! {

/// The amateur bands of the HF table, by name in metres.
pub open spec fn band_names() -> Seq<&'static str> {
    seq!["160", "80", "60", "40", "30", "20", "17", "15", "12", "10"]
}

/// The hours of the day in the HF table.
pub const HOURS: usize = 24;

/// The names of the HF bands in metres, lowest band first.
pub fn bands() -> (v: Vec<&'static str>)
    ensures
        v@ == band_names(),
{
    let v = vec!["160", "80", "60", "40", "30", "20", "17", "15", "12", "10"];
    assert(v@ =~= band_names());
    v
}

/// Where the prediction for hour `hour` on band `band` stands among the
/// cells of the table: hour by hour, each hour band by band. The index
/// must fit in a `usize`.
pub fn cell_index(hour: usize, band: usize, band_count: usize) -> (i: usize)
    requires
        hour * band_count + band <= usize::MAX,
    ensures
        i == hour * band_count + band,
{
    assert(0 <= hour * band_count) by (nonlinear_arith);
    hour * band_count + band
}

/// The hour and band that cell `i` of the table is computed for.
pub fn cell_of(i: usize, band_count: usize) -> (hb: (usize, usize))
    requires
        band_count > 0,
    ensures
        hb == ((i / band_count) as usize, (i % band_count) as usize),
{
    (i / band_count, i % band_count)
}

/// The cell read back for an hour and a band is the one computed for that
/// hour and band.
pub proof fn cells_line_up(hour: int, band: int, band_count: int)
    requires
        0 <= hour,
        0 <= band < band_count,
    ensures
        (hour * band_count + band) / band_count == hour,
        (hour * band_count + band) % band_count == band,
{
    vstd::arithmetic::div_mod::lemma_fundamental_div_mod_converse(
        hour * band_count + band,
        band_count,
        hour,
        band,
    );
}

/// The hour, from 0, that the sky map is computed for: the hour set on the
/// sidebar, from 1 to 24, held to that range.
pub fn area_hour(map_hour: usize) -> (h: usize)
    ensures
        h == (if map_hour < 1 {
            0
        } else if map_hour > 24 {
            23
        } else {
            map_hour - 1
        }),
{
    let clamped = if map_hour < 1 {
        1
    } else if map_hour > 24 {
        24
    } else {
        map_hour
    };
    clamped - 1
}

/// The table's bands are the HF amateur bands from 160 m down to 10 m, and
/// its hours the 24 of a day.
pub proof fn the_table_spans_the_hf_bands()
    ensures
        band_names().len() == 10,
        band_names()[0]@ == "160"@ && band_names()[1]@ == "80"@ && band_names()[2]@ == "60"@,
        band_names()[3]@ == "40"@ && band_names()[4]@ == "30"@ && band_names()[5]@ == "20"@,
        band_names()[6]@ == "17"@ && band_names()[7]@ == "15"@ && band_names()[8]@ == "12"@,
        band_names()[9]@ == "10"@,
        HOURS == 24,
{
}

} // verus!
