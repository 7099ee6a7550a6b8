use antenna_toolbox::hf::{area_hour, bands, cell_index, cell_of};
use antenna_toolbox::material::Material;
use antenna_toolbox::names::{slug, slug_of_lowercase};
use antenna_toolbox::traces::{all_kinds, Kind, DIVS_Y};

#[test]
fn trace_kinds_have_their_labels_and_units() {
    let labels: Vec<&str> = all_kinds().iter().map(|k| k.label()).collect();
    assert_eq!(labels, ["LOGMAG", "SWR", "PHASE", "R", "X", "|Z|"]);
    assert_eq!(Kind::Swr.unit(), "");
    assert_eq!(Kind::Phase.unit(), "°");
    assert_eq!(Kind::Z.unit(), "Ω");
    assert_eq!(DIVS_Y, 8);
}

#[test]
fn materials_are_listed_and_named() {
    let all = Material::all();
    assert_eq!(all[0], Material::Copper);
    assert_eq!(all[4], Material::Perfect);
    assert_eq!(Material::Perfect.label(), "perfect conductor");
    for m in all {
        assert_eq!(Material::named(m.saved_name()), Some(m));
        assert_eq!(m.saved_name(), format!("{m:?}"));
    }
    assert_eq!(Material::named("copper"), None);
}

#[test]
fn slugs_are_safe_file_names() {
    assert_eq!(slug("Moxon rectangle"), "moxon-rectangle");
    assert_eq!(slug("5/8-wave vertical"), "5-8-wave-vertical");
    assert_eq!(slug("Ärger"), "-rger");
    assert_eq!(slug_of_lowercase("a b"), "a-b");
}

#[test]
fn the_hf_table_lines_up() {
    let n = bands().len();
    assert_eq!(n, 10);
    assert_eq!(bands()[0], "160");
    for h in 0..24 {
        for b in 0..n {
            assert_eq!(cell_of(cell_index(h, b, n), n), (h, b));
        }
    }
    assert_eq!(cell_index(1, 2, n), 12);
}

#[test]
fn the_sky_map_hour_is_held_to_the_day() {
    assert_eq!(area_hour(0), 0);
    assert_eq!(area_hour(1), 0);
    assert_eq!(area_hour(13), 12);
    assert_eq!(area_hour(24), 23);
    assert_eq!(area_hour(99), 23);
}
