use antenna_toolbox::kv::{decode, encode};
use antenna_toolbox::state::{
    cable_index, climate_index, deembed_from, deembed_name, slot_key, Deembed,
};

fn pairs(v: &[(&str, &str)]) -> Vec<(String, String)> {
    v.iter().map(|(k, v)| (k.to_string(), v.to_string())).collect()
}

#[test]
fn entries_are_written_one_per_line() {
    let text = encode(&pairs(&[("design", "moxon"), ("freq", "162")]));
    assert_eq!(text, "design=moxon\nfreq=162\n");
}

#[test]
fn nothing_to_write_is_empty() {
    assert_eq!(encode(&Vec::new()), "");
}

#[test]
fn written_state_reads_back() {
    let entries = pairs(&[("design", "moxon"), ("freq", "162"), ("vna_open_fit", "1e-9,2,3")]);
    let t = decode(&encode(&entries));
    assert_eq!(t.len(), 3);
    assert_eq!(t.get("design").as_deref(), Some("moxon"));
    assert_eq!(t.get("freq").as_deref(), Some("162"));
    assert_eq!(t.get("vna_open_fit").as_deref(), Some("1e-9,2,3"));
    assert_eq!(t.get("missing"), None);
}

#[test]
fn a_line_splits_at_its_first_equals_sign() {
    let t = decode("k=a=b\n");
    assert_eq!(t.get("k").as_deref(), Some("a=b"));
}

#[test]
fn lines_without_equals_are_skipped() {
    let t = decode("junk\nk=v\n\n=empty key\n");
    assert_eq!(t.len(), 2);
    assert_eq!(t.get("k").as_deref(), Some("v"));
    assert_eq!(t.get("").as_deref(), Some("empty key"));
}

#[test]
fn a_later_line_wins() {
    let t = decode("k=1\nk=2\n");
    assert_eq!(t.len(), 1);
    assert_eq!(t.get("k").as_deref(), Some("2"));
}

#[test]
fn windows_line_ends_are_read() {
    let t = decode("a=1\r\nb=2\r\nc=3\r");
    assert_eq!(t.get("a").as_deref(), Some("1"));
    assert_eq!(t.get("b").as_deref(), Some("2"));
    assert_eq!(t.get("c").as_deref(), Some("3\r"));
}

#[test]
fn the_last_line_needs_no_line_end() {
    let t = decode("a=1\nb=2");
    assert_eq!(t.get("b").as_deref(), Some("2"));
}

#[test]
fn deembed_names_read_back() {
    for d in [Deembed::Off, Deembed::Cable, Deembed::Measured] {
        assert_eq!(deembed_from(Some(deembed_name(d)), true), d);
    }
    assert_eq!(deembed_name(Deembed::Cable), "cable");
}

#[test]
fn measured_needs_a_fit() {
    assert_eq!(deembed_from(Some("measured"), false), Deembed::Off);
    assert_eq!(deembed_from(Some("bogus"), true), Deembed::Off);
    assert_eq!(deembed_from(None, true), Deembed::Off);
}

#[test]
fn climate_codes_count_from_one() {
    assert_eq!(climate_index(1, 7), Some(0));
    assert_eq!(climate_index(7, 7), Some(6));
    assert_eq!(climate_index(0, 7), None);
    assert_eq!(climate_index(8, 7), None);
}

#[test]
fn a_cable_past_the_end_is_the_last() {
    assert_eq!(cable_index(2, 5), 2);
    assert_eq!(cable_index(4, 5), 4);
    assert_eq!(cable_index(99, 5), 4);
    assert_eq!(cable_index(3, 1), 0);
}

#[test]
fn slot_keys_carry_their_tag() {
    assert_eq!(slot_key("", "heading"), "heading");
    assert_eq!(slot_key("far_", "aim"), "far_aim");
}
