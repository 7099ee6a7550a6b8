use antenna_toolbox::kv::{decode, encode};
use antenna_toolbox::numbers::{bool_text, parse_bool, parse_usize, usize_text};
use antenna_toolbox::state::{saved_flag, saved_usize};

#[test]
fn counts_are_written_in_decimal() {
    assert_eq!(usize_text(0), "0");
    assert_eq!(usize_text(7), "7");
    assert_eq!(usize_text(401), "401");
    assert_eq!(usize_text(usize::MAX), usize::MAX.to_string());
}

#[test]
fn counts_read_as_str_parse_reads_them() {
    let cases = [
        "0", "7", "401", "+12", "007", "", "+", "-1", "-0", " 1", "1 ", "1.5", "1e3", "abc",
        "18446744073709551615", "18446744073709551616", "99999999999999999999999", "+0",
        "++1", "\u{661}", "12a",
    ];
    for c in cases {
        assert_eq!(parse_usize(c), c.parse::<usize>().ok(), "{c:?}");
    }
}

#[test]
fn flags_read_as_str_parse_reads_them() {
    for c in ["true", "false", "True", "FALSE", "", "yes", "1", " true", "true\r"] {
        assert_eq!(parse_bool(c), c.parse::<bool>().ok(), "{c:?}");
    }
    assert_eq!(bool_text(true), "true");
    assert_eq!(bool_text(false), "false");
}

#[test]
fn saved_settings_come_back() {
    let entries = vec![
        ("vna_points".to_string(), usize_text(401)),
        ("aim".to_string(), bool_text(true).to_string()),
        ("vna_cable".to_string(), "two".to_string()),
    ];
    let saved = decode(&encode(&entries));
    assert_eq!(saved_usize(&saved, "vna_points"), Some(401));
    assert_eq!(saved_flag(&saved, "aim"), Some(true));
    assert_eq!(saved_usize(&saved, "vna_cable"), None);
    assert_eq!(saved_usize(&saved, "missing"), None);
    assert_eq!(saved_flag(&saved, "vna_points"), None);
}
