use antenna_toolbox::patterns::{
    is_splat_extension, not_a_pattern, text_format, PatternFormat, PatternSlot,
};

#[test]
fn splat_files_are_known_by_their_extension() {
    assert!(is_splat_extension("az"));
    assert!(is_splat_extension("el"));
    assert!(is_splat_extension("AZ"));
    assert!(is_splat_extension("El"));
    assert!(!is_splat_extension("txt"));
    assert!(!is_splat_extension("a"));
    assert!(!is_splat_extension(""));
    assert!(!is_splat_extension("ez"));
    assert!(!is_splat_extension("azz"));
}

#[test]
fn a_saved_pattern_is_known_by_its_first_line() {
    let text = "# antenna-toolbox pattern v1\nname test\n";
    assert_eq!(text_format(text), Some(PatternFormat::Saved));
    // Only at the very start.
    let moved = " # antenna-toolbox pattern v1\n";
    assert_eq!(text_format(moved), None);
}

#[test]
fn nec_output_is_known_by_its_pattern_heading() {
    let text = "NEC-2 run\n\n - - - RADIATION PATTERNS - - -\n  THETA PHI\n";
    assert_eq!(text_format(text), Some(PatternFormat::NecOutput));
    assert_eq!(text_format("RADIATION PATTERNS"), Some(PatternFormat::NecOutput));
    assert_eq!(text_format("RADIATION PATTERN"), None);
    assert_eq!(text_format(""), None);
    // A saved pattern wins where both hold.
    let both = "# antenna-toolbox pattern\nRADIATION PATTERNS\n";
    assert_eq!(text_format(both), Some(PatternFormat::Saved));
}

#[test]
fn an_unknown_file_is_named_in_the_error() {
    assert_eq!(
        not_a_pattern("/tmp/x.dat"),
        "/tmp/x.dat: not a pattern, NEC-2 output or SPLAT! file"
    );
}

#[test]
fn a_new_slot_is_empty() {
    let s: PatternSlot<u32> = PatternSlot::new("tx.pattern");
    assert_eq!(s.pattern, None);
    assert!(!s.aim);
    assert_eq!(s.path, "");
    assert_eq!(s.message(), None);
    assert_eq!(s.file(), "tx.pattern");
    assert!(PatternSlot::<u32>::new("rx.pattern").aimed().aim);
}

#[test]
fn loading_says_what_came_of_it() {
    let mut s: PatternSlot<u32> = PatternSlot::new("tx.pattern");
    s.load("/a/yagi.txt", Ok((7, "yagi".to_string())));
    assert_eq!(s.pattern, Some(7));
    assert_eq!(s.path, "/a/yagi.txt");
    assert_eq!(s.message(), Some((true, "loaded yagi".to_string())));
    s.load("/a/bad.txt", Err("/a/bad.txt: no such file".to_string()));
    assert_eq!(s.pattern, Some(7));
    assert_eq!(s.path, "/a/bad.txt");
    assert_eq!(s.message(), Some((false, "/a/bad.txt: no such file".to_string())));
    s.clear();
    assert_eq!(s.pattern, None);
    assert_eq!(s.message(), None);
}

#[test]
fn a_design_request_is_taken_once() {
    let mut s: PatternSlot<u32> = PatternSlot::new("tx.pattern");
    assert!(!s.take_design_request());
    s.want_design();
    assert!(s.take_design_request());
    assert!(!s.take_design_request());
}
