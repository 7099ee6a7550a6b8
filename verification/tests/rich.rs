use antenna_toolbox::rich::{role, sections, Role};

#[test]
fn markers_split_into_sections() {
    let j = sections("plain **bold** and ^^warn^^ tail");
    let texts: Vec<&str> = j.iter().map(|s| s.text.as_str()).collect();
    assert_eq!(texts, ["plain ", "bold", " and ", "warn", " tail"]);
}

#[test]
fn markers_toggle_their_own_style() {
    let j = sections("plain **bold** and ^^warn^^ tail");
    let styles: Vec<(bool, bool)> = j.iter().map(|s| (s.bold, s.warn)).collect();
    assert_eq!(
        styles,
        [(false, false), (true, false), (false, false), (false, true), (false, false)]
    );
}

#[test]
fn styles_nest_and_empty_runs_are_dropped() {
    let j = sections("**a^^b**c^^");
    let got: Vec<(&str, bool, bool)> =
        j.iter().map(|s| (s.text.as_str(), s.bold, s.warn)).collect();
    assert_eq!(got, [("a", true, false), ("b", true, true), ("c", false, true)]);
}

#[test]
fn text_without_markers_is_one_plain_run() {
    let j = sections("no markers * here ^ either");
    assert_eq!(j.len(), 1);
    assert_eq!(j[0].text, "no markers * here ^ either");
    assert!(!j[0].bold && !j[0].warn);
}

#[test]
fn empty_text_has_no_runs() {
    assert!(sections("").is_empty());
    assert!(sections("****").is_empty());
}

#[test]
fn three_stars_take_the_first_two() {
    let j = sections("***x");
    let got: Vec<(&str, bool)> = j.iter().map(|s| (s.text.as_str(), s.bold)).collect();
    assert_eq!(got, [("*x", true)]);
}

#[test]
fn markers_work_around_other_scripts() {
    let j = sections("Ω **λ/4** °");
    let texts: Vec<&str> = j.iter().map(|s| s.text.as_str()).collect();
    assert_eq!(texts, ["Ω ", "λ/4", " °"]);
}

#[test]
fn warning_colour_wins_over_bold() {
    assert_eq!(role(true, true), Role::Readout);
    assert_eq!(role(false, true), Role::Readout);
    assert_eq!(role(true, false), Role::Value);
    assert_eq!(role(false, false), Role::Base);
}
