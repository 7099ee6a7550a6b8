use antenna_toolbox::debounce::{Action, Debounce};
use antenna_toolbox::pairing::match_modes;
use antenna_toolbox::vnalink::{sweep_points, Link};
use antenna_toolbox::wires::{duplicate_wire, fed_wire, remove_wire};

#[test]
fn the_feed_falls_back_to_the_first_wire() {
    assert_eq!(fed_wire(3, 2), Some(2));
    assert_eq!(fed_wire(3, 7), Some(0));
    assert_eq!(fed_wire(0, 0), None);
}

#[test]
fn a_wire_is_copied_right_after_itself() {
    let mut w = vec![1, 2, 3];
    duplicate_wire(&mut w, 1);
    assert_eq!(w, vec![1, 2, 2, 3]);
}

#[test]
fn removing_a_wire_keeps_the_feed_on_one() {
    let mut w = vec![1, 2, 3];
    let mut feed = 2;
    assert!(remove_wire(&mut w, &mut feed, 0));
    assert_eq!(w, vec![2, 3]);
    assert_eq!(feed, 1);
    let mut feed = 0;
    assert!(remove_wire(&mut w, &mut feed, 1));
    assert_eq!(w, vec![2]);
    assert_eq!(feed, 0);
    assert!(!remove_wire(&mut w, &mut feed, 0));
    assert_eq!(w, vec![2]);
}

#[test]
fn work_waits_until_the_model_keeps_still() {
    let mut d = Debounce::new(300, true);
    assert!(matches!(d.step("a".into(), 1000), Action::Wait(320)));
    assert!(matches!(d.step("a".into(), 1100), Action::Wait(220)));
    match d.step("a".into(), 1300) {
        Action::Start(k) => assert_eq!(k, "a"),
        _ => panic!("expected a start"),
    }
    assert!(matches!(d.step("a".into(), 5000), Action::Idle));
    assert_eq!(d.done_for(), "a");
}

#[test]
fn a_change_restarts_the_wait() {
    let mut d = Debounce::new(400, false);
    d.step("a".into(), 0);
    assert!(matches!(d.step("b".into(), 350), Action::Wait(420)));
    assert!(matches!(d.step("b".into(), 750), Action::Wait(20)));
    match d.step("b".into(), 751) {
        Action::Start(k) => assert_eq!(k, "b"),
        _ => panic!("expected a start"),
    }
}

#[test]
fn one_sweep_at_a_time() {
    let mut l: Link<u8> = Link::new();
    assert!(!l.request(true));
    l.connect();
    assert!(l.request(true));
    assert!(!l.request(false));
    l.sent();
    assert!(!l.request(true));
    assert!(!l.can_sweep());
    assert_eq!(l.swept(true), (None, false));
    assert!(l.request(true));
}

#[test]
fn a_capture_is_taken_by_the_next_good_sweep() {
    let mut l: Link<u8> = Link::new();
    l.connect();
    assert!(l.toggle_continuous());
    l.start_capture(3);
    assert!(!l.is_continuous());
    l.sent();
    assert_eq!(l.swept(false), (None, false));
    l.sent();
    assert_eq!(l.swept(true), (Some(3), false));
    l.sent();
    assert_eq!(l.swept(true), (None, false));
}

#[test]
fn continuous_sweeps_ask_again_until_the_link_closes() {
    let mut l: Link<u8> = Link::new();
    l.connect();
    l.toggle_continuous();
    l.sent();
    assert_eq!(l.swept(true), (None, true));
    l.closed();
    assert!(!l.is_linked());
    assert!(!l.request(true));
    l.disconnect();
    assert!(!l.is_continuous());
}

#[test]
fn sweeps_ask_for_at_least_eleven_points() {
    assert_eq!(sweep_points(3), 11);
    assert_eq!(sweep_points(401), 401);
}

#[test]
fn modes_follow_their_best_match() {
    let order = vec![(0, 1), (1, 1), (1, 0), (0, 0), (2, 2)];
    assert_eq!(match_modes(&order, 3, 3), vec![Some(1), Some(0), Some(2)]);
}

#[test]
fn a_mode_with_no_free_partner_is_left_unmatched() {
    let order = vec![(0, 0), (1, 0)];
    assert_eq!(match_modes(&order, 2, 1), vec![Some(0), None]);
    assert_eq!(match_modes(&Vec::new(), 2, 2), vec![None, None]);
}
