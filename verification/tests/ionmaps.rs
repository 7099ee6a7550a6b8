use antenna_toolbox::ionmaps::{MapsCache, Step};

#[test]
fn a_month_is_fetched_once_while_in_flight() {
    let mut c: MapsCache<u32> = MapsCache::new();
    assert!(matches!(c.poll(5), Step::Wait(true)));
    assert!(matches!(c.poll(5), Step::Wait(false)));
    assert!(matches!(c.poll(6), Step::Wait(true)));
}

#[test]
fn arrived_maps_are_handed_out() {
    let mut c: MapsCache<u32> = MapsCache::new();
    c.poll(5);
    c.arrived(5, Ok(42));
    assert!(matches!(c.poll(5), Step::Have));
    assert_eq!(c.get(5), Some(&42));
    assert!(matches!(c.poll(5), Step::Have));
}

#[test]
fn a_failure_is_reported_once_then_fetched_again() {
    let mut c: MapsCache<u32> = MapsCache::new();
    c.poll(2);
    c.arrived(2, Err("HTTP 404".to_string()));
    match c.poll(2) {
        Step::Failed(e) => assert_eq!(e, "HTTP 404"),
        _ => panic!("expected the failure"),
    }
    assert!(matches!(c.poll(2), Step::Wait(true)));
    assert_eq!(c.get(2), None);
}
