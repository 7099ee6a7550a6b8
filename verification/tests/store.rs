use antenna_toolbox::store::{self, key, read, remove, Store};

#[test]
fn keys_carry_the_app_prefix() {
    assert_eq!(key("state.txt"), "antenna-toolbox/state.txt");
    assert_eq!(key(""), "antenna-toolbox/");
}

#[test]
fn a_read_gives_back_the_last_write() {
    let mut s = Store::new();
    assert_eq!(read(&s, "state.txt"), None);
    store::write(&mut s, "state.txt", "freq=162\n");
    assert_eq!(read(&s, "state.txt").as_deref(), Some("freq=162\n"));
    store::write(&mut s, "state.txt", "freq=433\n");
    assert_eq!(read(&s, "state.txt").as_deref(), Some("freq=433\n"));
}

#[test]
fn names_do_not_disturb_each_other() {
    let mut s = Store::new();
    store::write(&mut s, "a", "1");
    store::write(&mut s, "b", "2");
    remove(&mut s, "a");
    assert_eq!(read(&s, "a"), None);
    assert_eq!(read(&s, "b").as_deref(), Some("2"));
}

#[test]
fn removing_what_is_not_there_does_nothing() {
    let mut s = Store::new();
    store::write(&mut s, "b", "2");
    remove(&mut s, "a");
    assert_eq!(read(&s, "b").as_deref(), Some("2"));
}
