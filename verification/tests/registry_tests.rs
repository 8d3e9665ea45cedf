use abbacchio::registry::Registry;

#[test]
fn lookups_follow_inserts_both_ways() {
    let mut r = Registry::new();
    r.insert(String::from("c1"), String::from("logs:app"));
    r.insert(String::from("c2"), String::from("logs:db"));
    assert_eq!(r.channel_of("c1"), Some(String::from("logs:app")));
    assert_eq!(r.channel_of("c2"), Some(String::from("logs:db")));
    assert_eq!(r.handle_of("logs:app"), Some(String::from("c1")));
    assert_eq!(r.handle_of("logs:db"), Some(String::from("c2")));
    assert_eq!(r.channel_of("c3"), None);
    assert_eq!(r.handle_of("logs:other"), None);
}

#[test]
fn reinserting_a_handle_displaces_its_old_channel() {
    let mut r = Registry::new();
    r.insert(String::from("c1"), String::from("logs:one"));
    r.insert(String::from("c1"), String::from("logs:two"));
    assert_eq!(r.channel_of("c1"), Some(String::from("logs:two")));
    assert_eq!(r.handle_of("logs:one"), None);
    assert_eq!(r.handle_of("logs:two"), Some(String::from("c1")));
}

#[test]
fn reinserting_a_channel_displaces_its_old_handle() {
    let mut r = Registry::new();
    r.insert(String::from("c1"), String::from("logs:app"));
    r.insert(String::from("c2"), String::from("logs:app"));
    assert_eq!(r.handle_of("logs:app"), Some(String::from("c2")));
    assert_eq!(r.channel_of("c1"), None);
    assert_eq!(r.channel_of("c2"), Some(String::from("logs:app")));
}

#[test]
fn removal_clears_both_directions() {
    let mut r = Registry::new();
    r.insert(String::from("c1"), String::from("logs:app"));
    assert_eq!(r.remove_handle("c1"), Some(String::from("logs:app")));
    assert_eq!(r.channel_of("c1"), None);
    assert_eq!(r.handle_of("logs:app"), None);
    assert_eq!(r.remove_handle("c1"), None);
}
