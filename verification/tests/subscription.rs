use postgres_notify::subscription::SubscriptionSet;

fn subs(names: &[&str]) -> SubscriptionSet {
    SubscriptionSet::from_names(names.iter().map(|n| n.to_string()).collect())
}

#[test]
fn listen_command_concatenates_in_order() {
    let set = subs(&["a", "b"]);
    assert_eq!(set.build_listen_command(), "LISTEN a;LISTEN b;");
}

#[test]
fn listen_command_of_empty_set_is_empty() {
    let set = subs(&[]);
    assert_eq!(set.build_listen_command(), "");
}

#[test]
fn duplicate_names_keep_first_occurrence() {
    let set = subs(&["a", "b", "a", "c", "b"]);
    let names: Vec<&str> = set.names().iter().map(|s| s.as_str()).collect();
    assert_eq!(names, vec!["a", "b", "c"]);
    assert_eq!(set.build_listen_command(), "LISTEN a;LISTEN b;LISTEN c;");
}

#[test]
fn membership_checks() {
    let set = subs(&["alpha", "beta"]);
    assert_eq!(set.len(), 2);
    assert!(set.contains_name(&"alpha".to_string()));
    assert!(!set.contains_name(&"gamma".to_string()));
}

#[test]
fn passes_follows_membership_when_nonempty() {
    let set = subs(&["alpha"]);
    assert!(set.passes(&"alpha".to_string()));
    assert!(!set.passes(&"beta".to_string()));
}

#[test]
fn passes_everything_when_empty() {
    let set = subs(&[]);
    assert!(set.passes(&"anything".to_string()));
}

#[test]
fn names_are_embedded_verbatim() {
    // No sanitization is promised: names go into the command as given.
    let set = subs(&["a;DROP TABLE x"]);
    assert_eq!(set.build_listen_command(), "LISTEN a;DROP TABLE x;");
}
