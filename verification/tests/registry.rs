use paint_game::registry::UserRegistry;

#[test]
fn new_registry_is_empty() {
    let reg: UserRegistry<&str> = UserRegistry::new();
    assert_eq!(reg.len(), 0);
    assert!(!reg.contains(7));
    assert!(reg.get(7).is_none());
    assert!(reg.others(7).is_empty());
}

#[test]
fn insert_then_get() {
    let mut reg = UserRegistry::new();
    reg.insert(1, "one");
    reg.insert(2, "two");
    assert_eq!(reg.len(), 2);
    assert_eq!(reg.get(1), Some(&"one"));
    assert_eq!(reg.get(2), Some(&"two"));
    assert!(reg.contains(2));
    assert!(!reg.contains(3));
}

#[test]
fn insert_replaces_same_id() {
    let mut reg = UserRegistry::new();
    reg.insert(5, "old");
    reg.insert(5, "new");
    assert_eq!(reg.len(), 1);
    assert_eq!(reg.get(5), Some(&"new"));
}

#[test]
fn remove_forgets_only_that_id() {
    let mut reg = UserRegistry::new();
    reg.insert(1, 'a');
    reg.insert(2, 'b');
    reg.remove(1);
    assert!(!reg.contains(1));
    assert_eq!(reg.get(2), Some(&'b'));
    reg.remove(9);
    assert_eq!(reg.len(), 1);
}

#[test]
fn others_lists_everyone_but_the_sender_once() {
    let mut reg = UserRegistry::new();
    for id in [10u128, 20, 30, 40] {
        reg.insert(id, ());
    }
    let mut others = reg.others(20);
    others.sort();
    assert_eq!(others, vec![10, 30, 40]);
    let mut all = reg.others(99);
    all.sort();
    assert_eq!(all, vec![10, 20, 30, 40]);
}

#[test]
fn others_of_the_only_user_is_empty() {
    let mut reg = UserRegistry::new();
    reg.insert(u128::MAX, 0u8);
    assert!(reg.others(u128::MAX).is_empty());
}
