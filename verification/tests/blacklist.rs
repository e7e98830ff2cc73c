use interact::blacklist::BLACKLISTED_OBJECTS;
use interact::{get_blacklist, is_blacklisted};

#[test]
fn test_blacklist_contains_expected_ids() {
    assert!(is_blacklisted(179830));
    assert!(is_blacklisted(179831));
    assert!(is_blacklisted(179785));
    assert!(is_blacklisted(179786));
}

#[test]
fn test_blacklist_size() {
    let blacklist = get_blacklist();
    assert_eq!(blacklist.len(), 4);
}

#[test]
fn test_blacklist_does_not_contain_other_ids() {
    assert!(!is_blacklisted(0));
    assert!(!is_blacklisted(1));
    assert!(!is_blacklisted(179829));
    assert!(!is_blacklisted(179832));
    assert!(!is_blacklisted(u32::MAX));
}

#[test]
fn test_blacklist_set_agrees_with_lookup() {
    let blacklist = get_blacklist();
    for id in BLACKLISTED_OBJECTS {
        assert!(blacklist.contains(&id));
        assert!(is_blacklisted(id));
    }
    for id in [0u32, 1, 179784, 179787, 179829, 179832, u32::MAX] {
        assert_eq!(blacklist.contains(&id), is_blacklisted(id));
        assert!(!blacklist.contains(&id));
    }
}

#[test]
fn test_blacklist_neighbours_of_each_id() {
    for id in BLACKLISTED_OBJECTS {
        let below = is_blacklisted(id - 1);
        let above = is_blacklisted(id + 1);
        assert_eq!(below, BLACKLISTED_OBJECTS.contains(&(id - 1)));
        assert_eq!(above, BLACKLISTED_OBJECTS.contains(&(id + 1)));
    }
}
