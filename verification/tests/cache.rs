use directory::cache::{CachedDirectory, Operation};

#[test]
fn one_backend_call_within_ttl() {
    let mut cache: CachedDirectory<u32> = CachedDirectory::new(100);
    let mut backend_calls = 0;
    for now in [1000u64, 1001, 1050, 1099] {
        match cache.get(Operation::FindPrincipal, "alice", now) {
            Some(value) => assert_eq!(*value, 7),
            None => {
                backend_calls += 1;
                cache.insert(Operation::FindPrincipal, "alice".to_string(), 7, now);
            }
        }
    }
    assert_eq!(backend_calls, 1);
}

#[test]
fn second_backend_call_after_expiry() {
    let mut cache: CachedDirectory<u32> = CachedDirectory::new(100);
    let mut backend_calls = 0;
    for now in [1000u64, 1099, 1100, 1150, 1199, 1200] {
        if cache.get(Operation::FindPrincipal, "alice", now).is_none() {
            backend_calls += 1;
            cache.insert(Operation::FindPrincipal, "alice".to_string(), 7, now);
        }
    }
    assert_eq!(backend_calls, 3);
}

#[test]
fn expiry_is_exact() {
    let mut cache: CachedDirectory<&str> = CachedDirectory::new(10);
    assert_eq!(cache.ttl(), 10);
    cache.insert(Operation::ListEmails, "bob".to_string(), "x", 5);
    assert_eq!(cache.get(Operation::ListEmails, "bob", 5), Some(&"x"));
    assert_eq!(cache.get(Operation::ListEmails, "bob", 14), Some(&"x"));
    assert_eq!(cache.get(Operation::ListEmails, "bob", 15), None);
    assert_eq!(cache.get(Operation::ListEmails, "bob", u64::MAX), None);
    assert_eq!(cache.get(Operation::ListEmails, "bob", 16), None);
    // before the answer was filed the clock is of no account
    assert_eq!(cache.get(Operation::ListEmails, "bob", 0), Some(&"x"));
}

#[test]
fn keys_are_operation_and_argument() {
    let mut cache: CachedDirectory<u32> = CachedDirectory::new(50);
    cache.insert(Operation::FindPrincipal, "a".to_string(), 1, 0);
    cache.insert(Operation::ExpandGroup, "a".to_string(), 2, 0);
    cache.insert(Operation::FindPrincipal, "b".to_string(), 3, 0);
    assert_eq!(cache.get(Operation::FindPrincipal, "a", 1), Some(&1));
    assert_eq!(cache.get(Operation::ExpandGroup, "a", 1), Some(&2));
    assert_eq!(cache.get(Operation::FindPrincipal, "b", 1), Some(&3));
    assert_eq!(cache.get(Operation::Authenticate, "a", 1), None);
    assert_eq!(cache.get(Operation::ListEmails, "b", 1), None);
    assert_eq!(cache.get(Operation::FindPrincipal, "", 1), None);
}

#[test]
fn refresh_replaces_the_answer() {
    let mut cache: CachedDirectory<u32> = CachedDirectory::new(10);
    cache.insert(Operation::FindPrincipal, "a".to_string(), 1, 0);
    cache.insert(Operation::FindPrincipal, "a".to_string(), 2, 8);
    assert_eq!(cache.get(Operation::FindPrincipal, "a", 9), Some(&2));
    assert_eq!(cache.get(Operation::FindPrincipal, "a", 17), Some(&2));
    assert_eq!(cache.get(Operation::FindPrincipal, "a", 18), None);
}

#[test]
fn negative_answers_are_kept_as_long() {
    let mut cache: CachedDirectory<Option<u32>> = CachedDirectory::new(10);
    cache.insert(Operation::FindPrincipal, "nobody".to_string(), None, 0);
    cache.insert(Operation::FindPrincipal, "alice".to_string(), Some(1), 0);
    assert_eq!(cache.get(Operation::FindPrincipal, "nobody", 9), Some(&None));
    assert_eq!(cache.get(Operation::FindPrincipal, "alice", 9), Some(&Some(1)));
    assert_eq!(cache.get(Operation::FindPrincipal, "nobody", 10), None);
    assert_eq!(cache.get(Operation::FindPrincipal, "alice", 10), None);
}

#[test]
fn zero_ttl_and_the_end_of_the_clock() {
    let mut none: CachedDirectory<u32> = CachedDirectory::new(0);
    none.insert(Operation::FindPrincipal, "a".to_string(), 1, 5);
    assert_eq!(none.get(Operation::FindPrincipal, "a", 5), None);
    // an expiry beyond the last time that the clock shows is never reached
    let mut long: CachedDirectory<u32> = CachedDirectory::new(u64::MAX);
    long.insert(Operation::FindPrincipal, "a".to_string(), 1, 5);
    assert_eq!(long.get(Operation::FindPrincipal, "a", u64::MAX - 1), Some(&1));
    assert_eq!(long.get(Operation::FindPrincipal, "a", u64::MAX), Some(&1));
    let mut late: CachedDirectory<u32> = CachedDirectory::new(10);
    late.insert(Operation::FindPrincipal, "a".to_string(), 1, u64::MAX - 3);
    assert_eq!(late.get(Operation::FindPrincipal, "a", u64::MAX), Some(&1));
    let mut edge: CachedDirectory<u32> = CachedDirectory::new(3);
    edge.insert(Operation::FindPrincipal, "a".to_string(), 1, u64::MAX - 3);
    assert_eq!(edge.get(Operation::FindPrincipal, "a", u64::MAX - 1), Some(&1));
    assert_eq!(edge.get(Operation::FindPrincipal, "a", u64::MAX), None);
}
