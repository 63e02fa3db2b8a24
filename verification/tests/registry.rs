use directory::cache::Operation;
use directory::memory::{contains_id, MemoryDirectory};
use directory::principal::{Principal, Type};
use directory::registry::{
    backend_for, directory_key_of, failure_of, store_failed_error, store_failure, type_key_of,
    unknown_type_error, Answer, Diagnostic, Directories, DirectoryConfig, DirectoryInner, Plan,
    Protocol, Setup, StoreOutcome,
};

fn principal(id: u32, name: &str, typ: Type, member_of: Vec<u32>, emails: &[&str]) -> Principal {
    Principal {
        id,
        typ,
        quota: 0,
        name: name.to_string(),
        secrets: vec![],
        emails: emails.iter().map(|e| e.to_string()).collect(),
        member_of,
        description: None,
    }
}

fn config(id: &str, protocol: &str) -> DirectoryConfig {
    DirectoryConfig {
        id: id.to_string(),
        protocol: protocol.to_string(),
        disable: false,
        cache_ttl: None,
        principals: vec![],
        setup: Setup::Ready,
    }
}

fn staff() -> Vec<Principal> {
    vec![
        principal(1, "alice", Type::Individual, vec![10, 11], &["alice@example.org", "a@example.org"]),
        principal(2, "bob", Type::Individual, vec![11], &["bob@example.org"]),
        principal(10, "admins", Type::Group, vec![], &[]),
        principal(11, "staff", Type::Group, vec![], &["staff@example.org"]),
        principal(3, "alice", Type::Individual, vec![10], &["other@example.org"]),
    ]
}

#[test]
fn one_unknown_type_costs_one_directory() {
    let configs = vec![
        config("a", "memory"),
        config("b", "ldap"),
        config("c", "carrier-pigeon"),
        config("d", "sql"),
        config("e", "lmtp"),
    ];
    let registry = Directories::parse(configs);
    assert_eq!(registry.len(), 4);
    assert_eq!(registry.diagnostics().len(), 1);
    assert_eq!(
        registry.diagnostics()[0],
        Diagnostic {
            key: "directory.c.type".to_string(),
            message: "Unknown directory type: \"carrier-pigeon\"".to_string(),
        }
    );
    assert!(registry.get("c").is_none());
    for id in ["a", "b", "d", "e"] {
        assert!(registry.get(id).is_some());
    }
}

#[test]
fn unreachable_ldap_and_memory_with_alice() {
    let mut d1 = config("d1", "ldap");
    d1.setup = Setup::Failed {
        key: "url".to_string(),
        message: "Failed to connect to ldap://unreachable.invalid".to_string(),
    };
    let mut d2 = config("d2", "memory");
    d2.principals = vec![principal(1, "alice", Type::Individual, vec![], &["alice@example.org"])];
    let registry = Directories::parse(vec![d1, d2]);
    assert_eq!(registry.len(), 1);
    assert!(registry.get("d1").is_none());
    let found = match &registry.get("d2").unwrap().store {
        DirectoryInner::Memory(memory) => memory.find_principal("alice").cloned(),
        _ => None,
    };
    assert_eq!(found, Some(principal(1, "alice", Type::Individual, vec![], &["alice@example.org"])));
    assert_eq!(
        registry.diagnostics(),
        &vec![Diagnostic {
            key: "directory.d1.url".to_string(),
            message: "Failed to connect to ldap://unreachable.invalid".to_string(),
        }]
    );
    assert!(registry.diagnostics()[0].key.starts_with("directory.d1."));
}

#[test]
fn disabled_directories_are_passed_over_in_silence() {
    let mut off = config("off", "no-such-type");
    off.disable = true;
    let mut off2 = config("off2", "memory");
    off2.disable = true;
    let registry = Directories::parse(vec![off, config("on", "imap"), off2]);
    assert_eq!(registry.len(), 1);
    assert_eq!(registry.diagnostics().len(), 0);
    assert!(registry.get("off").is_none());
    assert!(registry.get("off2").is_none());
    assert_eq!(registry.get("on").unwrap().store, DirectoryInner::Imap);
}

#[test]
fn protocols_and_backends() {
    let all = [
        ("internal", Protocol::Internal, DirectoryInner::Internal),
        ("ldap", Protocol::Ldap, DirectoryInner::Ldap),
        ("sql", Protocol::Sql, DirectoryInner::Sql),
        ("imap", Protocol::Imap, DirectoryInner::Imap),
        ("smtp", Protocol::Smtp, DirectoryInner::Smtp { is_lmtp: false }),
        ("lmtp", Protocol::Lmtp, DirectoryInner::Smtp { is_lmtp: true }),
        ("memory", Protocol::Memory, DirectoryInner::Memory(MemoryDirectory::new(vec![]))),
    ];
    for (word, protocol, backend) in all {
        assert_eq!(Protocol::parse(word), Some(protocol));
        assert_eq!(backend_for(protocol, vec![]), backend);
        let registry = Directories::parse(vec![config("x", word)]);
        assert_eq!(registry.get("x").unwrap().store, backend_for(protocol, vec![]));
    }
    assert_eq!(Protocol::parse("LDAP"), None);
    assert_eq!(Protocol::parse(""), None);
    assert_eq!(Protocol::parse("memory "), None);
}

#[test]
fn cache_only_where_a_ttl_is_set() {
    let mut cached = config("cached", "sql");
    cached.cache_ttl = Some(60_000);
    let registry = Directories::parse(vec![cached, config("plain", "sql")]);
    let with = registry.get("cached").unwrap();
    assert_eq!(with.cache.as_ref().map(|c| c.ttl()), Some(60_000));
    assert!(registry.get("plain").unwrap().cache.is_none());
}

#[test]
fn later_directory_of_the_same_name_stays() {
    let registry = Directories::parse(vec![config("x", "ldap"), config("y", "sql"), config("x", "imap")]);
    assert_eq!(registry.len(), 2);
    assert_eq!(registry.get("x").unwrap().store, DirectoryInner::Imap);
}

#[test]
fn diagnostics_keep_their_order() {
    let mut broken = config("b", "internal");
    broken.setup = Setup::Store { store: "db".to_string(), outcome: StoreOutcome::Missing };
    let registry = Directories::parse(vec![config("a", "x"), broken, config("c", "y")]);
    assert_eq!(registry.len(), 0);
    let keys: Vec<&str> = registry.diagnostics().iter().map(|d| d.key.as_str()).collect();
    assert_eq!(keys, vec!["directory.a.type", "directory.b.store", "directory.c.type"]);
    assert_eq!(registry.diagnostics()[1].message, "Store does not exist");
}

#[test]
fn plan_and_steps() {
    let mut registry = Directories::new();
    assert_eq!(registry.len(), 0);
    assert_eq!(registry.plan("a", "ldap", false), Plan::Construct(Protocol::Ldap));
    assert_eq!(registry.plan("a", "ldap", true), Plan::Skip);
    assert_eq!(registry.plan("a", "nope", true), Plan::Skip);
    assert_eq!(registry.diagnostics().len(), 0);
    assert_eq!(registry.plan("a", "nope", false), Plan::Reject);
    assert_eq!(registry.diagnostics().len(), 1);
    registry.add("a".to_string(), DirectoryInner::Ldap, Some(5));
    registry.report("k".to_string(), "m".to_string());
    assert_eq!(registry.len(), 1);
    assert_eq!(registry.diagnostics().len(), 2);
    assert_eq!(registry.diagnostics()[1], Diagnostic { key: "k".to_string(), message: "m".to_string() });
    registry.take_in(config("b", "memory"));
    assert_eq!(registry.len(), 2);
    assert_eq!(type_key_of("my-dir"), "directory.my-dir.type");
    assert_eq!(unknown_type_error("\"x\""), "Unknown directory type: \"x\"");
}

#[test]
fn build_with_a_result_never_fails_for_one_directory() {
    match Directories::parse_directory(vec![config("a", "memory"), config("b", "sql")]) {
        Ok(registry) => {
            assert_eq!(registry.len(), 2);
            assert_eq!(registry.diagnostics().len(), 0);
        }
        Err(message) => panic!("{}", message),
    }
    match Directories::parse_directory(vec![config("a", "memory"), config("b", "x\"y"), config("c", "z")]) {
        Ok(registry) => {
            assert_eq!(registry.len(), 1);
            assert!(registry.get("a").is_some());
            assert!(registry.get("b").is_none());
            assert!(registry.get("c").is_none());
            assert_eq!(
                registry.diagnostics(),
                &vec![
                    Diagnostic {
                        key: "directory.b.type".to_string(),
                        message: "Unknown directory type: \"x\\\"y\"".to_string(),
                    },
                    Diagnostic {
                        key: "directory.c.type".to_string(),
                        message: "Unknown directory type: \"z\"".to_string(),
                    },
                ]
            );
        }
        Err(message) => panic!("{}", message),
    }
}

#[test]
fn memory_directory_lookups() {
    let memory = MemoryDirectory::new(staff());
    assert_eq!(memory.find_principal("bob").map(|p| p.id), Some(2));
    // the first of two principals with one name
    assert_eq!(memory.find_principal("alice").map(|p| p.id), Some(1));
    assert_eq!(memory.find_principal("Alice"), None);
    assert_eq!(memory.find_principal(""), None);
    assert_eq!(memory.find_principal_by_id(11).map(|p| p.name.as_str()), Some("staff"));
    assert_eq!(memory.find_principal_by_id(4), None);
    assert_eq!(memory.expand_group(10), vec![1, 3]);
    assert_eq!(memory.expand_group(11), vec![1, 2]);
    assert_eq!(memory.expand_group(12), Vec::<u32>::new());
    assert_eq!(memory.list_emails("alice"), vec!["alice@example.org", "a@example.org"]);
    assert_eq!(memory.list_emails("admins"), Vec::<String>::new());
    assert_eq!(memory.list_emails("nobody"), Vec::<String>::new());
    assert!(contains_id(&vec![1, 2, 3], 3));
    assert!(!contains_id(&vec![1, 2, 3], 4));
    assert!(!contains_id(&vec![], 0));
}

#[test]
fn registry_cache_asks_backend_once_within_ttl() {
    let mut cached = config("ldap", "ldap");
    cached.cache_ttl = Some(100);
    let mut registry = Directories::parse(vec![cached, config("plain", "sql")]);
    let mut backend_calls = 0;
    for now in [10u64, 11, 109, 110, 150, 209, 210] {
        let hit = registry.cached("ldap", Operation::ExpandGroup, "staff", now).cloned();
        match hit {
            Some(answer) => assert_eq!(answer, Answer::Members(vec![1, 2])),
            None => {
                backend_calls += 1;
                registry.file(
                    "ldap",
                    Operation::ExpandGroup,
                    "staff".to_string(),
                    Answer::Members(vec![1, 2]),
                    now,
                );
            }
        }
    }
    assert_eq!(backend_calls, 3);
    assert_eq!(registry.len(), 2);
    assert_eq!(registry.cached("ldap", Operation::ExpandGroup, "other", 210), None);
    assert_eq!(registry.cached("ldap", Operation::ListEmails, "staff", 210), None);
}

#[test]
fn registry_without_cache_keeps_nothing() {
    let mut registry = Directories::parse(vec![config("plain", "sql")]);
    registry.file("plain", Operation::FindPrincipal, "a".to_string(), Answer::Principal(None), 0);
    registry.file("absent", Operation::FindPrincipal, "a".to_string(), Answer::Principal(None), 0);
    assert_eq!(registry.cached("plain", Operation::FindPrincipal, "a", 0), None);
    assert_eq!(registry.cached("absent", Operation::FindPrincipal, "a", 0), None);
    assert_eq!(registry.len(), 1);
    assert!(registry.get("absent").is_none());
    assert_eq!(registry.get("plain").unwrap().store, DirectoryInner::Sql);
}

#[test]
fn internal_directory_with_a_store_that_is_not_there() {
    let mut lost = config("main", "internal");
    lost.setup = Setup::Store { store: "rocks".to_string(), outcome: StoreOutcome::Missing };
    let registry = Directories::parse(vec![config("a", "memory"), lost, config("b", "imap")]);
    assert_eq!(registry.len(), 2);
    assert!(registry.get("main").is_none());
    assert!(registry.get("a").is_some());
    assert!(registry.get("b").is_some());
    assert_eq!(
        registry.diagnostics(),
        &vec![Diagnostic {
            key: "directory.main.store".to_string(),
            message: "Store does not exist".to_string(),
        }]
    );
}

#[test]
fn internal_directory_with_a_store_that_fails() {
    let mut down = config("main", "internal");
    down.setup = Setup::Store {
        store: "ro\"cks".to_string(),
        outcome: StoreOutcome::Failed("InternalError(\"disk full\")".to_string()),
    };
    let registry = Directories::parse(vec![down, config("b", "imap")]);
    assert_eq!(registry.len(), 1);
    assert!(registry.get("main").is_none());
    assert_eq!(
        registry.diagnostics(),
        &vec![Diagnostic {
            key: "directory.main.store".to_string(),
            message: "Failed to initialize store \"ro\\\"cks\": InternalError(\"disk full\")"
                .to_string(),
        }]
    );
}

#[test]
fn internal_directory_with_a_store_that_is_up() {
    let mut up = config("main", "internal");
    up.setup = Setup::Store { store: "rocks".to_string(), outcome: StoreOutcome::Ready };
    let registry = Directories::parse(vec![up]);
    assert_eq!(registry.len(), 1);
    assert_eq!(registry.get("main").unwrap().store, DirectoryInner::Internal);
    assert_eq!(registry.diagnostics().len(), 0);
}

#[test]
fn failures_are_recorded_under_the_directory() {
    assert_eq!(store_failure("d", "s", &StoreOutcome::Ready), None);
    assert_eq!(
        store_failure("d", "s", &StoreOutcome::Missing),
        Some(Diagnostic {
            key: "directory.d.store".to_string(),
            message: "Store does not exist".to_string(),
        })
    );
    assert_eq!(
        store_failure("d", "s", &StoreOutcome::Failed("why".to_string())),
        Some(Diagnostic {
            key: "directory.d.store".to_string(),
            message: "Failed to initialize store \"s\": why".to_string(),
        })
    );
    assert_eq!(failure_of("d", Setup::Ready), None);
    assert_eq!(
        failure_of("d", Setup::Failed { key: "bind.dn".to_string(), message: "m".to_string() }),
        Some(Diagnostic { key: "directory.d.bind.dn".to_string(), message: "m".to_string() })
    );
    assert_eq!(
        failure_of(
            "d",
            Setup::Store { store: "s".to_string(), outcome: StoreOutcome::Missing }
        ),
        store_failure("d", "s", &StoreOutcome::Missing)
    );
    assert_eq!(directory_key_of("a.b", "c"), "directory.a.b.c");
    assert_eq!(store_failed_error("S", "R"), "Failed to initialize store S: R");
}
