use process_hardening::category::CategoryKind;
use process_hardening::compare::{CompareOp, Order, PyRuleSet};
use process_hardening::rule_sets::{DataRuleSet, PyNetworking, PySystemIO, PyThreads, PyTime};

fn io(flags: &[u8], reads: &[i32], writes: &[i32]) -> DataRuleSet {
    let mut rules = PySystemIO::new();
    for flag in flags {
        rules = match flag {
            b'c' => rules.allow_close(),
            b'r' => rules.allow_read(),
            b'w' => rules.allow_write(),
            _ => rules.allow_stdout(),
        };
    }
    for fd in reads {
        rules.allow_file_read(*fd).unwrap();
    }
    for fd in writes {
        rules.allow_file_write(*fd).unwrap();
    }
    DataRuleSet::PySystemIO(rules)
}

#[test]
fn call_order_does_not_change_the_value() {
    let first = io(b"rwc", &[7, 3, 9], &[2, 1]);
    let second = io(b"cwr", &[9, 7, 3, 3], &[1, 2, 1]);
    assert!(first.same(&second));
    assert_eq!(first.compare(&second), Order::Equal);
    let first = PyRuleSet::new(first);
    let second = PyRuleSet::new(second);
    assert!(first.__richcmp__(&second, CompareOp::Eq));
    assert!(!first.__richcmp__(&second, CompareOp::Ne));
    assert!(first.__richcmp__(&second, CompareOp::Le));
    assert!(first.__richcmp__(&second, CompareOp::Ge));
    assert!(!first.__richcmp__(&second, CompareOp::Lt));
    assert!(!first.__richcmp__(&second, CompareOp::Gt));
    assert_eq!(first.__hash__(), second.__hash__());
}

#[test]
fn hash_tells_rule_sets_apart() {
    let values = [
        DataRuleSet::new(CategoryKind::BasicCapabilities),
        DataRuleSet::new(CategoryKind::ForkAndExec),
        DataRuleSet::new(CategoryKind::Threads),
        DataRuleSet::PyThreads(PyThreads::new().allow_create()),
        DataRuleSet::PyTime(PyTime::new().allow_gettime()),
        io(b"", &[], &[]),
        io(b"r", &[], &[]),
        io(b"", &[1], &[]),
        io(b"", &[], &[1]),
        io(b"", &[256], &[]),
        io(b"", &[1, 2], &[]),
        io(b"", &[1], &[2]),
    ];
    let hashes: Vec<u64> = values
        .into_iter()
        .map(|rules| PyRuleSet::new(rules).__hash__())
        .collect();
    for (i, left) in hashes.iter().enumerate() {
        for right in &hashes[i + 1..] {
            assert_ne!(left, right);
        }
    }
}

#[test]
fn hash_is_stable() {
    let rules = PyRuleSet::new(io(b"rw", &[4], &[5]));
    assert_eq!(rules.__hash__(), rules.__hash__());
    assert_eq!(rules.rules().flags(), 0x220);
}

#[test]
fn categories_order_first() {
    let ordered = [
        DataRuleSet::new(CategoryKind::BasicCapabilities),
        DataRuleSet::new(CategoryKind::ForkAndExec),
        DataRuleSet::PyThreads(PyThreads::new().allow_create().allow_sleep()),
        DataRuleSet::PyNetworking(PyNetworking::new().allow_running_tcp_clients()),
        io(b"", &[], &[]),
        DataRuleSet::new(CategoryKind::Time),
    ];
    for i in 0..ordered.len() {
        for j in 0..ordered.len() {
            let expected = if i < j {
                Order::Less
            } else if i == j {
                Order::Equal
            } else {
                Order::Greater
            };
            assert_eq!(ordered[i].compare(&ordered[j]), expected);
        }
    }
}

#[test]
fn flags_order_before_descriptors() {
    let small = io(b"c", &[100], &[100]);
    let large = io(b"r", &[], &[]);
    assert_eq!(small.compare(&large), Order::Less);
    assert_eq!(large.compare(&small), Order::Greater);
}

#[test]
fn descriptors_order_by_first_difference() {
    let cases: [(&[i32], &[i32], Order); 6] = [
        (&[], &[], Order::Equal),
        (&[], &[0], Order::Less),
        (&[1, 2], &[1, 2, 3], Order::Less),
        (&[1, 5], &[1, 2, 3], Order::Greater),
        (&[2], &[1, 9], Order::Greater),
        (&[3, 4], &[3, 4], Order::Equal),
    ];
    for (left, right, expected) in cases {
        assert_eq!(io(b"", left, &[]).compare(&io(b"", right, &[])), expected);
        assert_eq!(io(b"", &[7], left).compare(&io(b"", &[7], right)), expected);
    }
    assert_eq!(io(b"", &[1], &[9]).compare(&io(b"", &[2], &[0])), Order::Less);
}

#[test]
fn rich_comparison_answers_all_six() {
    let small = PyRuleSet::new(DataRuleSet::PyThreads(PyThreads::new().allow_create()));
    let large = PyRuleSet::new(DataRuleSet::PyThreads(PyThreads::new().allow_sleep()));
    assert!(small.__richcmp__(&large, CompareOp::Lt));
    assert!(small.__richcmp__(&large, CompareOp::Le));
    assert!(!small.__richcmp__(&large, CompareOp::Eq));
    assert!(small.__richcmp__(&large, CompareOp::Ne));
    assert!(!small.__richcmp__(&large, CompareOp::Gt));
    assert!(!small.__richcmp__(&large, CompareOp::Ge));
    assert!(large.__richcmp__(&small, CompareOp::Gt));
    assert!(large.__richcmp__(&small, CompareOp::Ge));
    assert!(!large.__richcmp__(&small, CompareOp::Lt));
}

#[test]
fn operators_go_by_value() {
    let first = io(b"rw", &[5, 1], &[2]);
    let second = io(b"wr", &[1, 5], &[2]);
    let larger = io(b"wr", &[1, 6], &[]);
    assert!(first == second);
    assert!(!(first != second));
    assert_eq!(first, second);
    assert_ne!(first, larger);
    assert!(first < larger);
    assert!(first <= second);
    assert!(larger > second);
    assert!(larger >= first);
    assert!(!(larger < first));
    assert_eq!(first.partial_cmp(&second), Some(std::cmp::Ordering::Equal));
    assert_eq!(first.partial_cmp(&larger), Some(std::cmp::Ordering::Less));
    assert_eq!(larger.partial_cmp(&first), Some(std::cmp::Ordering::Greater));
}

#[test]
fn wrapped_rule_set_can_be_copied_and_enabled() {
    let wrapped = PyRuleSet::new(io(b"r", &[], &[]));
    let copy = wrapped.clone();
    assert!(wrapped.__richcmp__(&copy, CompareOp::Eq));
    assert_eq!(wrapped.__hash__(), copy.__hash__());
    let reached = copy.enable_to(process_hardening::engine::Context::new());
    assert!(matches!(reached, process_hardening::safety_ctx::Composition::Complete(_)));
}
