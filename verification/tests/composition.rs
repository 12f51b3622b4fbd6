use process_hardening::category::{CategoryKind, Permission};
use process_hardening::engine::{Context, Policy};
use process_hardening::error::Error;
use process_hardening::rule_sets::{
    DataRuleSet, PyBasicCapabilities, PyNetworking, PySystemIO, PyThreads, PyTime,
};
use process_hardening::safety_ctx::{Composition, PySafetyContext};

/// Collects the permissions that the composition asks its driver for, and
/// resumes each time with the policy as it was handed out.
fn drive(mut reached: Composition) -> (Vec<Permission>, Result<Context, Error>) {
    let mut asked = Vec::new();
    loop {
        match reached {
            Composition::Complete(context) => return (asked, Ok(context)),
            Composition::Failed { error, .. } => return (asked, Err(error)),
            Composition::Whitelist { policy, permission, pending } => {
                asked.push(permission);
                reached = pending.resume(policy);
            }
        }
    }
}

#[test]
fn empty_context_composes() {
    let context = PySafetyContext::new();
    assert!(!context.__bool__());
    assert_eq!(context.__len__(), 0);
    assert!(matches!(context.to_context(), Composition::Complete(_)));
}

#[test]
fn enable_keeps_the_order() {
    let threads = DataRuleSet::PyThreads(PyThreads::new().allow_create());
    let time = DataRuleSet::PyTime(PyTime::new().allow_gettime());
    let context = PySafetyContext::new().enable(&threads).enable(&time).enable(&threads);
    assert!(context.__bool__());
    assert_eq!(context.__len__(), 3);
    assert_eq!(context.get(0).kind(), CategoryKind::Threads);
    assert_eq!(context.get(1).kind(), CategoryKind::Time);
    assert_eq!(context.get(2).kind(), CategoryKind::Threads);
    assert_eq!(context.get(1).permissions(), vec![Permission::GetTime]);
}

#[test]
fn enable_stores_a_copy() {
    let mut io = PySystemIO::new().allow_read();
    io.allow_file_read(3).unwrap();
    let context = PySafetyContext::new().enable(&DataRuleSet::PySystemIO(io.clone()));
    io.allow_file_read(4).unwrap();
    let _changed = io.allow_write();
    assert_eq!(context.get(0).flags(), 0x20);
    assert_eq!(context.get(0).read_count(), 1);
    assert_eq!(context.get(0).read_descriptor(0), 3);
}

#[test]
fn flags_alone_compose_without_the_driver() {
    let context = PySafetyContext::new()
        .enable(&DataRuleSet::PyBasicCapabilities(PyBasicCapabilities::new()))
        .enable(&DataRuleSet::PyThreads(PyThreads::new().allow_create().allow_sleep()))
        .enable(&DataRuleSet::PyNetworking(
            PyNetworking::new()
                .allow_running_tcp_clients()
                .allow_running_tcp_servers()
                .allow_running_udp_sockets()
                .allow_running_unix_clients()
                .allow_running_unix_servers(),
        ))
        .enable(&DataRuleSet::PyTime(PyTime::new().allow_gettime()))
        .enable(&DataRuleSet::new(CategoryKind::ForkAndExec));
    match context.to_context() {
        Composition::Complete(composed) => {
            let _engine: extrasafe::SafetyContext = composed.into_engine();
        }
        _ => panic!("the composition needs no driver and no rule set conflicts"),
    }
    assert!(matches!(context.to_context(), Composition::Complete(_)));
}

#[test]
fn every_flag_can_be_applied() {
    let context = PySafetyContext::new()
        .enable(&DataRuleSet::PyThreads(PyThreads::new().allow_create().allow_sleep()))
        .enable(&DataRuleSet::PyNetworking(
            PyNetworking::new()
                .allow_start_tcp_clients()
                .allow_start_tcp_servers()
                .allow_start_udp_servers()
                .allow_start_unix_server(),
        ));
    assert!(matches!(context.to_context(), Composition::Complete(_)));
    let io = PySafetyContext::new().enable(&DataRuleSet::PySystemIO(
        PySystemIO::new()
            .allow_close()
            .allow_ioctl()
            .allow_metadata()
            .allow_open()
            .allow_read()
            .allow_write(),
    ));
    assert!(matches!(io.to_context(), Composition::Complete(_)));
    let streams = PySafetyContext::new().enable(&DataRuleSet::PySystemIO(
        PySystemIO::new().allow_open_readonly().allow_stderr().allow_stdin().allow_stdout(),
    ));
    assert!(matches!(streams.to_context(), Composition::Complete(_)));
}

#[test]
fn descriptors_are_asked_for_in_order() {
    let mut io = PySystemIO::new().allow_close();
    io.allow_file_write(9).unwrap();
    io.allow_file_read(7).unwrap();
    io.allow_file_read(5).unwrap();
    let mut more = PySystemIO::new();
    more.allow_file_write(2).unwrap();
    let context = PySafetyContext::new()
        .enable(&DataRuleSet::PyTime(PyTime::new()))
        .enable(&DataRuleSet::PySystemIO(io))
        .enable(&DataRuleSet::PyThreads(PyThreads::new().allow_create()))
        .enable(&DataRuleSet::PySystemIO(more));
    let (asked, done) = drive(context.to_context());
    assert_eq!(
        asked,
        vec![
            Permission::FileRead(5),
            Permission::FileRead(7),
            Permission::FileWrite(9),
            Permission::FileWrite(2),
        ]
    );
    assert!(done.is_ok());
}

#[test]
fn first_request_is_the_first_descriptor() {
    let mut io = PySystemIO::new().allow_stdout();
    io.allow_file_read(4).unwrap();
    let context = PySafetyContext::new().enable(&DataRuleSet::PySystemIO(io));
    match context.to_context() {
        Composition::Whitelist { permission, .. } => {
            assert_eq!(permission, Permission::FileRead(4))
        }
        _ => panic!("a descriptor has to be asked for"),
    }
}

#[test]
fn conflicting_rule_sets_are_rejected_by_name() {
    let everywhere = DataRuleSet::PySystemIO(PySystemIO::new().allow_write());
    let only_stdout = DataRuleSet::PySystemIO(PySystemIO::new().allow_stdout());
    let time = DataRuleSet::PyTime(PyTime::new().allow_gettime());
    let context = PySafetyContext::new()
        .enable(&time)
        .enable(&everywhere)
        .enable(&only_stdout)
        .enable(&time);
    let (asked, done) = drive(context.to_context());
    assert!(asked.is_empty());
    match done {
        Err(error) => {
            assert_eq!(error, Error::PolicyError { category: CategoryKind::SystemIO, index: 2 });
            assert_eq!(error.message(), "policy could not be applied");
        }
        Ok(_) => panic!("a rule on every write makes the rule on one descriptor pointless"),
    }
}

#[test]
fn conflict_is_not_reached_before_the_driver_is_needed() {
    let mut listed = PySystemIO::new();
    listed.allow_file_read(3).unwrap();
    let context = PySafetyContext::new()
        .enable(&DataRuleSet::PySystemIO(PySystemIO::new().allow_write()))
        .enable(&DataRuleSet::PySystemIO(listed))
        .enable(&DataRuleSet::PySystemIO(PySystemIO::new().allow_stdout()));
    match context.to_context() {
        Composition::Whitelist { permission, .. } => {
            assert_eq!(permission, Permission::FileRead(3))
        }
        _ => panic!("the second rule set needs the driver before the third is tried"),
    }
}

#[test]
fn rule_set_can_be_enabled_on_its_own() {
    let threads = DataRuleSet::PyThreads(PyThreads::new().allow_sleep());
    let time = DataRuleSet::PyTime(PyTime::new().allow_gettime());
    let context = match threads.enable_to(Context::new()) {
        Composition::Complete(context) => context,
        _ => panic!("nothing stands in the way of the first rule set"),
    };
    assert!(matches!(time.enable_to(context), Composition::Complete(_)));
}

#[test]
fn enabling_on_its_own_reports_the_category() {
    let write = DataRuleSet::PySystemIO(PySystemIO::new().allow_write());
    let stderr = DataRuleSet::PySystemIO(PySystemIO::new().allow_stderr());
    let context = match write.enable_to(Context::new()) {
        Composition::Complete(context) => context,
        _ => panic!("nothing stands in the way of the first rule set"),
    };
    match stderr.enable_to(context) {
        Composition::Failed { error, .. } => {
            assert_eq!(error, Error::PolicyError { category: CategoryKind::SystemIO, index: 0 })
        }
        _ => panic!("the engine has to reject the second rule set"),
    }
}

#[test]
fn policy_can_be_built_by_hand() {
    let reading = Policy::start(CategoryKind::SystemIO)
        .grant(Permission::Read)
        .grant(Permission::Open);
    let context = Context::new().merge(reading).ok().unwrap();
    let sleeping = Policy::start(CategoryKind::Threads).grant(Permission::Sleep);
    let context = context.merge(sleeping).ok().unwrap();
    let stdin = Policy::start(CategoryKind::SystemIO).grant(Permission::Stdin);
    assert!(context.merge(stdin).is_err());
}

#[test]
fn permission_of_another_category_is_not_applied() {
    let reading = Policy::start(CategoryKind::SystemIO).grant(Permission::Read);
    let context = Context::new().merge(reading).ok().unwrap();
    let untouched = Policy::start(CategoryKind::Threads)
        .grant(Permission::Stdin)
        .grant(Permission::FileRead(0));
    let context = context.merge(untouched).ok().unwrap();
    let stdin = Policy::start(CategoryKind::SystemIO).grant(Permission::Stdin);
    assert!(context.merge(stdin).is_err());
}

#[test]
fn composing_twice_starts_afresh() {
    let context = PySafetyContext::new()
        .enable(&DataRuleSet::PySystemIO(PySystemIO::new().allow_read()));
    assert!(matches!(context.to_context(), Composition::Complete(_)));
    assert!(matches!(context.to_context(), Composition::Complete(_)));
    let grown = context.enable(&DataRuleSet::PySystemIO(PySystemIO::new().allow_stdin()));
    assert!(matches!(grown.to_context(), Composition::Failed { .. }));
}

#[test]
fn driver_can_change_the_policy_it_hands_back() {
    let mut io = PySystemIO::new().allow_close();
    io.allow_file_read(0).unwrap();
    let context = PySafetyContext::new()
        .enable(&DataRuleSet::PySystemIO(io))
        .enable(&DataRuleSet::PySystemIO(PySystemIO::new().allow_read()));
    let reached = match context.to_context() {
        Composition::Whitelist { policy, permission, pending } => {
            assert_eq!(permission, Permission::FileRead(0));
            pending.resume(policy.allow_stdin())
        }
        _ => panic!("a descriptor has to be asked for"),
    };
    match reached {
        Composition::Failed { error, .. } => {
            assert_eq!(error, Error::PolicyError { category: CategoryKind::SystemIO, index: 1 })
        }
        _ => panic!("reading one descriptor and reading all of them cannot both be rules"),
    }
}

#[test]
fn walk_hands_out_the_rule_sets_in_order() {
    let threads = DataRuleSet::PyThreads(PyThreads::new().allow_create());
    let time = DataRuleSet::PyTime(PyTime::new().allow_gettime());
    let context = PySafetyContext::new().enable(&threads).enable(&time);
    let mut walk = context.__iter__().__iter__();
    assert_eq!(walk.__index__(), 0);
    assert_eq!(walk.__len__(), 2);
    assert_eq!(walk.__next__(), Some(&threads));
    assert_eq!(walk.__index__(), 1);
    assert_eq!(walk.__len__(), 1);
    assert_eq!(walk.__next__(), Some(&time));
    assert_eq!(walk.__index__(), 2);
    assert_eq!(walk.__len__(), 0);
    assert_eq!(walk.__next__(), None);
    assert_eq!(walk.__next__(), None);
    assert_eq!(walk.__index__(), 2);
    assert_eq!(walk.__len__(), 0);
    let empty = PySafetyContext::new();
    assert_eq!(empty.__iter__().__next__(), None);
}

/// Folds the rule sets into a context one by one.
fn fold(rules: &[DataRuleSet]) -> Result<Context, (usize, Error)> {
    let mut context = Context::new();
    for (place, rules) in rules.iter().enumerate() {
        context = match drive(rules.enable_to(context)) {
            (_, Ok(context)) => context,
            (_, Err(error)) => return Err((place, error)),
        };
    }
    Ok(context)
}

#[test]
fn composing_is_folding_one_by_one() {
    let write = DataRuleSet::PySystemIO(PySystemIO::new().allow_write());
    let stdout = DataRuleSet::PySystemIO(PySystemIO::new().allow_stdout());
    let read = DataRuleSet::PySystemIO(PySystemIO::new().allow_read());
    let time = DataRuleSet::PyTime(PyTime::new().allow_gettime());
    let runs: [Vec<&DataRuleSet>; 5] = [
        vec![],
        vec![&time, &read, &stdout],
        vec![&write, &stdout],
        vec![&stdout, &time, &write, &read],
        vec![&read, &read, &time, &time],
    ];
    for run in runs {
        let mut context = PySafetyContext::new();
        let mut copies = Vec::new();
        for rules in run {
            context = context.enable(rules);
            copies.push(rules.clone());
        }
        let composed = drive(context.to_context()).1;
        match (composed, fold(&copies)) {
            (Ok(_), Ok(_)) => {}
            (Err(at_once), Err((place, one_by_one))) => {
                assert_eq!(
                    at_once,
                    Error::PolicyError { category: copies[place].kind(), index: place }
                );
                assert_eq!(
                    one_by_one,
                    Error::PolicyError { category: copies[place].kind(), index: 0 }
                );
            }
            _ => panic!("composing at once and folding one by one disagree"),
        }
    }
}

#[test]
fn composition_can_be_built_on_given_policies() {
    let context = PySafetyContext::new()
        .enable(&DataRuleSet::PyThreads(PyThreads::new().allow_create()))
        .enable(&DataRuleSet::PyTime(PyTime::new().allow_gettime()));
    let starts = vec![
        Policy::start(CategoryKind::Threads),
        Policy::start(CategoryKind::Time),
    ];
    assert!(matches!(
        context.to_context_from(Context::new(), starts),
        Composition::Complete(_)
    ));
    let stdout = DataRuleSet::PySystemIO(PySystemIO::new().allow_stdout());
    let fresh = Policy::start(CategoryKind::SystemIO);
    assert!(matches!(
        stdout.enable_from(Context::new(), fresh),
        Composition::Complete(_)
    ));
    let writing = Policy::start(CategoryKind::SystemIO).grant(Permission::Write);
    match stdout.enable_from(Context::new(), writing) {
        Composition::Failed { error, .. } => {
            assert_eq!(error, Error::PolicyError { category: CategoryKind::SystemIO, index: 0 })
        }
        _ => panic!("a policy that allows every write cannot also hold a rule on one descriptor"),
    }
}
