use process_hardening::privileges::{Detach, RestrictPrivileges, Restriction};

const EVERYTHING: Detach = Detach { files: true, filesystem: true, semaphores: true };

#[test]
fn restriction_has_three_steps_in_order() {
    let mut plan = RestrictPrivileges::new();
    assert_eq!(plan.due(), Restriction::Unshare(EVERYTHING));
    assert_eq!(plan.report(true), Restriction::ClearAmbientCapabilities);
    assert_eq!(plan.report(true), Restriction::SetNoNewPrivileges);
    assert_eq!(plan.report(true), Restriction::Done);
    assert_eq!(plan.due(), Restriction::Done);
    assert_eq!(plan.report(true), Restriction::Done);
}

#[test]
fn failed_steps_do_not_stop_the_restriction() {
    for outcomes in 0..8u8 {
        let mut plan = RestrictPrivileges::new();
        let mut steps = vec![plan.due()];
        for bit in 0..3 {
            steps.push(plan.report(outcomes & (1 << bit) != 0));
        }
        assert_eq!(
            steps,
            vec![
                Restriction::Unshare(EVERYTHING),
                Restriction::ClearAmbientCapabilities,
                Restriction::SetNoNewPrivileges,
                Restriction::Done,
            ]
        );
    }
}

#[test]
fn restriction_can_be_planned_again() {
    let mut first = RestrictPrivileges::new();
    while first.due() != Restriction::Done {
        first.report(false);
    }
    let second = RestrictPrivileges::new();
    assert_eq!(second.due(), Restriction::Unshare(EVERYTHING));
}
