use process_hardening::category::{granted_flags, CategoryKind, Permission};
use process_hardening::error::{Argument, Error};
use process_hardening::rule_sets::{
    DataRuleSet, PyBasicCapabilities, PyForkAndExec, PyNetworking, PySystemIO, PyThreads, PyTime,
};

#[test]
fn new_rule_sets_grant_nothing() {
    for kind in [
        CategoryKind::BasicCapabilities,
        CategoryKind::ForkAndExec,
        CategoryKind::Threads,
        CategoryKind::Networking,
        CategoryKind::SystemIO,
        CategoryKind::Time,
    ] {
        let rules = DataRuleSet::new(kind);
        assert_eq!(rules.kind(), kind);
        assert_eq!(rules.flags(), 0);
        assert_eq!(rules.read_count(), 0);
        assert_eq!(rules.write_count(), 0);
        assert!(rules.permissions().is_empty());
    }
    assert_eq!(PyBasicCapabilities::new().flags(), 0);
    assert_eq!(PyForkAndExec::new().flags(), 0);
}

#[test]
fn threads_flags_have_their_bits() {
    assert_eq!(PyThreads::new().flags(), 0);
    assert_eq!(PyThreads::new().allow_create().flags(), 1 << 0);
    assert_eq!(PyThreads::new().allow_sleep().flags(), 1 << 1);
    assert_eq!(PyThreads::new().allow_sleep().allow_create().flags(), 3);
}

#[test]
fn networking_flags_have_their_bits() {
    assert_eq!(PyNetworking::new().allow_running_tcp_clients().flags(), 1 << 0);
    assert_eq!(PyNetworking::new().allow_running_tcp_servers().flags(), 1 << 1);
    assert_eq!(PyNetworking::new().allow_running_udp_sockets().flags(), 1 << 2);
    assert_eq!(PyNetworking::new().allow_running_unix_clients().flags(), 1 << 3);
    assert_eq!(PyNetworking::new().allow_running_unix_servers().flags(), 1 << 4);
    assert_eq!(PyNetworking::new().allow_start_tcp_clients().flags(), 1 << 5);
    assert_eq!(PyNetworking::new().allow_start_tcp_servers().flags(), 1 << 6);
    assert_eq!(PyNetworking::new().allow_start_udp_servers().flags(), 1 << 7);
    assert_eq!(PyNetworking::new().allow_start_unix_server().flags(), 1 << 8);
}

#[test]
fn system_io_flags_have_their_bits() {
    assert_eq!(PySystemIO::new().allow_close().flags(), 1 << 0);
    assert_eq!(PySystemIO::new().allow_ioctl().flags(), 1 << 1);
    assert_eq!(PySystemIO::new().allow_metadata().flags(), 1 << 2);
    assert_eq!(PySystemIO::new().allow_open().flags(), 1 << 3);
    assert_eq!(PySystemIO::new().allow_open_readonly().flags(), 1 << 4);
    assert_eq!(PySystemIO::new().allow_read().flags(), 1 << 5);
    assert_eq!(PySystemIO::new().allow_stderr().flags(), 1 << 6);
    assert_eq!(PySystemIO::new().allow_stdin().flags(), 1 << 7);
    assert_eq!(PySystemIO::new().allow_stdout().flags(), 1 << 8);
    assert_eq!(PySystemIO::new().allow_write().flags(), 1 << 9);
}

#[test]
fn time_flag_has_its_bit() {
    assert_eq!(PyTime::new().allow_gettime().flags(), 1);
}

#[test]
fn allowing_twice_is_allowing_once() {
    let once = PyNetworking::new().allow_start_tcp_servers();
    let twice = PyNetworking::new().allow_start_tcp_servers().allow_start_tcp_servers();
    assert_eq!(once.flags(), twice.flags());
    assert_eq!(twice.flags(), 0x40);
    let once = PySystemIO::new().allow_read().allow_write();
    let twice = PySystemIO::new().allow_read().allow_write().allow_read().allow_write();
    assert_eq!(once.flags(), twice.flags());
    assert_eq!(twice.flags(), 0x220);
}

#[test]
fn everything_sets_every_io_flag_and_no_descriptor() {
    let all = PySystemIO::everything();
    assert_eq!(all.flags(), 0x3ff);
    assert!(all.read_descriptors().is_empty());
    assert!(all.write_descriptors().is_empty());
    let all = DataRuleSet::PySystemIO(all);
    for permission in [
        Permission::Close,
        Permission::Ioctl,
        Permission::Metadata,
        Permission::Open,
        Permission::OpenReadonly,
        Permission::Read,
        Permission::Stderr,
        Permission::Stdin,
        Permission::Stdout,
        Permission::Write,
    ] {
        assert!(all.allows(permission));
    }
    assert!(!all.allows(Permission::FileRead(0)));
    assert!(!all.allows(Permission::GetTime));
}

#[test]
fn descriptor_allowed_twice_is_listed_once() {
    let mut rules = PySystemIO::new();
    assert_eq!(rules.allow_file_read(5), Ok(()));
    assert_eq!(rules.allow_file_read(5), Ok(()));
    assert_eq!(rules.read_descriptors(), &vec![5]);
    assert!(rules.write_descriptors().is_empty());
}

#[test]
fn descriptors_stay_ascending() {
    let mut rules = PySystemIO::new();
    for fd in [9, 3, 7, 3, 0, 12, 7, 1] {
        assert_eq!(rules.allow_file_read(fd), Ok(()));
    }
    assert_eq!(rules.read_descriptors(), &vec![0, 1, 3, 7, 9, 12]);
    for fd in [4, 2, 2, i32::MAX, 0] {
        assert_eq!(rules.allow_file_write(fd), Ok(()));
    }
    assert_eq!(rules.write_descriptors(), &vec![0, 2, 4, i32::MAX]);
    assert_eq!(rules.read_descriptors(), &vec![0, 1, 3, 7, 9, 12]);
}

#[test]
fn negative_descriptor_is_rejected_and_changes_nothing() {
    let mut rules = PySystemIO::new().allow_stdout();
    rules.allow_file_read(4).unwrap();
    rules.allow_file_write(6).unwrap();
    assert_eq!(
        rules.allow_file_read(-1),
        Err(Error::InvalidArgument(Argument::Descriptor))
    );
    assert_eq!(
        rules.allow_file_write(-1),
        Err(Error::InvalidArgument(Argument::Descriptor))
    );
    assert_eq!(
        rules.allow_file_read(i32::MIN),
        Err(Error::InvalidArgument(Argument::Descriptor))
    );
    assert_eq!(rules.flags(), 0x100);
    assert_eq!(rules.read_descriptors(), &vec![4]);
    assert_eq!(rules.write_descriptors(), &vec![6]);
}

#[test]
fn descriptor_zero_is_allowed() {
    let mut rules = PySystemIO::new();
    assert_eq!(rules.allow_file_read(0), Ok(()));
    assert_eq!(rules.read_descriptors(), &vec![0]);
}

#[test]
fn permissions_come_in_the_order_of_application() {
    let mut rules = PySystemIO::new().allow_write().allow_open().allow_close();
    rules.allow_file_write(8).unwrap();
    rules.allow_file_read(5).unwrap();
    rules.allow_file_read(2).unwrap();
    let rules = DataRuleSet::PySystemIO(rules);
    assert_eq!(
        rules.permissions(),
        vec![
            Permission::Close,
            Permission::Open,
            Permission::Write,
            Permission::FileRead(2),
            Permission::FileRead(5),
            Permission::FileWrite(8),
        ]
    );
    let rules = DataRuleSet::PyNetworking(
        PyNetworking::new()
            .allow_start_unix_server()
            .allow_running_tcp_clients()
            .allow_start_udp_servers(),
    );
    assert_eq!(
        rules.permissions(),
        vec![
            Permission::RunningTcpClients,
            Permission::StartUdpServers,
            Permission::StartUnixServer,
        ]
    );
}

#[test]
fn granted_flags_follow_the_bits() {
    assert_eq!(
        granted_flags(CategoryKind::Threads, 0b11),
        vec![Permission::CreateThreads, Permission::Sleep]
    );
    assert_eq!(granted_flags(CategoryKind::Threads, 0b10), vec![Permission::Sleep]);
    assert_eq!(granted_flags(CategoryKind::Time, 1), vec![Permission::GetTime]);
    assert_eq!(granted_flags(CategoryKind::BasicCapabilities, 0), vec![]);
    assert_eq!(granted_flags(CategoryKind::SystemIO, 0x3ff).len(), 10);
    assert_eq!(granted_flags(CategoryKind::Networking, 0x1ff).len(), 9);
}

#[test]
fn risky_permissions_are_marked() {
    for permission in [
        Permission::Sleep,
        Permission::StartTcpServers,
        Permission::StartUdpServers,
        Permission::StartUnixServer,
        Permission::Open,
    ] {
        assert!(permission.needs_confirmation());
    }
    for permission in [
        Permission::CreateThreads,
        Permission::StartTcpClients,
        Permission::Read,
        Permission::FileRead(1),
        Permission::GetTime,
    ] {
        assert!(!permission.needs_confirmation());
    }
}

#[test]
fn a_copy_does_not_follow_its_source() {
    let mut source = PySystemIO::new().allow_read();
    source.allow_file_read(3).unwrap();
    let copy = source.clone();
    source.allow_file_read(4).unwrap();
    let source = source.allow_write();
    assert_eq!(copy.flags(), 0x20);
    assert_eq!(copy.read_descriptors(), &vec![3]);
    assert_eq!(source.flags(), 0x220);
    assert_eq!(source.read_descriptors(), &vec![3, 4]);
}

#[test]
fn categories_know_their_flags() {
    assert_eq!(CategoryKind::BasicCapabilities.all_flags(), 0);
    assert_eq!(CategoryKind::ForkAndExec.all_flags(), 0);
    assert_eq!(CategoryKind::Threads.all_flags(), 0x3);
    assert_eq!(CategoryKind::Networking.all_flags(), 0x1ff);
    assert_eq!(CategoryKind::SystemIO.all_flags(), 0x3ff);
    assert_eq!(CategoryKind::Time.all_flags(), 0x1);
    for kind in [CategoryKind::Threads, CategoryKind::Networking, CategoryKind::SystemIO, CategoryKind::Time] {
        let mut all: u16 = 0;
        for position in 0..kind.flag_count() {
            let permission = kind.flag_at(position);
            assert_eq!(permission.category(), kind);
            assert_eq!(permission.bit(), 1 << position);
            all |= permission.bit();
        }
        assert_eq!(all, kind.all_flags());
    }
}
