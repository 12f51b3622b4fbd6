//! Rule sets: the permissions of one category, built up call by call.
//!
//! Each category has a builder type of its own, so that a rule set can only be
//! given permissions of its category. [`DataRuleSet`] is the closed union of the
//! six; a safety context holds values of it.

use crate::category::{
    flag_permissions, granted_flags, has_flag, is_flag, lemma_granted_iff_set, lemma_no_flags,
    lemma_other_flags_stay, lemma_set_flag, lemma_set_flag_commutes, CategoryKind, Permission,
};
use crate::descriptors::{
    ascending, insert_sorted_fileno, lemma_ascending_holds_once, lemma_with_descriptor,
    lemma_with_descriptor_commutes, lemma_with_descriptor_twice, locate, occurs_once,
    valid_descriptors, with_descriptor,
};
use crate::error::{Argument, Error};
use vstd::prelude::*;

verus! {

/// A rule set as a mathematical value: its category, its flags, and the
/// descriptors that may be read and written. Only the I/O category has
/// descriptors.
pub ghost struct RuleSetView {
    pub kind: CategoryKind,
    pub flags: u16,
    pub read_fds: Seq<i32>,
    pub write_fds: Seq<i32>,
}

impl RuleSetView {
    /// The invariant of every rule set: no flag outside those of its category,
    /// descriptor lists that are ascending and hold nothing negative, and no
    /// descriptors outside the I/O category.
    pub open spec fn wf(self) -> bool {
        &&& self.flags & !self.kind.spec_all_flags() == 0
        &&& valid_descriptors(self.read_fds)
        &&& valid_descriptors(self.write_fds)
        &&& (self.kind != CategoryKind::SystemIO ==> self.read_fds.len() == 0
            && self.write_fds.len() == 0)
    }

    /// The rule set of `kind` that grants nothing.
    pub open spec fn empty(kind: CategoryKind) -> RuleSetView {
        RuleSetView { kind, flags: 0, read_fds: Seq::empty(), write_fds: Seq::empty() }
    }

    /// The rule set with the flag of `permission` set.
    pub open spec fn with_flag(self, permission: Permission) -> RuleSetView
        recommends
            is_flag(permission),
            permission.spec_category() == self.kind,
    {
        RuleSetView { flags: self.flags | permission.spec_bit(), ..self }
    }

    /// The rule set with `fd` among the descriptors that may be read.
    pub open spec fn with_read(self, fd: i32) -> RuleSetView {
        RuleSetView { read_fds: with_descriptor(self.read_fds, fd), ..self }
    }

    /// The rule set with `fd` among the descriptors that may be written.
    pub open spec fn with_write(self, fd: i32) -> RuleSetView {
        RuleSetView { write_fds: with_descriptor(self.write_fds, fd), ..self }
    }

    /// Whether the rule set grants `permission`.
    pub open spec fn allows(self, permission: Permission) -> bool {
        self.kind == permission.spec_category() && match permission {
            Permission::FileRead(fd) => self.read_fds.contains(fd),
            Permission::FileWrite(fd) => self.write_fds.contains(fd),
            _ => has_flag(self.flags, permission),
        }
    }

    /// Everything that the rule set grants, in the order in which it is applied
    /// to a policy: the flags by position, then the descriptors to read, then
    /// the descriptors to write, each list in ascending order.
    pub open spec fn permissions(self) -> Seq<Permission> {
        flag_permissions(self.kind, self.flags) + read_grants(self.read_fds) + write_grants(
            self.write_fds,
        )
    }
}

/// One permission to read for each descriptor of the list, in its order.
pub open spec fn read_grants(fds: Seq<i32>) -> Seq<Permission> {
    Seq::new(fds.len(), |i: int| Permission::FileRead(fds[i]))
}

/// One permission to write for each descriptor of the list, in its order.
pub open spec fn write_grants(fds: Seq<i32>) -> Seq<Permission> {
    Seq::new(fds.len(), |i: int| Permission::FileWrite(fds[i]))
}

/// Sets the flag of `permission` in `flags`.
fn set_flag(flags: u16, permission: Permission) -> (set: u16)
    requires
        is_flag(permission),
        flags & !permission.spec_category().spec_all_flags() == 0,
    ensures
        set == flags | permission.spec_bit(),
        set & !permission.spec_category().spec_all_flags() == 0,
{
    proof {
        lemma_set_flag(flags, permission);
    }
    flags | permission.bit()
}

/// The system calls that every program needs: memory, signals, futexes, exit.
#[derive(Clone, Copy, Debug)]
pub struct PyBasicCapabilities;

impl View for PyBasicCapabilities {
    type V = RuleSetView;

    open spec fn view(&self) -> RuleSetView {
        RuleSetView::empty(CategoryKind::BasicCapabilities)
    }
}

impl PyBasicCapabilities {
    /// The rule set of this category; it has no options.
    pub fn new() -> (fresh: PyBasicCapabilities)
        ensures
            fresh@ == RuleSetView::empty(CategoryKind::BasicCapabilities),
            fresh@.wf(),
    {
        proof {
            lemma_no_flags(CategoryKind::BasicCapabilities);
        }
        PyBasicCapabilities
    }

    /// The flags that are set: none.
    pub fn flags(&self) -> (flags: u16)
        ensures
            flags == self@.flags,
            self@.wf(),
            self@.kind == CategoryKind::BasicCapabilities,
    {
        proof {
            lemma_no_flags(CategoryKind::BasicCapabilities);
        }
        0
    }
}

/// Starting other programs: fork, exec and wait.
#[derive(Clone, Copy, Debug)]
pub struct PyForkAndExec;

impl View for PyForkAndExec {
    type V = RuleSetView;

    open spec fn view(&self) -> RuleSetView {
        RuleSetView::empty(CategoryKind::ForkAndExec)
    }
}

impl PyForkAndExec {
    /// The rule set of this category; it has no options.
    pub fn new() -> (fresh: PyForkAndExec)
        ensures
            fresh@ == RuleSetView::empty(CategoryKind::ForkAndExec),
            fresh@.wf(),
    {
        proof {
            lemma_no_flags(CategoryKind::ForkAndExec);
        }
        PyForkAndExec
    }

    /// The flags that are set: none.
    pub fn flags(&self) -> (flags: u16)
        ensures
            flags == self@.flags,
            self@.wf(),
            self@.kind == CategoryKind::ForkAndExec,
    {
        proof {
            lemma_no_flags(CategoryKind::ForkAndExec);
        }
        0
    }
}

/// Creating threads and letting them sleep.
#[derive(Clone, Copy, Debug)]
pub struct PyThreads {
    flags: u16,
}

impl View for PyThreads {
    type V = RuleSetView;

    closed spec fn view(&self) -> RuleSetView {
        RuleSetView {
            kind: CategoryKind::Threads,
            flags: self.flags,
            read_fds: Seq::empty(),
            write_fds: Seq::empty(),
        }
    }
}

impl PyThreads {
    #[verifier::type_invariant]
    spec fn inv(self) -> bool {
        self@.wf()
    }

    /// The rule set that grants nothing.
    pub fn new() -> (fresh: PyThreads)
        ensures
            fresh@ == RuleSetView::empty(CategoryKind::Threads),
            fresh@.wf(),
    {
        proof {
            lemma_no_flags(CategoryKind::Threads);
        }
        PyThreads { flags: 0 }
    }

    /// The flags that are set.
    pub fn flags(&self) -> (flags: u16)
        ensures
            flags == self@.flags,
            self@.wf(),
            self@.kind == CategoryKind::Threads,
    {
        proof {
            use_type_invariant(self);
        }
        self.flags
    }

    /// Allows creating threads and processes.
    pub fn allow_create(self) -> (granted: PyThreads)
        ensures
            granted@ == self@.with_flag(Permission::CreateThreads),
            granted@.wf(),
    {
        proof {
            use_type_invariant(self);
        }
        PyThreads { flags: set_flag(self.flags, Permission::CreateThreads) }
    }

    /// Allows a thread to sleep. The call is the confirmation that the
    /// enforcement engine asks for.
    pub fn allow_sleep(self) -> (granted: PyThreads)
        ensures
            granted@ == self@.with_flag(Permission::Sleep),
            granted@.wf(),
    {
        proof {
            use_type_invariant(self);
        }
        PyThreads { flags: set_flag(self.flags, Permission::Sleep) }
    }
}

/// Sockets: using the ones that exist, and making new ones.
#[derive(Clone, Copy, Debug)]
pub struct PyNetworking {
    flags: u16,
}

impl View for PyNetworking {
    type V = RuleSetView;

    closed spec fn view(&self) -> RuleSetView {
        RuleSetView {
            kind: CategoryKind::Networking,
            flags: self.flags,
            read_fds: Seq::empty(),
            write_fds: Seq::empty(),
        }
    }
}

impl PyNetworking {
    #[verifier::type_invariant]
    spec fn inv(self) -> bool {
        self@.wf()
    }

    /// The rule set that grants nothing.
    pub fn new() -> (fresh: PyNetworking)
        ensures
            fresh@ == RuleSetView::empty(CategoryKind::Networking),
            fresh@.wf(),
    {
        proof {
            lemma_no_flags(CategoryKind::Networking);
        }
        PyNetworking { flags: 0 }
    }

    /// The flags that are set.
    pub fn flags(&self) -> (flags: u16)
        ensures
            flags == self@.flags,
            self@.wf(),
            self@.kind == CategoryKind::Networking,
    {
        proof {
            use_type_invariant(self);
        }
        self.flags
    }

    /// Allows using TCP sockets that are already connected.
    pub fn allow_running_tcp_clients(self) -> (granted: PyNetworking)
        ensures
            granted@ == self@.with_flag(Permission::RunningTcpClients),
            granted@.wf(),
    {
        proof {
            use_type_invariant(self);
        }
        PyNetworking { flags: set_flag(self.flags, Permission::RunningTcpClients) }
    }

    /// Allows serving on TCP sockets that are already listening.
    pub fn allow_running_tcp_servers(self) -> (granted: PyNetworking)
        ensures
            granted@ == self@.with_flag(Permission::RunningTcpServers),
            granted@.wf(),
    {
        proof {
            use_type_invariant(self);
        }
        PyNetworking { flags: set_flag(self.flags, Permission::RunningTcpServers) }
    }

    /// Allows using UDP sockets that already exist.
    pub fn allow_running_udp_sockets(self) -> (granted: PyNetworking)
        ensures
            granted@ == self@.with_flag(Permission::RunningUdpSockets),
            granted@.wf(),
    {
        proof {
            use_type_invariant(self);
        }
        PyNetworking { flags: set_flag(self.flags, Permission::RunningUdpSockets) }
    }

    /// Allows using Unix sockets that are already connected.
    pub fn allow_running_unix_clients(self) -> (granted: PyNetworking)
        ensures
            granted@ == self@.with_flag(Permission::RunningUnixClients),
            granted@.wf(),
    {
        proof {
            use_type_invariant(self);
        }
        PyNetworking { flags: set_flag(self.flags, Permission::RunningUnixClients) }
    }

    /// Allows serving on Unix sockets that are already listening.
    pub fn allow_running_unix_servers(self) -> (granted: PyNetworking)
        ensures
            granted@ == self@.with_flag(Permission::RunningUnixServers),
            granted@.wf(),
    {
        proof {
            use_type_invariant(self);
        }
        PyNetworking { flags: set_flag(self.flags, Permission::RunningUnixServers) }
    }

    /// Allows opening new TCP connections.
    pub fn allow_start_tcp_clients(self) -> (granted: PyNetworking)
        ensures
            granted@ == self@.with_flag(Permission::StartTcpClients),
            granted@.wf(),
    {
        proof {
            use_type_invariant(self);
        }
        PyNetworking { flags: set_flag(self.flags, Permission::StartTcpClients) }
    }

    /// Allows starting TCP servers. The call is the confirmation that the
    /// enforcement engine asks for.
    pub fn allow_start_tcp_servers(self) -> (granted: PyNetworking)
        ensures
            granted@ == self@.with_flag(Permission::StartTcpServers),
            granted@.wf(),
    {
        proof {
            use_type_invariant(self);
        }
        PyNetworking { flags: set_flag(self.flags, Permission::StartTcpServers) }
    }

    /// Allows starting UDP servers. The call is the confirmation that the
    /// enforcement engine asks for.
    pub fn allow_start_udp_servers(self) -> (granted: PyNetworking)
        ensures
            granted@ == self@.with_flag(Permission::StartUdpServers),
            granted@.wf(),
    {
        proof {
            use_type_invariant(self);
        }
        PyNetworking { flags: set_flag(self.flags, Permission::StartUdpServers) }
    }

    /// Allows starting Unix-socket servers. The call is the confirmation that
    /// the enforcement engine asks for.
    pub fn allow_start_unix_server(self) -> (granted: PyNetworking)
        ensures
            granted@ == self@.with_flag(Permission::StartUnixServer),
            granted@.wf(),
    {
        proof {
            use_type_invariant(self);
        }
        PyNetworking { flags: set_flag(self.flags, Permission::StartUnixServer) }
    }
}

/// Reading the clocks.
#[derive(Clone, Copy, Debug)]
pub struct PyTime {
    flags: u16,
}

impl View for PyTime {
    type V = RuleSetView;

    closed spec fn view(&self) -> RuleSetView {
        RuleSetView {
            kind: CategoryKind::Time,
            flags: self.flags,
            read_fds: Seq::empty(),
            write_fds: Seq::empty(),
        }
    }
}

impl PyTime {
    #[verifier::type_invariant]
    spec fn inv(self) -> bool {
        self@.wf()
    }

    /// The rule set that grants nothing.
    pub fn new() -> (fresh: PyTime)
        ensures
            fresh@ == RuleSetView::empty(CategoryKind::Time),
            fresh@.wf(),
    {
        proof {
            lemma_no_flags(CategoryKind::Time);
        }
        PyTime { flags: 0 }
    }

    /// The flags that are set.
    pub fn flags(&self) -> (flags: u16)
        ensures
            flags == self@.flags,
            self@.wf(),
            self@.kind == CategoryKind::Time,
    {
        proof {
            use_type_invariant(self);
        }
        self.flags
    }

    /// Allows reading the clocks.
    pub fn allow_gettime(self) -> (granted: PyTime)
        ensures
            granted@ == self@.with_flag(Permission::GetTime),
            granted@.wf(),
    {
        proof {
            use_type_invariant(self);
        }
        PyTime { flags: set_flag(self.flags, Permission::GetTime) }
    }
}

/// Files: opening, reading, writing, and allow-lists of single descriptors.
#[derive(Debug)]
pub struct PySystemIO {
    flags: u16,
    read_fds: Vec<i32>,
    write_fds: Vec<i32>,
}

impl View for PySystemIO {
    type V = RuleSetView;

    closed spec fn view(&self) -> RuleSetView {
        RuleSetView {
            kind: CategoryKind::SystemIO,
            flags: self.flags,
            read_fds: self.read_fds@,
            write_fds: self.write_fds@,
        }
    }
}

/// A copy of a list of descriptors.
fn copy_descriptors(list: &Vec<i32>) -> (copy: Vec<i32>)
    ensures
        copy@ == list@,
{
    let mut copy: Vec<i32> = Vec::new();
    let mut at: usize = 0;
    while at < list.len()
        invariant
            at <= list@.len(),
            copy@ == list@.subrange(0, at as int),
        decreases list@.len() - at,
    {
        copy.push(list[at]);
        assert(copy@ =~= list@.subrange(0, at + 1));
        at = at + 1;
    }
    assert(copy@ =~= list@);
    copy
}

impl Clone for PySystemIO {
    /// A rule set of its own that grants the same; changing one does not
    /// change the other.
    fn clone(&self) -> (copy: PySystemIO)
        ensures
            copy@ == self@,
    {
        proof {
            use_type_invariant(self);
        }
        PySystemIO {
            flags: self.flags,
            read_fds: copy_descriptors(&self.read_fds),
            write_fds: copy_descriptors(&self.write_fds),
        }
    }
}

impl PySystemIO {
    #[verifier::type_invariant]
    spec fn inv(self) -> bool {
        self@.wf()
    }

    /// The rule set that grants nothing.
    pub fn new() -> (fresh: PySystemIO)
        ensures
            fresh@ == RuleSetView::empty(CategoryKind::SystemIO),
            fresh@.wf(),
    {
        proof {
            lemma_no_flags(CategoryKind::SystemIO);
        }
        PySystemIO { flags: 0, read_fds: Vec::new(), write_fds: Vec::new() }
    }

    /// The rule set with every flag set and no descriptor listed.
    pub fn everything() -> (all: PySystemIO)
        ensures
            all@ == (RuleSetView {
                flags: CategoryKind::SystemIO.spec_all_flags(),
                ..RuleSetView::empty(CategoryKind::SystemIO)
            }),
            all@.wf(),
            forall|permission: Permission|
                is_flag(permission) && permission.spec_category() == CategoryKind::SystemIO
                    ==> all@.allows(permission),
    {
        assert(0x3ffu16 & !0x3ffu16 == 0) by (bit_vector);
        assert(0x3ffu16 & 0x1 != 0 && 0x3ffu16 & 0x2 != 0 && 0x3ffu16 & 0x4 != 0 && 0x3ffu16 & 0x8
            != 0 && 0x3ffu16 & 0x10 != 0 && 0x3ffu16 & 0x20 != 0 && 0x3ffu16 & 0x40 != 0 && 0x3ffu16
            & 0x80 != 0 && 0x3ffu16 & 0x100 != 0 && 0x3ffu16 & 0x200 != 0) by (bit_vector);
        PySystemIO {
            flags: CategoryKind::SystemIO.all_flags(),
            read_fds: Vec::new(),
            write_fds: Vec::new(),
        }
    }

    /// The flags that are set.
    pub fn flags(&self) -> (flags: u16)
        ensures
            flags == self@.flags,
            self@.wf(),
            self@.kind == CategoryKind::SystemIO,
    {
        proof {
            use_type_invariant(self);
        }
        self.flags
    }

    /// The descriptors that may be read, in ascending order.
    pub fn read_descriptors(&self) -> (list: &Vec<i32>)
        ensures
            list@ == self@.read_fds,
    {
        &self.read_fds
    }

    /// The descriptors that may be written, in ascending order.
    pub fn write_descriptors(&self) -> (list: &Vec<i32>)
        ensures
            list@ == self@.write_fds,
    {
        &self.write_fds
    }

    /// Allows reading from the descriptor `fd`.
    ///
    /// A negative `fd`, the "no descriptor" value -1 included, is an invalid
    /// argument and leaves the rule set as it was. Allowing a descriptor twice
    /// is the same as allowing it once.
    pub fn allow_file_read(&mut self, fd: i32) -> (done: Result<(), Error>)
        ensures
            fd < 0 ==> done == Err::<(), Error>(Error::InvalidArgument(Argument::Descriptor))
                && final(self)@ == old(self)@,
            fd >= 0 ==> done is Ok && final(self)@ == old(self)@.with_read(fd),
            final(self)@.wf(),
    {
        proof {
            use_type_invariant(&*self);
        }
        let mut list: Vec<i32> = Vec::new();
        core::mem::swap(&mut self.read_fds, &mut list);
        let done = insert_sorted_fileno(&mut list, fd);
        core::mem::swap(&mut self.read_fds, &mut list);
        done
    }

    /// Allows writing to the descriptor `fd`.
    ///
    /// A negative `fd`, the "no descriptor" value -1 included, is an invalid
    /// argument and leaves the rule set as it was. Allowing a descriptor twice
    /// is the same as allowing it once.
    pub fn allow_file_write(&mut self, fd: i32) -> (done: Result<(), Error>)
        ensures
            fd < 0 ==> done == Err::<(), Error>(Error::InvalidArgument(Argument::Descriptor))
                && final(self)@ == old(self)@,
            fd >= 0 ==> done is Ok && final(self)@ == old(self)@.with_write(fd),
            final(self)@.wf(),
    {
        proof {
            use_type_invariant(&*self);
        }
        let mut list: Vec<i32> = Vec::new();
        core::mem::swap(&mut self.write_fds, &mut list);
        let done = insert_sorted_fileno(&mut list, fd);
        core::mem::swap(&mut self.write_fds, &mut list);
        done
    }

    /// Allows closing descriptors.
    pub fn allow_close(self) -> (granted: PySystemIO)
        ensures
            granted@ == self@.with_flag(Permission::Close),
            granted@.wf(),
    {
        proof {
            use_type_invariant(&self);
        }
        PySystemIO {
            flags: set_flag(self.flags, Permission::Close),
            read_fds: self.read_fds,
            write_fds: self.write_fds,
        }
    }

    /// Allows controlling devices and descriptors.
    pub fn allow_ioctl(self) -> (granted: PySystemIO)
        ensures
            granted@ == self@.with_flag(Permission::Ioctl),
            granted@.wf(),
    {
        proof {
            use_type_invariant(&self);
        }
        PySystemIO {
            flags: set_flag(self.flags, Permission::Ioctl),
            read_fds: self.read_fds,
            write_fds: self.write_fds,
        }
    }

    /// Allows reading file metadata.
    pub fn allow_metadata(self) -> (granted: PySystemIO)
        ensures
            granted@ == self@.with_flag(Permission::Metadata),
            granted@.wf(),
    {
        proof {
            use_type_invariant(&self);
        }
        PySystemIO {
            flags: set_flag(self.flags, Permission::Metadata),
            read_fds: self.read_fds,
            write_fds: self.write_fds,
        }
    }

    /// Allows opening files in any mode. The call is the confirmation that
    /// the enforcement engine asks for.
    pub fn allow_open(self) -> (granted: PySystemIO)
        ensures
            granted@ == self@.with_flag(Permission::Open),
            granted@.wf(),
    {
        proof {
            use_type_invariant(&self);
        }
        PySystemIO {
            flags: set_flag(self.flags, Permission::Open),
            read_fds: self.read_fds,
            write_fds: self.write_fds,
        }
    }

    /// Allows opening files for reading only.
    pub fn allow_open_readonly(self) -> (granted: PySystemIO)
        ensures
            granted@ == self@.with_flag(Permission::OpenReadonly),
            granted@.wf(),
    {
        proof {
            use_type_invariant(&self);
        }
        PySystemIO {
            flags: set_flag(self.flags, Permission::OpenReadonly),
            read_fds: self.read_fds,
            write_fds: self.write_fds,
        }
    }

    /// Allows reading from any descriptor.
    pub fn allow_read(self) -> (granted: PySystemIO)
        ensures
            granted@ == self@.with_flag(Permission::Read),
            granted@.wf(),
    {
        proof {
            use_type_invariant(&self);
        }
        PySystemIO {
            flags: set_flag(self.flags, Permission::Read),
            read_fds: self.read_fds,
            write_fds: self.write_fds,
        }
    }

    /// Allows writing to the standard error stream.
    pub fn allow_stderr(self) -> (granted: PySystemIO)
        ensures
            granted@ == self@.with_flag(Permission::Stderr),
            granted@.wf(),
    {
        proof {
            use_type_invariant(&self);
        }
        PySystemIO {
            flags: set_flag(self.flags, Permission::Stderr),
            read_fds: self.read_fds,
            write_fds: self.write_fds,
        }
    }

    /// Allows reading from the standard input stream.
    pub fn allow_stdin(self) -> (granted: PySystemIO)
        ensures
            granted@ == self@.with_flag(Permission::Stdin),
            granted@.wf(),
    {
        proof {
            use_type_invariant(&self);
        }
        PySystemIO {
            flags: set_flag(self.flags, Permission::Stdin),
            read_fds: self.read_fds,
            write_fds: self.write_fds,
        }
    }

    /// Allows writing to the standard output stream.
    pub fn allow_stdout(self) -> (granted: PySystemIO)
        ensures
            granted@ == self@.with_flag(Permission::Stdout),
            granted@.wf(),
    {
        proof {
            use_type_invariant(&self);
        }
        PySystemIO {
            flags: set_flag(self.flags, Permission::Stdout),
            read_fds: self.read_fds,
            write_fds: self.write_fds,
        }
    }

    /// Allows writing to any descriptor.
    pub fn allow_write(self) -> (granted: PySystemIO)
        ensures
            granted@ == self@.with_flag(Permission::Write),
            granted@.wf(),
    {
        proof {
            use_type_invariant(&self);
        }
        PySystemIO {
            flags: set_flag(self.flags, Permission::Write),
            read_fds: self.read_fds,
            write_fds: self.write_fds,
        }
    }
}

/// The permissions of one category: the closed union of the six kinds of rule
/// set.
#[derive(Debug)]
pub enum DataRuleSet {
    PyBasicCapabilities(PyBasicCapabilities),
    PyForkAndExec(PyForkAndExec),
    PyThreads(PyThreads),
    PyNetworking(PyNetworking),
    PySystemIO(PySystemIO),
    PyTime(PyTime),
}

impl View for DataRuleSet {
    type V = RuleSetView;

    open spec fn view(&self) -> RuleSetView {
        match self {
            DataRuleSet::PyBasicCapabilities(rules) => rules@,
            DataRuleSet::PyForkAndExec(rules) => rules@,
            DataRuleSet::PyThreads(rules) => rules@,
            DataRuleSet::PyNetworking(rules) => rules@,
            DataRuleSet::PySystemIO(rules) => rules@,
            DataRuleSet::PyTime(rules) => rules@,
        }
    }
}

impl Clone for DataRuleSet {
    /// A rule set of its own that grants the same; changing one does not
    /// change the other.
    fn clone(&self) -> (copy: DataRuleSet)
        ensures
            copy@ == self@,
    {
        match self {
            DataRuleSet::PyBasicCapabilities(rules) => DataRuleSet::PyBasicCapabilities(*rules),
            DataRuleSet::PyForkAndExec(rules) => DataRuleSet::PyForkAndExec(*rules),
            DataRuleSet::PyThreads(rules) => DataRuleSet::PyThreads(*rules),
            DataRuleSet::PyNetworking(rules) => DataRuleSet::PyNetworking(*rules),
            DataRuleSet::PySystemIO(rules) => DataRuleSet::PySystemIO(rules.clone()),
            DataRuleSet::PyTime(rules) => DataRuleSet::PyTime(*rules),
        }
    }
}

impl DataRuleSet {
    /// The rule set of `kind` that grants nothing.
    pub fn new(kind: CategoryKind) -> (fresh: DataRuleSet)
        ensures
            fresh@ == RuleSetView::empty(kind),
            fresh@.wf(),
    {
        match kind {
            CategoryKind::BasicCapabilities => DataRuleSet::PyBasicCapabilities(
                PyBasicCapabilities::new(),
            ),
            CategoryKind::ForkAndExec => DataRuleSet::PyForkAndExec(PyForkAndExec::new()),
            CategoryKind::Threads => DataRuleSet::PyThreads(PyThreads::new()),
            CategoryKind::Networking => DataRuleSet::PyNetworking(PyNetworking::new()),
            CategoryKind::SystemIO => DataRuleSet::PySystemIO(PySystemIO::new()),
            CategoryKind::Time => DataRuleSet::PyTime(PyTime::new()),
        }
    }

    /// The category of the rule set.
    pub fn kind(&self) -> (kind: CategoryKind)
        ensures
            kind == self@.kind,
    {
        match self {
            DataRuleSet::PyBasicCapabilities(_) => CategoryKind::BasicCapabilities,
            DataRuleSet::PyForkAndExec(_) => CategoryKind::ForkAndExec,
            DataRuleSet::PyThreads(_) => CategoryKind::Threads,
            DataRuleSet::PyNetworking(_) => CategoryKind::Networking,
            DataRuleSet::PySystemIO(_) => CategoryKind::SystemIO,
            DataRuleSet::PyTime(_) => CategoryKind::Time,
        }
    }

    /// The flags that are set. A rule set always satisfies its invariant.
    pub fn flags(&self) -> (flags: u16)
        ensures
            flags == self@.flags,
            self@.wf(),
    {
        match self {
            DataRuleSet::PyBasicCapabilities(rules) => rules.flags(),
            DataRuleSet::PyForkAndExec(rules) => rules.flags(),
            DataRuleSet::PyThreads(rules) => rules.flags(),
            DataRuleSet::PyNetworking(rules) => rules.flags(),
            DataRuleSet::PySystemIO(rules) => rules.flags(),
            DataRuleSet::PyTime(rules) => rules.flags(),
        }
    }

    /// The number of descriptors that may be read.
    pub fn read_count(&self) -> (count: usize)
        ensures
            count == self@.read_fds.len(),
    {
        match self {
            DataRuleSet::PySystemIO(rules) => rules.read_descriptors().len(),
            _ => 0,
        }
    }

    /// The number of descriptors that may be written.
    pub fn write_count(&self) -> (count: usize)
        ensures
            count == self@.write_fds.len(),
    {
        match self {
            DataRuleSet::PySystemIO(rules) => rules.write_descriptors().len(),
            _ => 0,
        }
    }

    /// The descriptor at `position` among those that may be read.
    pub fn read_descriptor(&self, position: usize) -> (fd: i32)
        requires
            position < self@.read_fds.len(),
        ensures
            fd == self@.read_fds[position as int],
    {
        match self {
            DataRuleSet::PySystemIO(rules) => rules.read_descriptors()[position],
            _ => 0,
        }
    }

    /// The descriptor at `position` among those that may be written.
    pub fn write_descriptor(&self, position: usize) -> (fd: i32)
        requires
            position < self@.write_fds.len(),
        ensures
            fd == self@.write_fds[position as int],
    {
        match self {
            DataRuleSet::PySystemIO(rules) => rules.write_descriptors()[position],
            _ => 0,
        }
    }

    /// Whether the rule set grants `permission`.
    pub fn allows(&self, permission: Permission) -> (granted: bool)
        ensures
            granted == self@.allows(permission),
    {
        if self.kind() != permission.category() {
            return false;
        }
        match permission {
            Permission::FileRead(fd) => match self {
                DataRuleSet::PySystemIO(rules) => {
                    proof {
                        use_type_invariant(rules);
                    }
                    locate(rules.read_descriptors(), fd).0
                },
                _ => false,
            },
            Permission::FileWrite(fd) => match self {
                DataRuleSet::PySystemIO(rules) => {
                    proof {
                        use_type_invariant(rules);
                    }
                    locate(rules.write_descriptors(), fd).0
                },
                _ => false,
            },
            _ => self.flags() & permission.bit() != 0,
        }
    }

    /// Everything that the rule set grants, in the order in which it is applied
    /// to a policy.
    pub fn permissions(&self) -> (granted: Vec<Permission>)
        ensures
            granted@ == self@.permissions(),
    {
        let mut granted = granted_flags(self.kind(), self.flags());
        let ghost flags_part = granted@;
        let reads = self.read_count();
        let mut at: usize = 0;
        while at < reads
            invariant
                reads == self@.read_fds.len(),
                at <= reads,
                granted@ == flags_part + read_grants(self@.read_fds.subrange(0, at as int)),
            decreases reads - at,
        {
            granted.push(Permission::FileRead(self.read_descriptor(at)));
            assert(granted@ =~= flags_part + read_grants(
                self@.read_fds.subrange(0, at + 1),
            ));
            at = at + 1;
        }
        assert(self@.read_fds.subrange(0, reads as int) =~= self@.read_fds);
        let ghost read_part = granted@;
        let writes = self.write_count();
        let mut at: usize = 0;
        while at < writes
            invariant
                writes == self@.write_fds.len(),
                at <= writes,
                granted@ == read_part + write_grants(self@.write_fds.subrange(0, at as int)),
            decreases writes - at,
        {
            granted.push(Permission::FileWrite(self.write_descriptor(at)));
            assert(granted@ =~= read_part + write_grants(
                self@.write_fds.subrange(0, at + 1),
            ));
            at = at + 1;
        }
        assert(self@.write_fds.subrange(0, writes as int) =~= self@.write_fds);
        granted
    }
}

/// Granting a flag keeps the invariant, grants that permission, and leaves
/// every other permission as it was.
pub proof fn lemma_with_flag(rules: RuleSetView, permission: Permission)
    requires
        rules.wf(),
        is_flag(permission),
        permission.spec_category() == rules.kind,
    ensures
        rules.with_flag(permission).wf(),
        rules.with_flag(permission).allows(permission),
        forall|other: Permission|
            other != permission ==> rules.with_flag(permission).allows(other) == rules.allows(
                other,
            ),
{
    lemma_set_flag(rules.flags, permission);
    assert forall|other: Permission| other != permission implies rules.with_flag(
        permission,
    ).allows(other) == rules.allows(other) by {
        if is_flag(other) && other.spec_category() == rules.kind {
            lemma_other_flags_stay(rules.flags, permission, other);
        }
    }
}

/// What a rule set applies to a policy is what it allows, no more and no less.
pub proof fn lemma_applied_is_allowed(rules: RuleSetView, permission: Permission)
    requires
        rules.wf(),
    ensures
        rules.permissions().contains(permission) <==> rules.allows(permission),
{
    let flags = flag_permissions(rules.kind, rules.flags);
    let reads = read_grants(rules.read_fds);
    let writes = write_grants(rules.write_fds);
    let all = rules.permissions();
    lemma_granted_iff_set(rules.kind, rules.flags, permission);
    if all.contains(permission) {
        let at = choose|i: int| 0 <= i < all.len() && all[i] == permission;
        if at < flags.len() {
            assert(flags[at] == permission);
        } else if at < flags.len() + reads.len() {
            assert(reads[at - flags.len()] == permission);
            assert(rules.read_fds.contains(rules.read_fds[at - flags.len()]));
        } else {
            assert(writes[at - flags.len() - reads.len()] == permission);
            assert(rules.write_fds.contains(rules.write_fds[at - flags.len() - reads.len()]));
        }
    }
    if rules.allows(permission) {
        match permission {
            Permission::FileRead(fd) => {
                let at = choose|i: int| 0 <= i < rules.read_fds.len() && rules.read_fds[i] == fd;
                assert(all[flags.len() + at] == permission);
            },
            Permission::FileWrite(fd) => {
                let at = choose|i: int|
                    0 <= i < rules.write_fds.len() && rules.write_fds[i] == fd;
                assert(all[flags.len() + reads.len() + at] == permission);
            },
            _ => {
                let at = choose|i: int| 0 <= i < flags.len() && flags[i] == permission;
                assert(all[at] == permission);
            },
        }
    }
}

/// Granting is idempotent: a permission granted twice is granted once. This
/// holds of every flag and of every descriptor.
pub proof fn lemma_allow_twice(rules: RuleSetView, permission: Permission, fd: i32)
    requires
        rules.wf(),
        is_flag(permission),
        permission.spec_category() == rules.kind,
        fd >= 0,
    ensures
        rules.with_flag(permission).with_flag(permission) == rules.with_flag(permission),
        rules.allows(permission) ==> rules.with_flag(permission) == rules,
        rules.with_read(fd).with_read(fd) == rules.with_read(fd),
        rules.with_write(fd).with_write(fd) == rules.with_write(fd),
{
    lemma_set_flag(rules.flags, permission);
    lemma_with_descriptor_twice(rules.read_fds, fd);
    lemma_with_descriptor_twice(rules.write_fds, fd);
}

/// A descriptor that has been allowed is in its list exactly once, however
/// often it was allowed, and the list stays strictly ascending.
pub proof fn lemma_descriptor_once(rules: RuleSetView, fd: i32)
    requires
        rules.wf(),
        rules.kind == CategoryKind::SystemIO,
        fd >= 0,
    ensures
        rules.with_read(fd).wf(),
        rules.with_read(fd).with_read(fd).wf(),
        ascending(rules.with_read(fd).with_read(fd).read_fds),
        occurs_once(rules.with_read(fd).with_read(fd).read_fds, fd),
        rules.with_write(fd).wf(),
        rules.with_write(fd).with_write(fd).wf(),
        ascending(rules.with_write(fd).with_write(fd).write_fds),
        occurs_once(rules.with_write(fd).with_write(fd).write_fds, fd),
{
    lemma_with_descriptor(rules.read_fds, fd);
    lemma_with_descriptor_twice(rules.read_fds, fd);
    lemma_ascending_holds_once(with_descriptor(rules.read_fds, fd), fd);
    lemma_with_descriptor(rules.write_fds, fd);
    lemma_with_descriptor_twice(rules.write_fds, fd);
    lemma_ascending_holds_once(with_descriptor(rules.write_fds, fd), fd);
}

/// The order of the calls does not matter: two grants, of flags or of
/// descriptors, give the same rule set whichever comes first.
pub proof fn lemma_order_of_calls(
    rules: RuleSetView,
    first: Permission,
    second: Permission,
    fd: i32,
    other_fd: i32,
)
    requires
        rules.wf(),
        fd >= 0,
        other_fd >= 0,
    ensures
        rules.with_flag(first).with_flag(second) == rules.with_flag(second).with_flag(first),
        rules.with_read(fd).with_read(other_fd) == rules.with_read(other_fd).with_read(fd),
        rules.with_write(fd).with_write(other_fd) == rules.with_write(other_fd).with_write(fd),
        rules.with_read(fd).with_write(other_fd) == rules.with_write(other_fd).with_read(fd),
        rules.with_flag(first).with_read(fd) == rules.with_read(fd).with_flag(first),
        rules.with_flag(first).with_write(fd) == rules.with_write(fd).with_flag(first),
{
    lemma_set_flag_commutes(rules.flags, first.spec_bit(), second.spec_bit());
    lemma_with_descriptor_commutes(rules.read_fds, fd, other_fd);
    lemma_with_descriptor_commutes(rules.write_fds, fd, other_fd);
}

} // verus!
