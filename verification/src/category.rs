//! Categories of system calls and the permissions that each can grant.
//!
//! A category's flags are kept as bits of a `u16`. Every flag stands for one
//! permission; the position of its bit is also its place in the order in which
//! the permissions of a rule set are applied.

use vstd::prelude::*;

verus! {

/// The six categories of system calls that a policy can open up.
#[derive(Clone, Copy, Debug, PartialEq, Eq, Structural)]
pub enum CategoryKind {
    BasicCapabilities,
    ForkAndExec,
    Threads,
    Networking,
    SystemIO,
    Time,
}

/// One permission that a rule set can grant.
#[derive(Clone, Copy, Debug, PartialEq, Eq, Structural)]
pub enum Permission {
    /// Threads: create threads and processes.
    CreateThreads,
    /// Threads: let a thread sleep.
    Sleep,
    /// Networking: use TCP sockets that are already connected.
    RunningTcpClients,
    /// Networking: serve on TCP sockets that are already listening.
    RunningTcpServers,
    /// Networking: use UDP sockets that already exist.
    RunningUdpSockets,
    /// Networking: use Unix sockets that are already connected.
    RunningUnixClients,
    /// Networking: serve on Unix sockets that are already listening.
    RunningUnixServers,
    /// Networking: open new TCP connections.
    StartTcpClients,
    /// Networking: start TCP servers.
    StartTcpServers,
    /// Networking: start UDP servers.
    StartUdpServers,
    /// Networking: start Unix-socket servers.
    StartUnixServer,
    /// I/O: close descriptors.
    Close,
    /// I/O: control devices and descriptors.
    Ioctl,
    /// I/O: read file metadata.
    Metadata,
    /// I/O: open files in any mode.
    Open,
    /// I/O: open files for reading only.
    OpenReadonly,
    /// I/O: read from any descriptor.
    Read,
    /// I/O: write to the standard error stream.
    Stderr,
    /// I/O: read from the standard input stream.
    Stdin,
    /// I/O: write to the standard output stream.
    Stdout,
    /// I/O: write to any descriptor.
    Write,
    /// I/O: read from this one descriptor.
    FileRead(i32),
    /// I/O: write to this one descriptor.
    FileWrite(i32),
    /// Time: read the clocks.
    GetTime,
}

impl CategoryKind {
    /// The place of the category in the order of categories.
    pub open spec fn spec_rank(self) -> u8 {
        match self {
            CategoryKind::BasicCapabilities => 0,
            CategoryKind::ForkAndExec => 1,
            CategoryKind::Threads => 2,
            CategoryKind::Networking => 3,
            CategoryKind::SystemIO => 4,
            CategoryKind::Time => 5,
        }
    }

    /// The number of flags that the category defines.
    pub open spec fn spec_flag_count(self) -> nat {
        match self {
            CategoryKind::BasicCapabilities => 0,
            CategoryKind::ForkAndExec => 0,
            CategoryKind::Threads => 2,
            CategoryKind::Networking => 9,
            CategoryKind::SystemIO => 10,
            CategoryKind::Time => 1,
        }
    }

    /// The bits that the category defines, all set.
    pub open spec fn spec_all_flags(self) -> u16 {
        match self {
            CategoryKind::BasicCapabilities => 0,
            CategoryKind::ForkAndExec => 0,
            CategoryKind::Threads => 0x3,
            CategoryKind::Networking => 0x1ff,
            CategoryKind::SystemIO => 0x3ff,
            CategoryKind::Time => 0x1,
        }
    }

    /// The permission that the flag at `position` stands for. The positions run
    /// from 0 to the number of flags; this is also the order in which the
    /// permissions are applied.
    pub open spec fn spec_flag_at(self, position: nat) -> Permission
        recommends
            position < self.spec_flag_count(),
    {
        match self {
            CategoryKind::Threads => if position == 0 {
                Permission::CreateThreads
            } else {
                Permission::Sleep
            },
            CategoryKind::Networking => if position == 0 {
                Permission::RunningTcpClients
            } else if position == 1 {
                Permission::RunningTcpServers
            } else if position == 2 {
                Permission::RunningUdpSockets
            } else if position == 3 {
                Permission::RunningUnixClients
            } else if position == 4 {
                Permission::RunningUnixServers
            } else if position == 5 {
                Permission::StartTcpClients
            } else if position == 6 {
                Permission::StartTcpServers
            } else if position == 7 {
                Permission::StartUdpServers
            } else {
                Permission::StartUnixServer
            },
            CategoryKind::SystemIO => if position == 0 {
                Permission::Close
            } else if position == 1 {
                Permission::Ioctl
            } else if position == 2 {
                Permission::Metadata
            } else if position == 3 {
                Permission::Open
            } else if position == 4 {
                Permission::OpenReadonly
            } else if position == 5 {
                Permission::Read
            } else if position == 6 {
                Permission::Stderr
            } else if position == 7 {
                Permission::Stdin
            } else if position == 8 {
                Permission::Stdout
            } else {
                Permission::Write
            },
            _ => Permission::GetTime,
        }
    }

    /// The place of the category in the order of categories.
    pub fn rank(&self) -> (rank: u8)
        ensures
            rank == self.spec_rank(),
    {
        match self {
            CategoryKind::BasicCapabilities => 0,
            CategoryKind::ForkAndExec => 1,
            CategoryKind::Threads => 2,
            CategoryKind::Networking => 3,
            CategoryKind::SystemIO => 4,
            CategoryKind::Time => 5,
        }
    }

    /// The number of flags that the category defines.
    pub fn flag_count(&self) -> (count: usize)
        ensures
            count == self.spec_flag_count(),
    {
        match self {
            CategoryKind::BasicCapabilities => 0,
            CategoryKind::ForkAndExec => 0,
            CategoryKind::Threads => 2,
            CategoryKind::Networking => 9,
            CategoryKind::SystemIO => 10,
            CategoryKind::Time => 1,
        }
    }

    /// The bits that the category defines, all set.
    pub fn all_flags(&self) -> (flags: u16)
        ensures
            flags == self.spec_all_flags(),
    {
        match self {
            CategoryKind::BasicCapabilities => 0,
            CategoryKind::ForkAndExec => 0,
            CategoryKind::Threads => 0x3,
            CategoryKind::Networking => 0x1ff,
            CategoryKind::SystemIO => 0x3ff,
            CategoryKind::Time => 0x1,
        }
    }

    /// The permission that the flag at `position` stands for.
    pub fn flag_at(&self, position: usize) -> (permission: Permission)
        ensures
            permission == self.spec_flag_at(position as nat),
    {
        match self {
            CategoryKind::Threads => if position == 0 {
                Permission::CreateThreads
            } else {
                Permission::Sleep
            },
            CategoryKind::Networking => if position == 0 {
                Permission::RunningTcpClients
            } else if position == 1 {
                Permission::RunningTcpServers
            } else if position == 2 {
                Permission::RunningUdpSockets
            } else if position == 3 {
                Permission::RunningUnixClients
            } else if position == 4 {
                Permission::RunningUnixServers
            } else if position == 5 {
                Permission::StartTcpClients
            } else if position == 6 {
                Permission::StartTcpServers
            } else if position == 7 {
                Permission::StartUdpServers
            } else {
                Permission::StartUnixServer
            },
            CategoryKind::SystemIO => if position == 0 {
                Permission::Close
            } else if position == 1 {
                Permission::Ioctl
            } else if position == 2 {
                Permission::Metadata
            } else if position == 3 {
                Permission::Open
            } else if position == 4 {
                Permission::OpenReadonly
            } else if position == 5 {
                Permission::Read
            } else if position == 6 {
                Permission::Stderr
            } else if position == 7 {
                Permission::Stdin
            } else if position == 8 {
                Permission::Stdout
            } else {
                Permission::Write
            },
            _ => Permission::GetTime,
        }
    }
}

impl Permission {
    /// The category that grants the permission.
    pub open spec fn spec_category(self) -> CategoryKind {
        match self {
            Permission::CreateThreads | Permission::Sleep => CategoryKind::Threads,
            Permission::RunningTcpClients
            | Permission::RunningTcpServers
            | Permission::RunningUdpSockets
            | Permission::RunningUnixClients
            | Permission::RunningUnixServers
            | Permission::StartTcpClients
            | Permission::StartTcpServers
            | Permission::StartUdpServers
            | Permission::StartUnixServer => CategoryKind::Networking,
            Permission::GetTime => CategoryKind::Time,
            _ => CategoryKind::SystemIO,
        }
    }

    /// The bit of the permission among its category's flags; a permission for
    /// one descriptor is no flag and has no bit.
    pub open spec fn spec_bit(self) -> u16 {
        match self {
            Permission::CreateThreads => 0x1,
            Permission::Sleep => 0x2,
            Permission::RunningTcpClients => 0x1,
            Permission::RunningTcpServers => 0x2,
            Permission::RunningUdpSockets => 0x4,
            Permission::RunningUnixClients => 0x8,
            Permission::RunningUnixServers => 0x10,
            Permission::StartTcpClients => 0x20,
            Permission::StartTcpServers => 0x40,
            Permission::StartUdpServers => 0x80,
            Permission::StartUnixServer => 0x100,
            Permission::Close => 0x1,
            Permission::Ioctl => 0x2,
            Permission::Metadata => 0x4,
            Permission::Open => 0x8,
            Permission::OpenReadonly => 0x10,
            Permission::Read => 0x20,
            Permission::Stderr => 0x40,
            Permission::Stdin => 0x80,
            Permission::Stdout => 0x100,
            Permission::Write => 0x200,
            Permission::FileRead(_) => 0,
            Permission::FileWrite(_) => 0,
            Permission::GetTime => 0x1,
        }
    }

    /// The permission is risky enough that the enforcement engine hands it out
    /// only against an explicit confirmation.
    pub open spec fn spec_needs_confirmation(self) -> bool {
        match self {
            Permission::Sleep
            | Permission::StartTcpServers
            | Permission::StartUdpServers
            | Permission::StartUnixServer
            | Permission::Open => true,
            _ => false,
        }
    }

    /// The category that grants the permission.
    pub fn category(&self) -> (kind: CategoryKind)
        ensures
            kind == self.spec_category(),
    {
        match self {
            Permission::CreateThreads | Permission::Sleep => CategoryKind::Threads,
            Permission::RunningTcpClients
            | Permission::RunningTcpServers
            | Permission::RunningUdpSockets
            | Permission::RunningUnixClients
            | Permission::RunningUnixServers
            | Permission::StartTcpClients
            | Permission::StartTcpServers
            | Permission::StartUdpServers
            | Permission::StartUnixServer => CategoryKind::Networking,
            Permission::GetTime => CategoryKind::Time,
            _ => CategoryKind::SystemIO,
        }
    }

    /// The bit of the permission among its category's flags.
    pub fn bit(&self) -> (bit: u16)
        ensures
            bit == self.spec_bit(),
    {
        match self {
            Permission::CreateThreads => 0x1,
            Permission::Sleep => 0x2,
            Permission::RunningTcpClients => 0x1,
            Permission::RunningTcpServers => 0x2,
            Permission::RunningUdpSockets => 0x4,
            Permission::RunningUnixClients => 0x8,
            Permission::RunningUnixServers => 0x10,
            Permission::StartTcpClients => 0x20,
            Permission::StartTcpServers => 0x40,
            Permission::StartUdpServers => 0x80,
            Permission::StartUnixServer => 0x100,
            Permission::Close => 0x1,
            Permission::Ioctl => 0x2,
            Permission::Metadata => 0x4,
            Permission::Open => 0x8,
            Permission::OpenReadonly => 0x10,
            Permission::Read => 0x20,
            Permission::Stderr => 0x40,
            Permission::Stdin => 0x80,
            Permission::Stdout => 0x100,
            Permission::Write => 0x200,
            Permission::FileRead(_) => 0,
            Permission::FileWrite(_) => 0,
            Permission::GetTime => 0x1,
        }
    }

    /// Whether the enforcement engine asks for a confirmation.
    pub fn needs_confirmation(&self) -> (risky: bool)
        ensures
            risky == self.spec_needs_confirmation(),
    {
        match self {
            Permission::Sleep
            | Permission::StartTcpServers
            | Permission::StartUdpServers
            | Permission::StartUnixServer
            | Permission::Open => true,
            _ => false,
        }
    }
}

/// A permission that is a flag of its category, not a grant for one descriptor.
pub open spec fn is_flag(permission: Permission) -> bool {
    !(permission is FileRead) && !(permission is FileWrite)
}

/// Flags of which none is set are flags of every category.
pub proof fn lemma_no_flags(kind: CategoryKind)
    ensures
        0u16 & !kind.spec_all_flags() == 0,
{
    let all = kind.spec_all_flags();
    assert(0u16 & !all == 0) by (bit_vector);
}

/// Setting the flag of a permission in flags of its category stays within the
/// bits that the category defines, sets that bit, and changes nothing when the
/// bit was set before.
pub proof fn lemma_set_flag(flags: u16, permission: Permission)
    requires
        is_flag(permission),
        flags & !permission.spec_category().spec_all_flags() == 0,
    ensures
        (flags | permission.spec_bit()) & !permission.spec_category().spec_all_flags() == 0,
        (flags | permission.spec_bit()) & permission.spec_bit() != 0,
        (flags | permission.spec_bit()) | permission.spec_bit() == flags | permission.spec_bit(),
        flags & permission.spec_bit() != 0 ==> flags | permission.spec_bit() == flags,
{
    let bit = permission.spec_bit();
    let all = permission.spec_category().spec_all_flags();
    assert(bit != 0 && bit & !all == 0) by {
        assert(0x1u16 & !0x3u16 == 0 && 0x2u16 & !0x3u16 == 0 && 0x1u16 & !0x1u16 == 0)
            by (bit_vector);
        assert(0x1u16 & !0x1ffu16 == 0 && 0x2u16 & !0x1ffu16 == 0 && 0x4u16 & !0x1ffu16 == 0
            && 0x8u16 & !0x1ffu16 == 0 && 0x10u16 & !0x1ffu16 == 0 && 0x20u16 & !0x1ffu16 == 0
            && 0x40u16 & !0x1ffu16 == 0 && 0x80u16 & !0x1ffu16 == 0 && 0x100u16 & !0x1ffu16
            == 0) by (bit_vector);
        assert(0x1u16 & !0x3ffu16 == 0 && 0x2u16 & !0x3ffu16 == 0 && 0x4u16 & !0x3ffu16 == 0
            && 0x8u16 & !0x3ffu16 == 0 && 0x10u16 & !0x3ffu16 == 0 && 0x20u16 & !0x3ffu16 == 0
            && 0x40u16 & !0x3ffu16 == 0 && 0x80u16 & !0x3ffu16 == 0 && 0x100u16 & !0x3ffu16
            == 0 && 0x200u16 & !0x3ffu16 == 0) by (bit_vector);
    }
    assert((flags | bit) & !all == 0 && ((flags | bit) & bit != 0) && (flags | bit) | bit
        == flags | bit) by (bit_vector)
        requires
            flags & !all == 0,
            bit & !all == 0,
            bit != 0,
    ;
    assert(flags & bit != 0 ==> flags | bit == flags) by (bit_vector)
        requires
            bit == 0x1 || bit == 0x2 || bit == 0x4 || bit == 0x8 || bit == 0x10 || bit == 0x20
                || bit == 0x40 || bit == 0x80 || bit == 0x100 || bit == 0x200,
    ;
}

/// Setting the flag of one permission leaves the flag of every other
/// permission of the category as it was.
pub proof fn lemma_other_flags_stay(flags: u16, set: Permission, other: Permission)
    requires
        is_flag(set),
        is_flag(other),
        set.spec_category() == other.spec_category(),
        set != other,
    ensures
        has_flag(flags | set.spec_bit(), other) == has_flag(flags, other),
{
    let bit = set.spec_bit();
    let probe = other.spec_bit();
    assert((flags | bit) & probe == flags & probe) by (bit_vector)
        requires
            bit == 0x1 || bit == 0x2 || bit == 0x4 || bit == 0x8 || bit == 0x10 || bit == 0x20
                || bit == 0x40 || bit == 0x80 || bit == 0x100 || bit == 0x200,
            probe == 0x1 || probe == 0x2 || probe == 0x4 || probe == 0x8 || probe == 0x10
                || probe == 0x20 || probe == 0x40 || probe == 0x80 || probe == 0x100 || probe
                == 0x200,
            bit != probe,
    ;
}

/// The order in which two flags are set does not matter.
pub proof fn lemma_set_flag_commutes(flags: u16, first: u16, second: u16)
    ensures
        (flags | first) | second == (flags | second) | first,
{
    assert((flags | first) | second == (flags | second) | first) by (bit_vector);
}

/// The flag of `permission` is set in `flags`.
pub open spec fn has_flag(flags: u16, permission: Permission) -> bool {
    flags & permission.spec_bit() != 0
}

/// The permissions whose flags are set in `flags`, among the first `upto`
/// flags of the category, in the order of their positions.
pub open spec fn flags_upto(kind: CategoryKind, flags: u16, upto: nat) -> Seq<Permission>
    decreases upto,
{
    if upto == 0 {
        Seq::<Permission>::empty()
    } else {
        let before = flags_upto(kind, flags, (upto - 1) as nat);
        let permission = kind.spec_flag_at((upto - 1) as nat);
        if has_flag(flags, permission) {
            before.push(permission)
        } else {
            before
        }
    }
}

/// The permissions that `flags` grants in the category, in the order in which
/// they are applied.
pub open spec fn flag_permissions(kind: CategoryKind, flags: u16) -> Seq<Permission> {
    flags_upto(kind, flags, kind.spec_flag_count())
}

/// The position of a flag among the flags of its category.
pub open spec fn position_of(permission: Permission) -> nat
    recommends
        is_flag(permission),
{
    match permission {
        Permission::CreateThreads => 0,
        Permission::Sleep => 1,
        Permission::RunningTcpClients => 0,
        Permission::RunningTcpServers => 1,
        Permission::RunningUdpSockets => 2,
        Permission::RunningUnixClients => 3,
        Permission::RunningUnixServers => 4,
        Permission::StartTcpClients => 5,
        Permission::StartTcpServers => 6,
        Permission::StartUdpServers => 7,
        Permission::StartUnixServer => 8,
        Permission::Close => 0,
        Permission::Ioctl => 1,
        Permission::Metadata => 2,
        Permission::Open => 3,
        Permission::OpenReadonly => 4,
        Permission::Read => 5,
        Permission::Stderr => 6,
        Permission::Stdin => 7,
        Permission::Stdout => 8,
        Permission::Write => 9,
        _ => 0,
    }
}

/// Every flag has its position in its category, and every position of a
/// category holds a flag of that category.
pub proof fn lemma_positions(kind: CategoryKind, position: nat, permission: Permission)
    ensures
        is_flag(permission) ==> position_of(permission)
            < permission.spec_category().spec_flag_count()
            && permission.spec_category().spec_flag_at(position_of(permission)) == permission,
        position < kind.spec_flag_count() ==> is_flag(kind.spec_flag_at(position))
            && kind.spec_flag_at(position).spec_category() == kind && position_of(
            kind.spec_flag_at(position),
        ) == position,
{
}

/// The permissions that flags grant are the flags that are set, each once and
/// in the order of their positions.
pub proof fn lemma_flags_upto(kind: CategoryKind, flags: u16, upto: nat)
    requires
        upto <= kind.spec_flag_count(),
    ensures
        forall|j: int|
            0 <= j < flags_upto(kind, flags, upto).len() ==> {
                let granted = #[trigger] flags_upto(kind, flags, upto)[j];
                &&& is_flag(granted)
                &&& granted.spec_category() == kind
                &&& has_flag(flags, granted)
                &&& position_of(granted) < upto
            },
        forall|j: int, k: int|
            0 <= j < k < flags_upto(kind, flags, upto).len() ==> position_of(
                flags_upto(kind, flags, upto)[j],
            ) < position_of(flags_upto(kind, flags, upto)[k]),
        forall|position: nat|
            position < upto && has_flag(flags, kind.spec_flag_at(position)) ==> flags_upto(
                kind,
                flags,
                upto,
            ).contains(#[trigger] kind.spec_flag_at(position)),
    decreases upto,
{
    if upto > 0 {
        let before = flags_upto(kind, flags, (upto - 1) as nat);
        let last = kind.spec_flag_at((upto - 1) as nat);
        lemma_flags_upto(kind, flags, (upto - 1) as nat);
        lemma_positions(kind, (upto - 1) as nat, last);
        let all = flags_upto(kind, flags, upto);
        assert forall|position: nat|
            position < upto && has_flag(flags, kind.spec_flag_at(position)) implies all.contains(
            #[trigger] kind.spec_flag_at(position),
        ) by {
            if position < upto - 1 {
                let at = choose|i: int|
                    0 <= i < before.len() && before[i] == kind.spec_flag_at(position);
                assert(all[at] == kind.spec_flag_at(position));
            } else {
                assert(all[all.len() - 1] == last);
            }
        }
    }
}

/// A flag is among the permissions that flags grant exactly when it is set.
pub proof fn lemma_granted_iff_set(kind: CategoryKind, flags: u16, permission: Permission)
    ensures
        flag_permissions(kind, flags).contains(permission) <==> is_flag(permission)
            && permission.spec_category() == kind && has_flag(flags, permission),
{
    lemma_flags_upto(kind, flags, kind.spec_flag_count());
    lemma_positions(kind, 0, permission);
    let granted = flag_permissions(kind, flags);
    if granted.contains(permission) {
        let at = choose|i: int| 0 <= i < granted.len() && granted[i] == permission;
        assert(granted[at] == permission);
    }
    if is_flag(permission) && permission.spec_category() == kind && has_flag(flags, permission) {
        assert(kind.spec_flag_at(position_of(permission)) == permission);
    }
}

/// The permissions that `flags` grants in the category, in the order in which
/// they are applied.
pub fn granted_flags(kind: CategoryKind, flags: u16) -> (granted: Vec<Permission>)
    ensures
        granted@ == flag_permissions(kind, flags),
{
    let count = kind.flag_count();
    let mut granted: Vec<Permission> = Vec::new();
    let mut position: usize = 0;
    while position < count
        invariant
            count == kind.spec_flag_count(),
            position <= count,
            granted@ == flags_upto(kind, flags, position as nat),
        decreases count - position,
    {
        let permission = kind.flag_at(position);
        if flags & permission.bit() != 0 {
            granted.push(permission);
        }
        position = position + 1;
    }
    granted
}

} // verus!
