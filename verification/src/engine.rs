//! The enforcement engine: the `extrasafe` crate, as far as policies are built
//! and merged with it.
//!
//! The engine's values are opaque here. Of a fresh policy or context it is
//! known that it holds no rule. What the engine's calls make of a policy or a
//! context takes its tables of system calls to say, so each result has a name:
//! the policy that `allow_read` gives for a policy is `io_read` of that
//! policy, and so on. The contracts of this module say what has been made of
//! the values that the engine handed out at the start; nothing here says which
//! system calls a named policy allows.

use crate::category::{is_flag, CategoryKind, Permission};
use vstd::prelude::*;

verus! {

/// The engine's accumulating context, `extrasafe::SafetyContext`; opaque.
#[verifier::external_type_specification]
#[verifier::external_body]
pub struct ExEngineContext(extrasafe::SafetyContext);

/// The engine's error, `extrasafe::ExtraSafeError`; opaque.
#[verifier::external_type_specification]
#[verifier::external_body]
pub struct ExEngineError(extrasafe::ExtraSafeError);

/// The engine's policy `extrasafe::builtins::danger_zone::Threads`; opaque.
#[verifier::external_type_specification]
#[verifier::external_body]
pub struct ExThreadsPolicy(extrasafe::builtins::danger_zone::Threads);

/// The engine's policy `extrasafe::builtins::network::Networking`; opaque.
#[verifier::external_type_specification]
#[verifier::external_body]
pub struct ExNetworkPolicy(extrasafe::builtins::network::Networking);

/// The engine's policy `extrasafe::builtins::systemio::SystemIO`; opaque.
#[verifier::external_type_specification]
#[verifier::external_body]
pub struct ExIoPolicy(extrasafe::builtins::systemio::SystemIO);

/// The engine's policy `extrasafe::builtins::time::Time`; opaque.
#[verifier::external_type_specification]
#[verifier::external_body]
pub struct ExTimePolicy(extrasafe::builtins::time::Time);

/// The engine's `extrasafe::builtins::YesReally`, which holds a policy back
/// until the caller confirms a risky permission; opaque.
#[verifier::external_type_specification]
#[verifier::external_body]
#[verifier::reject_recursive_types(T)]
pub struct ExConfirmation<T>(extrasafe::builtins::YesReally<T>);

/// The system calls, by number, that a context of the engine holds a rule
/// for.
pub uninterp spec fn context_syscalls(context: extrasafe::SafetyContext) -> Set<int>;

/// `extrasafe::SafetyContext::new`: a context that holds no rule.
pub assume_specification[ extrasafe::SafetyContext::new ]() -> (context:
    extrasafe::SafetyContext)
    ensures
        context_syscalls(context) == Set::<int>::empty(),
;

/// The system calls, by number, that a `Threads` policy of the engine has a
/// rule for, with or without condition.
pub uninterp spec fn threads_syscalls(policy: extrasafe::builtins::danger_zone::Threads) -> Set<int>;

/// `Threads::nothing` of the engine: a policy that has no rule.
pub assume_specification[ extrasafe::builtins::danger_zone::Threads::nothing ]() -> (policy: extrasafe::builtins::danger_zone::Threads)
    ensures
        threads_syscalls(policy) == Set::<int>::empty(),
;

/// What `Threads::allow_create` of the engine gives for `policy`.
pub uninterp spec fn threads_create(policy: extrasafe::builtins::danger_zone::Threads) -> extrasafe::builtins::danger_zone::Threads;

/// `Threads::allow_create` of the engine. Claimed: the policy it gives is fixed by the
/// policy it is given.
pub assume_specification[ extrasafe::builtins::danger_zone::Threads::allow_create ](policy: extrasafe::builtins::danger_zone::Threads) -> (granted: extrasafe::builtins::danger_zone::Threads)
    ensures
        granted == threads_create(policy),
;

/// What `Threads::allow_sleep` of the engine gives for `policy`: a policy held back
/// for confirmation.
pub uninterp spec fn threads_sleep(policy: extrasafe::builtins::danger_zone::Threads) -> extrasafe::builtins::YesReally<extrasafe::builtins::danger_zone::Threads>;

/// `Threads::allow_sleep` of the engine. Claimed: what it gives is fixed by the policy
/// it is given.
pub assume_specification[ extrasafe::builtins::danger_zone::Threads::allow_sleep ](policy: extrasafe::builtins::danger_zone::Threads) -> (granted: extrasafe::builtins::YesReally<extrasafe::builtins::danger_zone::Threads>)
    ensures
        granted == threads_sleep(policy),
;

/// The `Threads` policy that `YesReally::yes_really` of the engine gives for
/// `held`: the policy that was held back.
pub uninterp spec fn threads_confirmed(held: extrasafe::builtins::YesReally<extrasafe::builtins::danger_zone::Threads>) -> extrasafe::builtins::danger_zone::Threads;

/// Calls `extrasafe::builtins::YesReally::yes_really` on a `Threads` policy
/// held back. Claimed: the policy it gives is fixed by what it is given.
#[verifier::external_body]
fn confirm_threads(held: extrasafe::builtins::YesReally<extrasafe::builtins::danger_zone::Threads>) -> (policy: extrasafe::builtins::danger_zone::Threads)
    ensures
        policy == threads_confirmed(held),
{
    held.yes_really()
}

/// The system calls, by number, that a `Networking` policy of the engine has a
/// rule for, with or without condition.
pub uninterp spec fn network_syscalls(policy: extrasafe::builtins::network::Networking) -> Set<int>;

/// `Networking::nothing` of the engine: a policy that has no rule.
pub assume_specification[ extrasafe::builtins::network::Networking::nothing ]() -> (policy: extrasafe::builtins::network::Networking)
    ensures
        network_syscalls(policy) == Set::<int>::empty(),
;

/// What `Networking::allow_running_tcp_clients` of the engine gives for `policy`.
pub uninterp spec fn network_running_tcp_clients(policy: extrasafe::builtins::network::Networking) -> extrasafe::builtins::network::Networking;

/// `Networking::allow_running_tcp_clients` of the engine. Claimed: the policy it gives is fixed by the
/// policy it is given.
pub assume_specification[ extrasafe::builtins::network::Networking::allow_running_tcp_clients ](policy: extrasafe::builtins::network::Networking) -> (granted: extrasafe::builtins::network::Networking)
    ensures
        granted == network_running_tcp_clients(policy),
;

/// What `Networking::allow_running_tcp_servers` of the engine gives for `policy`.
pub uninterp spec fn network_running_tcp_servers(policy: extrasafe::builtins::network::Networking) -> extrasafe::builtins::network::Networking;

/// `Networking::allow_running_tcp_servers` of the engine. Claimed: the policy it gives is fixed by the
/// policy it is given.
pub assume_specification[ extrasafe::builtins::network::Networking::allow_running_tcp_servers ](policy: extrasafe::builtins::network::Networking) -> (granted: extrasafe::builtins::network::Networking)
    ensures
        granted == network_running_tcp_servers(policy),
;

/// What `Networking::allow_running_udp_sockets` of the engine gives for `policy`.
pub uninterp spec fn network_running_udp_sockets(policy: extrasafe::builtins::network::Networking) -> extrasafe::builtins::network::Networking;

/// `Networking::allow_running_udp_sockets` of the engine. Claimed: the policy it gives is fixed by the
/// policy it is given.
pub assume_specification[ extrasafe::builtins::network::Networking::allow_running_udp_sockets ](policy: extrasafe::builtins::network::Networking) -> (granted: extrasafe::builtins::network::Networking)
    ensures
        granted == network_running_udp_sockets(policy),
;

/// What `Networking::allow_running_unix_clients` of the engine gives for `policy`.
pub uninterp spec fn network_running_unix_clients(policy: extrasafe::builtins::network::Networking) -> extrasafe::builtins::network::Networking;

/// `Networking::allow_running_unix_clients` of the engine. Claimed: the policy it gives is fixed by the
/// policy it is given.
pub assume_specification[ extrasafe::builtins::network::Networking::allow_running_unix_clients ](policy: extrasafe::builtins::network::Networking) -> (granted: extrasafe::builtins::network::Networking)
    ensures
        granted == network_running_unix_clients(policy),
;

/// What `Networking::allow_running_unix_servers` of the engine gives for `policy`.
pub uninterp spec fn network_running_unix_servers(policy: extrasafe::builtins::network::Networking) -> extrasafe::builtins::network::Networking;

/// `Networking::allow_running_unix_servers` of the engine. Claimed: the policy it gives is fixed by the
/// policy it is given.
pub assume_specification[ extrasafe::builtins::network::Networking::allow_running_unix_servers ](policy: extrasafe::builtins::network::Networking) -> (granted: extrasafe::builtins::network::Networking)
    ensures
        granted == network_running_unix_servers(policy),
;

/// What `Networking::allow_start_tcp_clients` of the engine gives for `policy`.
pub uninterp spec fn network_start_tcp_clients(policy: extrasafe::builtins::network::Networking) -> extrasafe::builtins::network::Networking;

/// `Networking::allow_start_tcp_clients` of the engine. Claimed: the policy it gives is fixed by the
/// policy it is given.
pub assume_specification[ extrasafe::builtins::network::Networking::allow_start_tcp_clients ](policy: extrasafe::builtins::network::Networking) -> (granted: extrasafe::builtins::network::Networking)
    ensures
        granted == network_start_tcp_clients(policy),
;

/// What `Networking::allow_start_tcp_servers` of the engine gives for `policy`: a policy held back
/// for confirmation.
pub uninterp spec fn network_start_tcp_servers(policy: extrasafe::builtins::network::Networking) -> extrasafe::builtins::YesReally<extrasafe::builtins::network::Networking>;

/// `Networking::allow_start_tcp_servers` of the engine. Claimed: what it gives is fixed by the policy
/// it is given.
pub assume_specification[ extrasafe::builtins::network::Networking::allow_start_tcp_servers ](policy: extrasafe::builtins::network::Networking) -> (granted: extrasafe::builtins::YesReally<extrasafe::builtins::network::Networking>)
    ensures
        granted == network_start_tcp_servers(policy),
;

/// What `Networking::allow_start_udp_servers` of the engine gives for `policy`: a policy held back
/// for confirmation.
pub uninterp spec fn network_start_udp_servers(policy: extrasafe::builtins::network::Networking) -> extrasafe::builtins::YesReally<extrasafe::builtins::network::Networking>;

/// `Networking::allow_start_udp_servers` of the engine. Claimed: what it gives is fixed by the policy
/// it is given.
pub assume_specification[ extrasafe::builtins::network::Networking::allow_start_udp_servers ](policy: extrasafe::builtins::network::Networking) -> (granted: extrasafe::builtins::YesReally<extrasafe::builtins::network::Networking>)
    ensures
        granted == network_start_udp_servers(policy),
;

/// What `Networking::allow_start_unix_servers` of the engine gives for `policy`: a policy held back
/// for confirmation.
pub uninterp spec fn network_start_unix_servers(policy: extrasafe::builtins::network::Networking) -> extrasafe::builtins::YesReally<extrasafe::builtins::network::Networking>;

/// `Networking::allow_start_unix_servers` of the engine. Claimed: what it gives is fixed by the policy
/// it is given.
pub assume_specification[ extrasafe::builtins::network::Networking::allow_start_unix_servers ](policy: extrasafe::builtins::network::Networking) -> (granted: extrasafe::builtins::YesReally<extrasafe::builtins::network::Networking>)
    ensures
        granted == network_start_unix_servers(policy),
;

/// The `Networking` policy that `YesReally::yes_really` of the engine gives for
/// `held`: the policy that was held back.
pub uninterp spec fn network_confirmed(held: extrasafe::builtins::YesReally<extrasafe::builtins::network::Networking>) -> extrasafe::builtins::network::Networking;

/// Calls `extrasafe::builtins::YesReally::yes_really` on a `Networking` policy
/// held back. Claimed: the policy it gives is fixed by what it is given.
#[verifier::external_body]
fn confirm_network(held: extrasafe::builtins::YesReally<extrasafe::builtins::network::Networking>) -> (policy: extrasafe::builtins::network::Networking)
    ensures
        policy == network_confirmed(held),
{
    held.yes_really()
}

/// The system calls, by number, that a `SystemIO` policy of the engine has a
/// rule for, with or without condition.
pub uninterp spec fn io_syscalls(policy: extrasafe::builtins::systemio::SystemIO) -> Set<int>;

/// `SystemIO::nothing` of the engine: a policy that has no rule.
pub assume_specification[ extrasafe::builtins::systemio::SystemIO::nothing ]() -> (policy: extrasafe::builtins::systemio::SystemIO)
    ensures
        io_syscalls(policy) == Set::<int>::empty(),
;

/// What `SystemIO::allow_close` of the engine gives for `policy`.
pub uninterp spec fn io_close(policy: extrasafe::builtins::systemio::SystemIO) -> extrasafe::builtins::systemio::SystemIO;

/// `SystemIO::allow_close` of the engine. Claimed: the policy it gives is fixed by the
/// policy it is given.
pub assume_specification[ extrasafe::builtins::systemio::SystemIO::allow_close ](policy: extrasafe::builtins::systemio::SystemIO) -> (granted: extrasafe::builtins::systemio::SystemIO)
    ensures
        granted == io_close(policy),
;

/// What `SystemIO::allow_ioctl` of the engine gives for `policy`.
pub uninterp spec fn io_ioctl(policy: extrasafe::builtins::systemio::SystemIO) -> extrasafe::builtins::systemio::SystemIO;

/// `SystemIO::allow_ioctl` of the engine. Claimed: the policy it gives is fixed by the
/// policy it is given.
pub assume_specification[ extrasafe::builtins::systemio::SystemIO::allow_ioctl ](policy: extrasafe::builtins::systemio::SystemIO) -> (granted: extrasafe::builtins::systemio::SystemIO)
    ensures
        granted == io_ioctl(policy),
;

/// What `SystemIO::allow_metadata` of the engine gives for `policy`.
pub uninterp spec fn io_metadata(policy: extrasafe::builtins::systemio::SystemIO) -> extrasafe::builtins::systemio::SystemIO;

/// `SystemIO::allow_metadata` of the engine. Claimed: the policy it gives is fixed by the
/// policy it is given.
pub assume_specification[ extrasafe::builtins::systemio::SystemIO::allow_metadata ](policy: extrasafe::builtins::systemio::SystemIO) -> (granted: extrasafe::builtins::systemio::SystemIO)
    ensures
        granted == io_metadata(policy),
;

/// What `SystemIO::allow_open` of the engine gives for `policy`: a policy held back
/// for confirmation.
pub uninterp spec fn io_open(policy: extrasafe::builtins::systemio::SystemIO) -> extrasafe::builtins::YesReally<extrasafe::builtins::systemio::SystemIO>;

/// `SystemIO::allow_open` of the engine. Claimed: what it gives is fixed by the policy
/// it is given.
pub assume_specification[ extrasafe::builtins::systemio::SystemIO::allow_open ](policy: extrasafe::builtins::systemio::SystemIO) -> (granted: extrasafe::builtins::YesReally<extrasafe::builtins::systemio::SystemIO>)
    ensures
        granted == io_open(policy),
;

/// What `SystemIO::allow_open_readonly` of the engine gives for `policy`.
pub uninterp spec fn io_open_readonly(policy: extrasafe::builtins::systemio::SystemIO) -> extrasafe::builtins::systemio::SystemIO;

/// `SystemIO::allow_open_readonly` of the engine. Claimed: the policy it gives is fixed by the
/// policy it is given.
pub assume_specification[ extrasafe::builtins::systemio::SystemIO::allow_open_readonly ](policy: extrasafe::builtins::systemio::SystemIO) -> (granted: extrasafe::builtins::systemio::SystemIO)
    ensures
        granted == io_open_readonly(policy),
;

/// What `SystemIO::allow_read` of the engine gives for `policy`.
pub uninterp spec fn io_read(policy: extrasafe::builtins::systemio::SystemIO) -> extrasafe::builtins::systemio::SystemIO;

/// `SystemIO::allow_read` of the engine. Claimed: the policy it gives is fixed by the
/// policy it is given.
pub assume_specification[ extrasafe::builtins::systemio::SystemIO::allow_read ](policy: extrasafe::builtins::systemio::SystemIO) -> (granted: extrasafe::builtins::systemio::SystemIO)
    ensures
        granted == io_read(policy),
;

/// What `SystemIO::allow_stderr` of the engine gives for `policy`.
pub uninterp spec fn io_stderr(policy: extrasafe::builtins::systemio::SystemIO) -> extrasafe::builtins::systemio::SystemIO;

/// `SystemIO::allow_stderr` of the engine. Claimed: the policy it gives is fixed by the
/// policy it is given.
pub assume_specification[ extrasafe::builtins::systemio::SystemIO::allow_stderr ](policy: extrasafe::builtins::systemio::SystemIO) -> (granted: extrasafe::builtins::systemio::SystemIO)
    ensures
        granted == io_stderr(policy),
;

/// What `SystemIO::allow_stdin` of the engine gives for `policy`.
pub uninterp spec fn io_stdin(policy: extrasafe::builtins::systemio::SystemIO) -> extrasafe::builtins::systemio::SystemIO;

/// `SystemIO::allow_stdin` of the engine. Claimed: the policy it gives is fixed by the
/// policy it is given.
pub assume_specification[ extrasafe::builtins::systemio::SystemIO::allow_stdin ](policy: extrasafe::builtins::systemio::SystemIO) -> (granted: extrasafe::builtins::systemio::SystemIO)
    ensures
        granted == io_stdin(policy),
;

/// What `SystemIO::allow_stdout` of the engine gives for `policy`.
pub uninterp spec fn io_stdout(policy: extrasafe::builtins::systemio::SystemIO) -> extrasafe::builtins::systemio::SystemIO;

/// `SystemIO::allow_stdout` of the engine. Claimed: the policy it gives is fixed by the
/// policy it is given.
pub assume_specification[ extrasafe::builtins::systemio::SystemIO::allow_stdout ](policy: extrasafe::builtins::systemio::SystemIO) -> (granted: extrasafe::builtins::systemio::SystemIO)
    ensures
        granted == io_stdout(policy),
;

/// What `SystemIO::allow_write` of the engine gives for `policy`.
pub uninterp spec fn io_write(policy: extrasafe::builtins::systemio::SystemIO) -> extrasafe::builtins::systemio::SystemIO;

/// `SystemIO::allow_write` of the engine. Claimed: the policy it gives is fixed by the
/// policy it is given.
pub assume_specification[ extrasafe::builtins::systemio::SystemIO::allow_write ](policy: extrasafe::builtins::systemio::SystemIO) -> (granted: extrasafe::builtins::systemio::SystemIO)
    ensures
        granted == io_write(policy),
;

/// The `SystemIO` policy that `YesReally::yes_really` of the engine gives for
/// `held`: the policy that was held back.
pub uninterp spec fn io_confirmed(held: extrasafe::builtins::YesReally<extrasafe::builtins::systemio::SystemIO>) -> extrasafe::builtins::systemio::SystemIO;

/// Calls `extrasafe::builtins::YesReally::yes_really` on a `SystemIO` policy
/// held back. Claimed: the policy it gives is fixed by what it is given.
#[verifier::external_body]
fn confirm_io(held: extrasafe::builtins::YesReally<extrasafe::builtins::systemio::SystemIO>) -> (policy: extrasafe::builtins::systemio::SystemIO)
    ensures
        policy == io_confirmed(held),
{
    held.yes_really()
}

/// The system calls, by number, that a `Time` policy of the engine has a
/// rule for, with or without condition.
pub uninterp spec fn time_syscalls(policy: extrasafe::builtins::time::Time) -> Set<int>;

/// `Time::nothing` of the engine: a policy that has no rule.
pub assume_specification[ extrasafe::builtins::time::Time::nothing ]() -> (policy: extrasafe::builtins::time::Time)
    ensures
        time_syscalls(policy) == Set::<int>::empty(),
;

/// What `Time::allow_gettime` of the engine gives for `policy`.
pub uninterp spec fn time_gettime(policy: extrasafe::builtins::time::Time) -> extrasafe::builtins::time::Time;

/// `Time::allow_gettime` of the engine. Claimed: the policy it gives is fixed by the
/// policy it is given.
pub assume_specification[ extrasafe::builtins::time::Time::allow_gettime ](policy: extrasafe::builtins::time::Time) -> (granted: extrasafe::builtins::time::Time)
    ensures
        granted == time_gettime(policy),
;

/// A policy of the engine, of one of the six categories. The policies of the
/// basic capabilities and of fork and exec have no options, so there is
/// nothing to hold for them.
pub enum EnginePolicy {
    Basic,
    Fork,
    Thread(extrasafe::builtins::danger_zone::Threads),
    Network(extrasafe::builtins::network::Networking),
    Io(extrasafe::builtins::systemio::SystemIO),
    Clock(extrasafe::builtins::time::Time),
}

/// What `extrasafe::SafetyContext::enable` makes of `context` when it is given
/// `policy`: the context with the rules of the policy merged in, or `None`
/// where the engine rejects the policy.
pub uninterp spec fn enabled(context: extrasafe::SafetyContext, policy: EnginePolicy) -> Option<
    extrasafe::SafetyContext,
>;

/// Calls `extrasafe::SafetyContext::enable` with the engine's policy of the basic capabilities. Claimed: whether the
/// engine accepts the policy, and the context that it then gives, are fixed by
/// the context and the policy. Nothing is claimed of the error: which conflict
/// the engine reports can vary.
#[verifier::external_body]
fn enable_basic(context: extrasafe::SafetyContext) -> (merged: Result<
    extrasafe::SafetyContext,
    extrasafe::ExtraSafeError,
>)
    ensures
        merged is Ok <==> enabled(context, EnginePolicy::Basic) is Some,
        merged is Ok ==> enabled(context, EnginePolicy::Basic) == Some(merged->Ok_0),
{
    context.enable(extrasafe::builtins::BasicCapabilities)
}

/// Calls `extrasafe::SafetyContext::enable` with the engine's policy of fork and exec. Claimed: whether the
/// engine accepts the policy, and the context that it then gives, are fixed by
/// the context and the policy. Nothing is claimed of the error: which conflict
/// the engine reports can vary.
#[verifier::external_body]
fn enable_fork(context: extrasafe::SafetyContext) -> (merged: Result<
    extrasafe::SafetyContext,
    extrasafe::ExtraSafeError,
>)
    ensures
        merged is Ok <==> enabled(context, EnginePolicy::Fork) is Some,
        merged is Ok ==> enabled(context, EnginePolicy::Fork) == Some(merged->Ok_0),
{
    context.enable(extrasafe::builtins::danger_zone::ForkAndExec)
}

/// Calls `extrasafe::SafetyContext::enable` with a `Threads` policy. Claimed: whether the
/// engine accepts the policy, and the context that it then gives, are fixed by
/// the context and the policy. Nothing is claimed of the error: which conflict
/// the engine reports can vary.
#[verifier::external_body]
fn enable_threads(context: extrasafe::SafetyContext, policy: extrasafe::builtins::danger_zone::Threads) -> (merged: Result<
    extrasafe::SafetyContext,
    extrasafe::ExtraSafeError,
>)
    ensures
        merged is Ok <==> enabled(context, EnginePolicy::Thread(policy)) is Some,
        merged is Ok ==> enabled(context, EnginePolicy::Thread(policy)) == Some(merged->Ok_0),
{
    context.enable(policy)
}

/// Calls `extrasafe::SafetyContext::enable` with a `Networking` policy. Claimed: whether the
/// engine accepts the policy, and the context that it then gives, are fixed by
/// the context and the policy. Nothing is claimed of the error: which conflict
/// the engine reports can vary.
#[verifier::external_body]
fn enable_network(context: extrasafe::SafetyContext, policy: extrasafe::builtins::network::Networking) -> (merged: Result<
    extrasafe::SafetyContext,
    extrasafe::ExtraSafeError,
>)
    ensures
        merged is Ok <==> enabled(context, EnginePolicy::Network(policy)) is Some,
        merged is Ok ==> enabled(context, EnginePolicy::Network(policy)) == Some(merged->Ok_0),
{
    context.enable(policy)
}

/// Calls `extrasafe::SafetyContext::enable` with a `SystemIO` policy. Claimed: whether the
/// engine accepts the policy, and the context that it then gives, are fixed by
/// the context and the policy. Nothing is claimed of the error: which conflict
/// the engine reports can vary.
#[verifier::external_body]
fn enable_io(context: extrasafe::SafetyContext, policy: extrasafe::builtins::systemio::SystemIO) -> (merged: Result<
    extrasafe::SafetyContext,
    extrasafe::ExtraSafeError,
>)
    ensures
        merged is Ok <==> enabled(context, EnginePolicy::Io(policy)) is Some,
        merged is Ok ==> enabled(context, EnginePolicy::Io(policy)) == Some(merged->Ok_0),
{
    context.enable(policy)
}

/// Calls `extrasafe::SafetyContext::enable` with a `Time` policy. Claimed: whether the
/// engine accepts the policy, and the context that it then gives, are fixed by
/// the context and the policy. Nothing is claimed of the error: which conflict
/// the engine reports can vary.
#[verifier::external_body]
fn enable_time(context: extrasafe::SafetyContext, policy: extrasafe::builtins::time::Time) -> (merged: Result<
    extrasafe::SafetyContext,
    extrasafe::ExtraSafeError,
>)
    ensures
        merged is Ok <==> enabled(context, EnginePolicy::Clock(policy)) is Some,
        merged is Ok ==> enabled(context, EnginePolicy::Clock(policy)) == Some(merged->Ok_0),
{
    context.enable(policy)
}

impl EnginePolicy {
    /// The category of the policy.
    pub open spec fn kind(self) -> CategoryKind {
        match self {
            EnginePolicy::Basic => CategoryKind::BasicCapabilities,
            EnginePolicy::Fork => CategoryKind::ForkAndExec,
            EnginePolicy::Thread(_) => CategoryKind::Threads,
            EnginePolicy::Network(_) => CategoryKind::Networking,
            EnginePolicy::Io(_) => CategoryKind::SystemIO,
            EnginePolicy::Clock(_) => CategoryKind::Time,
        }
    }
}

/// The policy is the most restrictive one of its category: it has no rule,
/// or, where the category has no options, it is the category's only policy.
pub open spec fn holds_nothing(policy: EnginePolicy) -> bool {
    match policy {
        EnginePolicy::Basic => true,
        EnginePolicy::Fork => true,
        EnginePolicy::Thread(inner) => threads_syscalls(inner) == Set::<int>::empty(),
        EnginePolicy::Network(inner) => network_syscalls(inner) == Set::<int>::empty(),
        EnginePolicy::Io(inner) => io_syscalls(inner) == Set::<int>::empty(),
        EnginePolicy::Clock(inner) => time_syscalls(inner) == Set::<int>::empty(),
    }
}

/// The policy after `permission` has been applied to it: what the engine's
/// enabling call for the permission gives, and for a risky permission what
/// the confirmation of that call gives. A permission of another category, or
/// for one descriptor, leaves the policy as it is.
pub open spec fn after_grant(policy: EnginePolicy, permission: Permission) -> EnginePolicy {
    match policy {
        EnginePolicy::Thread(inner) => EnginePolicy::Thread(
            match permission {
                Permission::CreateThreads => threads_create(inner),
                Permission::Sleep => threads_confirmed(threads_sleep(inner)),
                _ => inner,
            },
        ),
        EnginePolicy::Network(inner) => EnginePolicy::Network(
            match permission {
                Permission::RunningTcpClients => network_running_tcp_clients(inner),
                Permission::RunningTcpServers => network_running_tcp_servers(inner),
                Permission::RunningUdpSockets => network_running_udp_sockets(inner),
                Permission::RunningUnixClients => network_running_unix_clients(inner),
                Permission::RunningUnixServers => network_running_unix_servers(inner),
                Permission::StartTcpClients => network_start_tcp_clients(inner),
                Permission::StartTcpServers => network_confirmed(network_start_tcp_servers(inner)),
                Permission::StartUdpServers => network_confirmed(network_start_udp_servers(inner)),
                Permission::StartUnixServer => network_confirmed(network_start_unix_servers(inner)),
                _ => inner,
            },
        ),
        EnginePolicy::Io(inner) => EnginePolicy::Io(
            match permission {
                Permission::Close => io_close(inner),
                Permission::Ioctl => io_ioctl(inner),
                Permission::Metadata => io_metadata(inner),
                Permission::Open => io_confirmed(io_open(inner)),
                Permission::OpenReadonly => io_open_readonly(inner),
                Permission::Read => io_read(inner),
                Permission::Stderr => io_stderr(inner),
                Permission::Stdin => io_stdin(inner),
                Permission::Stdout => io_stdout(inner),
                Permission::Write => io_write(inner),
                _ => inner,
            },
        ),
        EnginePolicy::Clock(inner) => EnginePolicy::Clock(
            match permission {
                Permission::GetTime => time_gettime(inner),
                _ => inner,
            },
        ),
        other => other,
    }
}

/// The policy after the flags of `plan` have been applied to it, one after
/// the other.
pub open spec fn after_grants(policy: EnginePolicy, plan: Seq<Permission>) -> EnginePolicy
    decreases plan.len(),
{
    if plan.len() == 0 {
        policy
    } else {
        after_grant(after_grants(policy, plan.drop_last()), plan.last())
    }
}

/// Applying permissions keeps a policy in its category.
pub proof fn lemma_grant_keeps_kind(policy: EnginePolicy, permission: Permission)
    ensures
        after_grant(policy, permission).kind() == policy.kind(),
        !is_flag(permission) || permission.spec_category() != policy.kind() ==> after_grant(
            policy,
            permission,
        ) == policy,
{
}

/// The policy is what a confirmation of the engine has given.
pub open spec fn is_confirmed(policy: EnginePolicy) -> bool {
    match policy {
        EnginePolicy::Thread(inner) => exists|
            held: extrasafe::builtins::YesReally<extrasafe::builtins::danger_zone::Threads>,
        | inner == #[trigger] threads_confirmed(held),
        EnginePolicy::Network(inner) => exists|
            held: extrasafe::builtins::YesReally<extrasafe::builtins::network::Networking>,
        | inner == #[trigger] network_confirmed(held),
        EnginePolicy::Io(inner) => exists|
            held: extrasafe::builtins::YesReally<extrasafe::builtins::systemio::SystemIO>,
        | inner == #[trigger] io_confirmed(held),
        _ => false,
    }
}

/// A risky permission reaches a policy only through the engine's
/// confirmation: applying one gives what a confirmation has given.
pub proof fn lemma_risky_permissions_are_confirmed(policy: EnginePolicy, permission: Permission)
    requires
        is_flag(permission),
        permission.spec_category() == policy.kind(),
        permission.spec_needs_confirmation(),
    ensures
        is_confirmed(after_grant(policy, permission)),
{
    match policy {
        EnginePolicy::Thread(inner) => {
            assert(threads_confirmed(threads_sleep(inner)) == threads_confirmed(
                threads_sleep(inner),
            ));
        },
        EnginePolicy::Network(inner) => {
            let held = match permission {
                Permission::StartTcpServers => network_start_tcp_servers(inner),
                Permission::StartUdpServers => network_start_udp_servers(inner),
                _ => network_start_unix_servers(inner),
            };
            assert(after_grant(policy, permission) == EnginePolicy::Network(
                network_confirmed(held),
            ));
        },
        EnginePolicy::Io(inner) => {
            assert(io_confirmed(io_open(inner)) == io_confirmed(io_open(inner)));
        },
        _ => {},
    }
}

/// A policy under construction.
pub struct Policy {
    engine: EnginePolicy,
}

impl Policy {
    /// The engine's policy as it stands.
    pub closed spec fn engine(self) -> EnginePolicy {
        self.engine
    }

    /// The category of the policy.
    pub open spec fn kind(self) -> CategoryKind {
        self.engine().kind()
    }

    /// The most restrictive policy of the category: the engine's default, with
    /// nothing applied to it.
    pub fn start(kind: CategoryKind) -> (policy: Policy)
        ensures
            policy.kind() == kind,
            holds_nothing(policy.engine()),
    {
        let engine = match kind {
            CategoryKind::BasicCapabilities => EnginePolicy::Basic,
            CategoryKind::ForkAndExec => EnginePolicy::Fork,
            CategoryKind::Threads => EnginePolicy::Thread(
                extrasafe::builtins::danger_zone::Threads::nothing(),
            ),
            CategoryKind::Networking => EnginePolicy::Network(
                extrasafe::builtins::network::Networking::nothing(),
            ),
            CategoryKind::SystemIO => EnginePolicy::Io(
                extrasafe::builtins::systemio::SystemIO::nothing(),
            ),
            CategoryKind::Time => EnginePolicy::Clock(extrasafe::builtins::time::Time::nothing()),
        };
        Policy { engine }
    }

    /// Applies the flag `permission` to the policy: the engine's enabling call
    /// for it, and for a risky permission the confirmed form of that call. The
    /// caller's own `allow_` call was the confirmation.
    ///
    /// A permission of another category, or for one descriptor, is not applied
    /// and leaves the policy as it was.
    pub fn grant(self, permission: Permission) -> (granted: Policy)
        ensures
            granted.engine() == after_grant(self.engine(), permission),
    {
        let engine = match self.engine {
            EnginePolicy::Thread(inner) => EnginePolicy::Thread(
                match permission {
                    Permission::CreateThreads => inner.allow_create(),
                    Permission::Sleep => confirm_threads(inner.allow_sleep()),
                    _ => inner,
                },
            ),
            EnginePolicy::Network(inner) => EnginePolicy::Network(
                match permission {
                    Permission::RunningTcpClients => inner.allow_running_tcp_clients(),
                    Permission::RunningTcpServers => inner.allow_running_tcp_servers(),
                    Permission::RunningUdpSockets => inner.allow_running_udp_sockets(),
                    Permission::RunningUnixClients => inner.allow_running_unix_clients(),
                    Permission::RunningUnixServers => inner.allow_running_unix_servers(),
                    Permission::StartTcpClients => inner.allow_start_tcp_clients(),
                    Permission::StartTcpServers => confirm_network(
                        inner.allow_start_tcp_servers(),
                    ),
                    Permission::StartUdpServers => confirm_network(
                        inner.allow_start_udp_servers(),
                    ),
                    Permission::StartUnixServer => confirm_network(
                        inner.allow_start_unix_servers(),
                    ),
                    _ => inner,
                },
            ),
            EnginePolicy::Io(inner) => EnginePolicy::Io(
                match permission {
                    Permission::Close => inner.allow_close(),
                    Permission::Ioctl => inner.allow_ioctl(),
                    Permission::Metadata => inner.allow_metadata(),
                    Permission::Open => confirm_io(inner.allow_open()),
                    Permission::OpenReadonly => inner.allow_open_readonly(),
                    Permission::Read => inner.allow_read(),
                    Permission::Stderr => inner.allow_stderr(),
                    Permission::Stdin => inner.allow_stdin(),
                    Permission::Stdout => inner.allow_stdout(),
                    Permission::Write => inner.allow_write(),
                    _ => inner,
                },
            ),
            EnginePolicy::Clock(inner) => EnginePolicy::Clock(
                match permission {
                    Permission::GetTime => inner.allow_gettime(),
                    _ => inner,
                },
            ),
            other => other,
        };
        Policy { engine }
    }

    /// Hands the engine's I/O policy out, for a descriptor to be allowed on it.
    pub(crate) fn into_io(self) -> (io: extrasafe::builtins::systemio::SystemIO)
        requires
            self.kind() == CategoryKind::SystemIO,
        ensures
            self.engine() == EnginePolicy::Io(io),
    {
        match self.engine {
            EnginePolicy::Io(inner) => inner,
            _ => extrasafe::builtins::systemio::SystemIO::nothing(),
        }
    }

    /// Takes the engine's I/O policy back after a descriptor has been allowed
    /// on it: the policy goes on from what came back.
    pub(crate) fn from_io(io: extrasafe::builtins::systemio::SystemIO) -> (policy: Policy)
        ensures
            policy.engine() == EnginePolicy::Io(io),
    {
        Policy { engine: EnginePolicy::Io(io) }
    }
}

/// The accumulating context.
pub struct Context {
    engine: extrasafe::SafetyContext,
}

impl Context {
    /// The engine's context as it stands.
    pub closed spec fn engine(self) -> extrasafe::SafetyContext {
        self.engine
    }

    /// A context that holds no rule.
    pub fn new() -> (context: Context)
        ensures
            context_syscalls(context.engine()) == Set::<int>::empty(),
    {
        Context { engine: extrasafe::SafetyContext::new() }
    }

    /// Merges a policy into the context. The engine decides whether it can be
    /// merged: where it accepts the policy, the context is the one that the
    /// engine gives, and where it rejects it, the error is the engine's.
    pub fn merge(self, policy: Policy) -> (done: Result<Context, extrasafe::ExtraSafeError>)
        ensures
            done is Ok <==> enabled(self.engine(), policy.engine()) is Some,
            done is Ok ==> enabled(self.engine(), policy.engine()) == Some(done->Ok_0.engine()),
    {
        Context::settle(
            match policy.engine {
                EnginePolicy::Basic => enable_basic(self.engine),
                EnginePolicy::Fork => enable_fork(self.engine),
                EnginePolicy::Thread(inner) => enable_threads(self.engine, inner),
                EnginePolicy::Network(inner) => enable_network(self.engine, inner),
                EnginePolicy::Io(inner) => enable_io(self.engine, inner),
                EnginePolicy::Clock(inner) => enable_time(self.engine, inner),
            },
        )
    }

    /// What a merge comes to once the engine has answered: its context if it
    /// gave one back, and else its own error.
    pub fn settle(
        outcome: Result<extrasafe::SafetyContext, extrasafe::ExtraSafeError>,
    ) -> (done: Result<Context, extrasafe::ExtraSafeError>)
        ensures
            outcome is Ok ==> done is Ok && done->Ok_0.engine() == outcome->Ok_0,
            outcome is Err ==> done is Err && done->Err_0 == outcome->Err_0,
    {
        match outcome {
            Ok(engine) => Ok(Context { engine }),
            Err(cause) => Err(cause),
        }
    }

    /// The engine's context, ready to be installed on a thread or on all
    /// threads.
    pub fn into_engine(self) -> (engine: extrasafe::SafetyContext)
        ensures
            engine == self.engine(),
    {
        self.engine
    }
}

} // verus!
