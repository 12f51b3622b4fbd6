//! The single-instance guard: a marker file that is opened, locked without
//! blocking, emptied and filled.
//!
//! [`LockProtocol`] holds what was asked for and how far things have come. The
//! driver performs each [`Action`] and reports what happened as an [`Event`];
//! the protocol answers with the next action until it says `Finish` or `Fail`.

use crate::decimal::{lemma_decimal_digits, pid_contents, pid_line};
use crate::error::{Argument, Error, Stage};
use crate::write_all::{WriteAll, WriteStep};
use vstd::prelude::*;

verus! {

/// The permission bits that a marker file can be created with: read, write and
/// execute for user, group and others, set-user-id, set-group-id and sticky.
pub const KNOWN_MODE_BITS: u32 = 0o7777;

/// The permission bits of a marker file where the caller has no wish of its
/// own: read and write for the user, read for the group.
pub const DEFAULT_MODE: u32 = 0o640;

/// `bits` holds no bit outside [`KNOWN_MODE_BITS`].
pub open spec fn mode_is_known(bits: u32) -> bool {
    bits & !KNOWN_MODE_BITS == 0
}

/// Asks `rustix::fs::Mode::from_bits` whether it recognises every bit of `bits`.
///
/// Not proved: that `from_bits` returns a mode exactly when no bit lies outside
/// the union of the flags that `Mode` defines, and that this union is
/// [`KNOWN_MODE_BITS`].
#[verifier::external_body]
fn mode_bits_are_known(bits: u32) -> (known: bool)
    ensures
        known == mode_is_known(bits),
{
    rustix::fs::Mode::from_bits(bits).is_some()
}

/// What kind of failure the operating system reported, as far as the protocol
/// tells failures apart.
#[derive(Clone, Copy, Debug, PartialEq, Eq, Structural)]
pub enum OsErrorKind {
    /// The call was interrupted by a signal before it did anything.
    Interrupted,
    /// The call would have had to wait.
    WouldBlock,
    /// Anything else.
    Other,
}

/// A failure of a system call.
#[derive(Clone, Copy, Debug, PartialEq, Eq, Structural)]
pub struct OsError {
    /// The operating system's error number.
    pub code: i32,
}

/// The error number of Linux for a system call that a signal interrupted.
pub const EINTR: i32 = 4;

/// The error number of Linux for a system call that would have had to wait;
/// a lock that someone else holds is refused with it.
pub const EAGAIN: i32 = 11;

/// What kind of failure an error number of the operating system stands for.
pub open spec fn spec_os_error_kind(code: i32) -> OsErrorKind {
    if code == EINTR {
        OsErrorKind::Interrupted
    } else if code == EAGAIN {
        OsErrorKind::WouldBlock
    } else {
        OsErrorKind::Other
    }
}

/// What kind of failure an error number of the operating system stands for.
pub fn os_error_kind(code: i32) -> (kind: OsErrorKind)
    ensures
        kind == spec_os_error_kind(code),
{
    if code == EINTR {
        OsErrorKind::Interrupted
    } else if code == EAGAIN {
        OsErrorKind::WouldBlock
    } else {
        OsErrorKind::Other
    }
}

impl OsError {
    /// What kind of failure this is: what its error number stands for.
    pub open spec fn spec_kind(self) -> OsErrorKind {
        spec_os_error_kind(self.code)
    }

    /// The failure that the error number `code` reports.
    pub fn from_code(code: i32) -> (error: OsError)
        ensures
            error == (OsError { code }),
    {
        OsError { code }
    }

    /// What kind of failure this is.
    pub fn kind(&self) -> (kind: OsErrorKind)
        ensures
            kind == self.spec_kind(),
    {
        os_error_kind(self.code)
    }
}

/// What the driver reports after it has performed an action.
#[derive(Clone, Copy, Debug, PartialEq, Eq, Structural)]
pub enum Event {
    /// The id of the process, as asked for.
    Pid(u32),
    /// The open, lock or truncate that was asked for succeeded.
    Completed,
    /// The write that was asked for delivered this many bytes.
    Wrote(usize),
    /// The system call that was asked for failed.
    Failed(OsError),
    /// Pending signal handlers have run; `cancelled` says whether one of them
    /// asked the caller to stop.
    SignalsChecked { cancelled: bool },
}

/// How the marker file is opened.
#[derive(Clone, Copy, Debug, PartialEq, Eq, Structural)]
pub struct OpenRequest {
    /// Open for reading and writing.
    pub read_write: bool,
    /// Create the file if it is absent.
    pub create: bool,
    /// Never let the file become the controlling terminal.
    pub no_controlling_terminal: bool,
    /// Close the descriptor when the process image is replaced.
    pub close_on_exec: bool,
    /// Refuse to follow a symbolic link in the last component of the path.
    pub no_follow: bool,
    /// Refuse to resolve the path through magic links.
    pub no_magic_links: bool,
    /// The permission bits, used only if the file is created.
    pub mode: u32,
}

/// What becomes of the locked descriptor once the caller lets go of the handle.
#[derive(Clone, Copy, Debug, PartialEq, Eq, Structural)]
pub enum Disposition {
    /// The descriptor stays open, and the lock held, until the process ends.
    Detached,
    /// The descriptor is closed, and the lock released, with the handle.
    AutoClose,
}

/// What the driver does next.
#[derive(Clone, Copy, Debug, PartialEq, Eq, Structural)]
pub enum Action {
    /// Report the id of the process.
    GetPid,
    /// Open the marker file relative to the current directory.
    Open(OpenRequest),
    /// Try to take the exclusive lock on the whole file, without waiting.
    Lock,
    /// Cut the file down to no bytes.
    Truncate,
    /// Write the contents from this offset on, and report the amount taken.
    Write { from: usize },
    /// Let pending signal handlers run, and report whether one asked to stop.
    CheckSignals,
    /// Hand the locked descriptor to the caller.
    Finish(Disposition),
    /// Give up with this error.
    Fail(Error),
}

/// Where the protocol stands.
#[derive(Clone, Copy, Debug, PartialEq, Eq, Structural)]
pub enum Phase {
    /// Nothing has been asked of the driver yet.
    Ready,
    /// The id of the process is awaited, for the contents.
    Identifying,
    /// The outcome of this system call is awaited.
    Awaiting(Stage),
    /// This system call was interrupted; the outcome of the signal check is
    /// awaited.
    Checking(Stage),
    /// The file is locked and filled.
    Finished,
    /// The protocol has given up.
    Failed,
}

/// The protocol as a mathematical value.
pub ghost struct ProtocolView {
    pub mode: u32,
    pub auto_close: bool,
    pub inherit_on_exec: bool,
    /// Whether the contents are to be the line of the process id, which is
    /// asked for when the protocol begins.
    pub default_contents: bool,
    /// The bytes that the file is to hold; empty until the process id is known
    /// where the contents are to be its line.
    pub contents: Seq<u8>,
    pub phase: Phase,
    pub progress: WriteAll,
}

impl ProtocolView {
    /// Nothing can have been written yet: the file is not yet known to be open,
    /// locked and empty.
    pub open spec fn before_writing(self) -> bool {
        match self.phase {
            Phase::Ready => true,
            Phase::Identifying => true,
            Phase::Awaiting(stage) => !(stage is Write),
            Phase::Checking(stage) => !(stage is Write),
            _ => false,
        }
    }

    /// The invariant of the protocol: the mode is valid, the progress fits the
    /// contents, nothing is delivered before the writing starts, a write is
    /// awaited only while bytes are left, and the protocol is finished only
    /// when none is.
    pub open spec fn wf(self) -> bool {
        &&& mode_is_known(self.mode)
        &&& self.contents.len() <= usize::MAX
        &&& self.progress.wf(self.contents.len())
        &&& (self.before_writing() ==> self.progress == WriteAll { written: 0, had_zero: false })
        &&& (self.phase is Identifying ==> self.default_contents)
        &&& (self.default_contents && (self.phase is Ready || self.phase is Identifying)
            ==> self.contents.len() == 0)
        &&& (self.phase == Phase::Awaiting(Stage::Write) || self.phase == Phase::Checking(
            Stage::Write,
        ) ==> self.progress.written < self.contents.len())
        &&& (self.phase is Finished ==> self.progress.written == self.contents.len())
    }

    /// How the file is opened: for reading and writing, created if absent, never
    /// as controlling terminal, never through a symbolic link in the last
    /// component of the path nor through a magic link, and closed on exec
    /// unless the descriptor is to be inherited.
    pub open spec fn open_request(self) -> OpenRequest {
        OpenRequest {
            read_write: true,
            create: true,
            no_controlling_terminal: true,
            close_on_exec: !self.inherit_on_exec,
            no_follow: true,
            no_magic_links: true,
            mode: self.mode,
        }
    }

    /// What becomes of the descriptor: detached unless auto-close was asked for.
    pub open spec fn disposition(self) -> Disposition {
        if self.auto_close {
            Disposition::AutoClose
        } else {
            Disposition::Detached
        }
    }

    /// The action that performs the system call of `stage`.
    pub open spec fn action_for(self, stage: Stage) -> Action {
        match stage {
            Stage::Open => Action::Open(self.open_request()),
            Stage::Lock => Action::Lock,
            Stage::Truncate => Action::Truncate,
            Stage::Write => Action::Write { from: self.progress.written },
        }
    }

    /// The protocol in another phase.
    pub open spec fn at(self, phase: Phase) -> ProtocolView {
        ProtocolView { phase, ..self }
    }

    /// The events that can be reported in the current phase: the outcome of the
    /// action that was asked for, and for a write no more bytes than were
    /// offered.
    pub open spec fn accepts(self, event: Event) -> bool {
        match self.phase {
            Phase::Awaiting(Stage::Write) => match event {
                Event::Wrote(amount) => amount <= self.contents.len() - self.progress.written,
                Event::Failed(_) => true,
                _ => false,
            },
            Phase::Awaiting(_) => event is Completed || event is Failed,
            Phase::Checking(_) => event is SignalsChecked,
            Phase::Identifying => event is Pid,
            _ => false,
        }
    }

    /// The protocol and the first action: to ask for the process id where the
    /// contents are to be its line, and else to open the file.
    pub open spec fn begun(self) -> (ProtocolView, Action)
        recommends
            self.phase is Ready,
    {
        if self.default_contents {
            (self.at(Phase::Identifying), Action::GetPid)
        } else {
            (self.at(Phase::Awaiting(Stage::Open)), Action::Open(self.open_request()))
        }
    }

    /// The protocol and the action once the file is empty, or after a write:
    /// another write, the handing over, or giving up on a stalled delivery.
    pub open spec fn after_write(self, progress: WriteAll, step: WriteStep) -> (
        ProtocolView,
        Action,
    ) {
        let moved = ProtocolView { progress, ..self };
        match step {
            WriteStep::Continue { from } => (
                moved.at(Phase::Awaiting(Stage::Write)),
                Action::Write { from },
            ),
            WriteStep::Complete => (moved.at(Phase::Finished), Action::Finish(self.disposition())),
            WriteStep::Stalled => (moved.at(Phase::Failed), Action::Fail(Error::WriteIncomplete)),
        }
    }

    /// The protocol and the action after the system call of `stage` has failed.
    ///
    /// An interruption is never reported at once: signal handlers get their turn
    /// first. A lock that would have had to wait is held by someone else. Every
    /// other failure is an I/O failure of that stage.
    pub open spec fn after_failure(self, stage: Stage, error: OsError) -> (ProtocolView, Action) {
        if error.spec_kind() is Interrupted {
            (self.at(Phase::Checking(stage)), Action::CheckSignals)
        } else if stage is Lock && error.spec_kind() is WouldBlock {
            (self.at(Phase::Failed), Action::Fail(Error::LockHeld { code: error.code }))
        } else {
            (self.at(Phase::Failed), Action::Fail(Error::IOFailure { stage, code: error.code }))
        }
    }

    /// The protocol and the action after `event`.
    ///
    /// The process id settles the contents, and the file is opened. Success
    /// moves on from open to lock, to truncate, to the writes. After an
    /// interruption, a handler's request to stop ends the protocol with
    /// `Interrupted`; without one the interrupted call is made again.
    pub open spec fn next(self, event: Event) -> (ProtocolView, Action)
        recommends
            self.accepts(event),
    {
        match (self.phase, event) {
            (Phase::Identifying, Event::Pid(pid)) => (
                ProtocolView {
                    contents: pid_line(pid),
                    phase: Phase::Awaiting(Stage::Open),
                    ..self
                },
                Action::Open(self.open_request()),
            ),
            (Phase::Awaiting(stage), Event::Failed(error)) => self.after_failure(stage, error),
            (Phase::Awaiting(Stage::Open), _) => (
                self.at(Phase::Awaiting(Stage::Lock)),
                Action::Lock,
            ),
            (Phase::Awaiting(Stage::Lock), _) => (
                self.at(Phase::Awaiting(Stage::Truncate)),
                Action::Truncate,
            ),
            (Phase::Awaiting(Stage::Truncate), _) => self.after_write(
                self.progress,
                self.progress.spec_pending(self.contents.len()),
            ),
            (Phase::Awaiting(Stage::Write), Event::Wrote(amount)) => {
                let (progress, step) = self.progress.spec_record(
                    self.contents.len(),
                    amount as nat,
                );
                self.after_write(progress, step)
            },
            (Phase::Checking(stage), Event::SignalsChecked { cancelled }) => {
                if cancelled {
                    (self.at(Phase::Failed), Action::Fail(Error::Interrupted))
                } else {
                    (self.at(Phase::Awaiting(stage)), self.action_for(stage))
                }
            },
            _ => (self, Action::Fail(Error::Interrupted)),
        }
    }
}

/// The state of one attempt to lock a marker file.
pub struct LockProtocol {
    mode: u32,
    auto_close: bool,
    inherit_on_exec: bool,
    default_contents: bool,
    contents: Vec<u8>,
    phase: Phase,
    progress: WriteAll,
}

impl View for LockProtocol {
    type V = ProtocolView;

    closed spec fn view(&self) -> ProtocolView {
        ProtocolView {
            mode: self.mode,
            auto_close: self.auto_close,
            inherit_on_exec: self.inherit_on_exec,
            default_contents: self.default_contents,
            contents: self.contents@,
            phase: self.phase,
            progress: self.progress,
        }
    }
}

impl LockProtocol {
    /// Checks the permission bits and takes the contents: the bytes given, or
    /// else, later, the line of the process id.
    ///
    /// Unknown permission bits are rejected here, before any system call.
    pub fn new(mode: u32, auto_close: bool, inherit_on_exec: bool, contents: Option<Vec<u8>>) -> (made:
        Result<LockProtocol, Error>)
        ensures
            !mode_is_known(mode) ==> made == Err::<LockProtocol, Error>(
                Error::InvalidArgument(Argument::Mode),
            ),
            mode_is_known(mode) ==> made is Ok && made->Ok_0@ == (ProtocolView {
                mode,
                auto_close,
                inherit_on_exec,
                default_contents: contents is None,
                contents: match contents {
                    Some(bytes) => bytes@,
                    None => Seq::<u8>::empty(),
                },
                phase: Phase::Ready,
                progress: WriteAll { written: 0, had_zero: false },
            }) && made->Ok_0@.wf(),
    {
        if !mode_bits_are_known(mode) {
            return Err(Error::InvalidArgument(Argument::Mode));
        }
        let (default_contents, bytes) = match contents {
            Some(bytes) => (false, bytes),
            None => (true, Vec::new()),
        };
        let size: usize = bytes.len();
        assert(bytes@.len() == size);
        Ok(
            LockProtocol {
                mode,
                auto_close,
                inherit_on_exec,
                default_contents,
                contents: bytes,
                phase: Phase::Ready,
                progress: WriteAll::new(),
            },
        )
    }

    /// The bytes that the file is to hold.
    pub fn contents(&self) -> (bytes: &Vec<u8>)
        ensures
            bytes@ == self@.contents,
    {
        &self.contents
    }

    /// Where the protocol stands.
    pub fn phase(&self) -> (phase: Phase)
        ensures
            phase == self@.phase,
    {
        self.phase
    }

    /// How far the contents have been delivered.
    pub fn progress(&self) -> (progress: WriteAll)
        ensures
            progress == self@.progress,
    {
        self.progress
    }

    /// Whether `event` can be reported now.
    pub fn accepts(&self, event: Event) -> (accepted: bool)
        requires
            self@.wf(),
        ensures
            accepted == self@.accepts(event),
    {
        match self.phase {
            Phase::Awaiting(Stage::Write) => match event {
                Event::Wrote(amount) => amount <= self.contents.len() - self.progress.written,
                Event::Failed(_) => true,
                _ => false,
            },
            Phase::Awaiting(_) => match event {
                Event::Completed => true,
                Event::Failed(_) => true,
                _ => false,
            },
            Phase::Checking(_) => match event {
                Event::SignalsChecked { .. } => true,
                _ => false,
            },
            Phase::Identifying => match event {
                Event::Pid(_) => true,
                _ => false,
            },
            _ => false,
        }
    }

    fn open_request(&self) -> (request: OpenRequest)
        ensures
            request == self@.open_request(),
    {
        OpenRequest {
            read_write: true,
            create: true,
            no_controlling_terminal: true,
            close_on_exec: !self.inherit_on_exec,
            no_follow: true,
            no_magic_links: true,
            mode: self.mode,
        }
    }

    fn action_for(&self, stage: Stage) -> (action: Action)
        ensures
            action == self@.action_for(stage),
    {
        match stage {
            Stage::Open => Action::Open(self.open_request()),
            Stage::Lock => Action::Lock,
            Stage::Truncate => Action::Truncate,
            Stage::Write => Action::Write { from: self.progress.written },
        }
    }

    fn after_write(&mut self, step: WriteStep) -> (action: Action)
        ensures
            (final(self)@, action) == old(self)@.after_write(old(self)@.progress, step),
    {
        match step {
            WriteStep::Continue { from } => {
                self.phase = Phase::Awaiting(Stage::Write);
                Action::Write { from }
            },
            WriteStep::Complete => {
                self.phase = Phase::Finished;
                if self.auto_close {
                    Action::Finish(Disposition::AutoClose)
                } else {
                    Action::Finish(Disposition::Detached)
                }
            },
            WriteStep::Stalled => {
                self.phase = Phase::Failed;
                Action::Fail(Error::WriteIncomplete)
            },
        }
    }

    fn after_failure(&mut self, stage: Stage, error: OsError) -> (action: Action)
        ensures
            (final(self)@, action) == old(self)@.after_failure(stage, error),
    {
        match error.kind() {
            OsErrorKind::Interrupted => {
                self.phase = Phase::Checking(stage);
                Action::CheckSignals
            },
            OsErrorKind::WouldBlock => {
                self.phase = Phase::Failed;
                match stage {
                    Stage::Lock => Action::Fail(Error::LockHeld { code: error.code }),
                    _ => Action::Fail(Error::IOFailure { stage, code: error.code }),
                }
            },
            OsErrorKind::Other => {
                self.phase = Phase::Failed;
                Action::Fail(Error::IOFailure { stage, code: error.code })
            },
        }
    }

    /// Starts the protocol: with the question for the process id where the
    /// contents are to be its line, and else with the opening of the file.
    pub fn begin(&mut self) -> (action: Action)
        requires
            old(self)@.wf(),
            old(self)@.phase is Ready,
        ensures
            (final(self)@, action) == old(self)@.begun(),
            final(self)@.wf(),
    {
        if self.default_contents {
            self.phase = Phase::Identifying;
            Action::GetPid
        } else {
            self.phase = Phase::Awaiting(Stage::Open);
            Action::Open(self.open_request())
        }
    }

    /// Takes note of `event` and says what the driver does next.
    pub fn step(&mut self, event: Event) -> (action: Action)
        requires
            old(self)@.wf(),
            old(self)@.accepts(event),
        ensures
            (final(self)@, action) == old(self)@.next(event),
            final(self)@.wf(),
    {
        match self.phase {
            Phase::Identifying => {
                let pid = match event {
                    Event::Pid(pid) => pid,
                    _ => 0,
                };
                self.contents = pid_contents(pid);
                self.phase = Phase::Awaiting(Stage::Open);
                let size: usize = self.contents.len();
                assert(self.contents@.len() == size);
                Action::Open(self.open_request())
            },
            Phase::Awaiting(stage) => match event {
                Event::Failed(error) => self.after_failure(stage, error),
                Event::Wrote(amount) => {
                    let step = self.progress.record(self.contents.len(), amount);
                    self.after_write(step)
                },
                _ => match stage {
                    Stage::Open => {
                        self.phase = Phase::Awaiting(Stage::Lock);
                        Action::Lock
                    },
                    Stage::Lock => {
                        self.phase = Phase::Awaiting(Stage::Truncate);
                        Action::Truncate
                    },
                    _ => {
                        let step = self.progress.pending(self.contents.len());
                        self.after_write(step)
                    },
                },
            },
            Phase::Checking(stage) => match event {
                Event::SignalsChecked { cancelled: false } => {
                    self.phase = Phase::Awaiting(stage);
                    self.action_for(stage)
                },
                _ => {
                    self.phase = Phase::Failed;
                    Action::Fail(Error::Interrupted)
                },
            },
            _ => Action::Fail(Error::Interrupted),
        }
    }
}

/// A step keeps the invariant and never touches what was asked for: the mode,
/// the options and, once they are settled, the contents.
pub proof fn lemma_step_keeps_request(view: ProtocolView, event: Event)
    requires
        view.wf(),
        view.accepts(event),
    ensures
        view.next(event).0.wf(),
        view.next(event).0.mode == view.mode,
        view.next(event).0.auto_close == view.auto_close,
        view.next(event).0.inherit_on_exec == view.inherit_on_exec,
        view.next(event).0.default_contents == view.default_contents,
        !(view.phase is Identifying) ==> view.next(event).0.contents == view.contents,
        event is Pid ==> view.next(event).0.contents == pid_line(event->Pid_0),
        view.progress.written <= view.next(event).0.progress.written,
{
    if let Event::Pid(pid) = event {
        lemma_decimal_digits(pid as nat);
    }
}

/// The descriptor is handed over only when every byte of the contents has been
/// delivered, and then as the options say; after `Finish` or `Fail` no event is
/// accepted any more.
pub proof fn lemma_finish_is_complete(view: ProtocolView, event: Event)
    requires
        view.wf(),
        view.accepts(event),
    ensures
        view.next(event).1 is Finish ==> {
            &&& !(view.phase is Identifying)
            &&& view.next(event).0.progress.delivered(view.contents) == view.contents
            &&& view.next(event).1 == Action::Finish(view.disposition())
            &&& view.next(event).0.phase is Finished
        },
        view.next(event).1 is Fail ==> view.next(event).0.phase is Failed,
        view.next(event).1 is Finish || view.next(event).1 is Fail ==> forall|later: Event|
            !view.next(event).0.accepts(later),
{
    if view.next(event).1 is Finish {
        assert(view.next(event).0.progress.delivered(view.contents) =~= view.contents);
    }
}

/// `LockHeld` is reported exactly when the attempt to lock is refused with the
/// error number of a call that would have had to wait, and it carries that
/// number.
pub proof fn lemma_lock_held(view: ProtocolView, event: Event, code: i32)
    requires
        view.wf(),
        view.accepts(event),
    ensures
        view.next(event).1 == Action::Fail(Error::LockHeld { code }) <==> view.phase
            == Phase::Awaiting(Stage::Lock) && event == Event::Failed(OsError { code }) && code
            == EAGAIN,
{
}

/// An interrupted system call is not reported as a failure: signal handlers
/// run first. If one of them asks to stop, the protocol ends with
/// `Interrupted`; otherwise the same call is made again, with the protocol as
/// it was before the interruption.
pub proof fn lemma_interruption_is_retried(view: ProtocolView, stage: Stage)
    requires
        view.wf(),
        view.phase == Phase::Awaiting(stage),
    ensures
        ({
            let interrupted = Event::Failed(OsError { code: EINTR });
            let (checking, action) = view.next(interrupted);
            &&& action == Action::CheckSignals
            &&& checking.accepts(Event::SignalsChecked { cancelled: true })
            &&& checking.accepts(Event::SignalsChecked { cancelled: false })
            &&& checking.next(Event::SignalsChecked { cancelled: true }).1 == Action::Fail(
                Error::Interrupted,
            )
            &&& checking.next(Event::SignalsChecked { cancelled: false }) == (
                view,
                view.action_for(stage),
            )
        }),
{
}

/// When nothing goes wrong and the first write takes everything, the driver is
/// asked to open, lock, truncate and write, in this order, and then receives
/// the descriptor; with no contents there is no write at all. Where the
/// contents are the line of the process id, the id is asked for first.
pub proof fn lemma_undisturbed_run(view: ProtocolView, pid: u32)
    requires
        view.wf(),
        view.phase is Ready,
    ensures
        ({
            let (started, first) = view.begun();
            let (opening, request) = if view.default_contents {
                started.next(Event::Pid(pid))
            } else {
                (started, first)
            };
            let (locking, second) = opening.next(Event::Completed);
            let (truncating, third) = locking.next(Event::Completed);
            let (writing, fourth) = truncating.next(Event::Completed);
            let contents = if view.default_contents {
                pid_line(pid)
            } else {
                view.contents
            };
            &&& view.default_contents ==> first == Action::GetPid
            &&& request == Action::Open(view.open_request())
            &&& second == Action::Lock
            &&& third == Action::Truncate
            &&& writing.contents == contents
            &&& contents.len() == 0 ==> fourth == Action::Finish(view.disposition())
            &&& contents.len() > 0 ==> fourth == (Action::Write { from: 0 }) && writing.accepts(
                Event::Wrote(contents.len() as usize),
            ) && writing.next(Event::Wrote(contents.len() as usize)).1 == Action::Finish(
                view.disposition(),
            )
        }),
{
    lemma_decimal_digits(pid as nat);
    let (started, first) = view.begun();
    let (opening, request) = if view.default_contents {
        started.next(Event::Pid(pid))
    } else {
        (started, first)
    };
    let contents = if view.default_contents {
        pid_line(pid)
    } else {
        view.contents
    };
    assert(opening == ProtocolView {
        contents,
        phase: Phase::Awaiting(Stage::Open),
        ..view
    });
    let (locking, second) = opening.next(Event::Completed);
    assert(locking == opening.at(Phase::Awaiting(Stage::Lock)));
    let (truncating, third) = locking.next(Event::Completed);
    assert(truncating == opening.at(Phase::Awaiting(Stage::Truncate)));
    let (writing, fourth) = truncating.next(Event::Completed);
    if contents.len() > 0 {
        assert(writing == opening.at(Phase::Awaiting(Stage::Write)));
    }
}

} // verus!
