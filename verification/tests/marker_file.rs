use process_hardening::decimal::pid_contents;
use process_hardening::error::{Argument, Error, Stage};
use process_hardening::pid_file::{
    os_error_kind, Action, Disposition, Event, LockProtocol, OpenRequest, OsError, OsErrorKind,
    Phase, DEFAULT_MODE, EAGAIN, EINTR, KNOWN_MODE_BITS,
};
use process_hardening::write_all::{WriteAll, WriteStep};

fn protocol(contents: &[u8]) -> LockProtocol {
    LockProtocol::new(0o640, false, false, Some(contents.to_vec())).unwrap()
}

fn failure(code: i32) -> Event {
    Event::Failed(OsError { code })
}

/// Drives the protocol up to the first write.
fn reach_writing(protocol: &mut LockProtocol) -> Action {
    assert!(matches!(protocol.begin(), Action::Open(_)));
    assert_eq!(protocol.step(Event::Completed), Action::Lock);
    assert_eq!(protocol.step(Event::Completed), Action::Truncate);
    protocol.step(Event::Completed)
}

#[test]
fn pid_contents_is_decimal_and_newline() {
    assert_eq!(pid_contents(0), b"0\n".to_vec());
    assert_eq!(pid_contents(7), b"7\n".to_vec());
    assert_eq!(pid_contents(10), b"10\n".to_vec());
    assert_eq!(pid_contents(4711), b"4711\n".to_vec());
    assert_eq!(pid_contents(1_000_000), b"1000000\n".to_vec());
    assert_eq!(pid_contents(u32::MAX), b"4294967295\n".to_vec());
}

#[test]
fn default_contents_is_the_pid_line() {
    let mut protocol = LockProtocol::new(DEFAULT_MODE, false, true, None).unwrap();
    assert_eq!(protocol.phase(), Phase::Ready);
    assert_eq!(protocol.progress(), WriteAll { written: 0, had_zero: false });
    assert_eq!(protocol.begin(), Action::GetPid);
    assert_eq!(protocol.phase(), Phase::Identifying);
    assert!(protocol.accepts(Event::Pid(31337)));
    assert!(!protocol.accepts(Event::Completed));
    assert!(matches!(protocol.step(Event::Pid(31337)), Action::Open(_)));
    assert_eq!(protocol.contents(), &b"31337\n".to_vec());
    assert_eq!(protocol.step(Event::Completed), Action::Lock);
    assert_eq!(protocol.step(Event::Completed), Action::Truncate);
    assert_eq!(protocol.step(Event::Completed), Action::Write { from: 0 });
    assert_eq!(protocol.step(Event::Wrote(6)), Action::Finish(Disposition::Detached));
}

#[test]
fn explicit_contents_replace_the_pid_line() {
    let mut protocol = LockProtocol::new(0o600, false, true, Some(b"hello".to_vec())).unwrap();
    assert_eq!(protocol.contents(), &b"hello".to_vec());
    assert!(matches!(protocol.begin(), Action::Open(_)));
    assert_eq!(protocol.contents(), &b"hello".to_vec());
}

#[test]
fn default_mode_is_known() {
    assert_eq!(DEFAULT_MODE, 0o640);
    assert!(LockProtocol::new(DEFAULT_MODE, false, true, None).is_ok());
}

#[test]
fn unknown_mode_bits_are_rejected() {
    for mode in [0o10000, 0o100640, 1 << 31, u32::MAX, KNOWN_MODE_BITS + 1] {
        let made = LockProtocol::new(mode, false, true, None);
        assert!(matches!(made, Err(Error::InvalidArgument(Argument::Mode))));
    }
}

#[test]
fn known_mode_bits_are_accepted() {
    for mode in [0, 0o600, 0o640, 0o644, 0o777, 0o4755, 0o2755, 0o1777, KNOWN_MODE_BITS] {
        assert!(LockProtocol::new(mode, false, true, None).is_ok());
    }
}

#[test]
fn open_request_follows_the_options() {
    let mut inherited = LockProtocol::new(0o640, false, true, Some(Vec::new())).unwrap();
    assert_eq!(
        inherited.begin(),
        Action::Open(OpenRequest {
            read_write: true,
            create: true,
            no_controlling_terminal: true,
            close_on_exec: false,
            no_follow: true,
            no_magic_links: true,
            mode: 0o640,
        })
    );
    let mut private = LockProtocol::new(0o600, true, false, None).unwrap();
    assert_eq!(private.begin(), Action::GetPid);
    assert_eq!(
        private.step(Event::Pid(1)),
        Action::Open(OpenRequest {
            read_write: true,
            create: true,
            no_controlling_terminal: true,
            close_on_exec: true,
            no_follow: true,
            no_magic_links: true,
            mode: 0o600,
        })
    );
}

#[test]
fn undisturbed_run_opens_locks_truncates_writes() {
    let mut protocol = protocol(b"hello");
    assert_eq!(reach_writing(&mut protocol), Action::Write { from: 0 });
    assert_eq!(protocol.phase(), Phase::Awaiting(Stage::Write));
    assert_eq!(protocol.step(Event::Wrote(5)), Action::Finish(Disposition::Detached));
    assert_eq!(protocol.phase(), Phase::Finished);
    assert_eq!(protocol.progress().written, 5);
}

#[test]
fn auto_close_is_an_option() {
    let mut protocol = LockProtocol::new(0o640, true, false, Some(b"x".to_vec())).unwrap();
    reach_writing(&mut protocol);
    assert_eq!(protocol.step(Event::Wrote(1)), Action::Finish(Disposition::AutoClose));
}

#[test]
fn empty_contents_need_no_write() {
    let mut protocol = protocol(b"");
    assert_eq!(reach_writing(&mut protocol), Action::Finish(Disposition::Detached));
    assert_eq!(protocol.phase(), Phase::Finished);
}

#[test]
fn short_write_is_resumed_from_the_offset() {
    let contents = b"hello world";
    let mut protocol = protocol(contents);
    let mut action = reach_writing(&mut protocol);
    let mut sink: Vec<u8> = Vec::new();
    for amount in [3usize, 0, 1, 0, 7] {
        let from = match action {
            Action::Write { from } => from,
            other => panic!("unexpected action {other:?}"),
        };
        sink.extend_from_slice(&protocol.contents()[from..from + amount]);
        action = protocol.step(Event::Wrote(amount));
    }
    assert_eq!(action, Action::Finish(Disposition::Detached));
    assert_eq!(sink, contents.to_vec());
}

#[test]
fn two_empty_writes_in_a_row_are_fatal() {
    let mut protocol = protocol(b"hello");
    reach_writing(&mut protocol);
    assert_eq!(protocol.step(Event::Wrote(2)), Action::Write { from: 2 });
    assert_eq!(protocol.step(Event::Wrote(0)), Action::Write { from: 2 });
    assert_eq!(protocol.step(Event::Wrote(0)), Action::Fail(Error::WriteIncomplete));
    assert_eq!(protocol.phase(), Phase::Failed);
    assert!(!protocol.accepts(Event::Wrote(0)));
}

#[test]
fn held_lock_is_reported_with_its_code() {
    let mut protocol = protocol(b"hello");
    protocol.begin();
    assert_eq!(protocol.step(Event::Completed), Action::Lock);
    assert_eq!(
        protocol.step(failure(11)),
        Action::Fail(Error::LockHeld { code: 11 })
    );
    assert_eq!(protocol.phase(), Phase::Failed);
}

#[test]
fn would_block_elsewhere_is_an_io_failure() {
    let mut protocol = protocol(b"hello");
    protocol.begin();
    assert_eq!(
        protocol.step(failure(11)),
        Action::Fail(Error::IOFailure { stage: Stage::Open, code: 11 })
    );
}

#[test]
fn failures_carry_stage_and_code() {
    let stages = [Stage::Open, Stage::Lock, Stage::Truncate, Stage::Write];
    for (successes, stage) in stages.into_iter().enumerate() {
        let mut protocol = protocol(b"hello");
        protocol.begin();
        for _ in 0..successes {
            protocol.step(Event::Completed);
        }
        assert_eq!(
            protocol.step(failure(13)),
            Action::Fail(Error::IOFailure { stage, code: 13 })
        );
        assert_eq!(protocol.phase(), Phase::Failed);
    }
}

#[test]
fn interruption_is_retried_after_the_signal_check() {
    let mut protocol = protocol(b"hello");
    let first = protocol.begin();
    assert_eq!(protocol.step(failure(4)), Action::CheckSignals);
    assert_eq!(protocol.phase(), Phase::Checking(Stage::Open));
    assert_eq!(protocol.step(Event::SignalsChecked { cancelled: false }), first);
    assert_eq!(protocol.step(Event::Completed), Action::Lock);
    assert_eq!(protocol.step(failure(4)), Action::CheckSignals);
    assert_eq!(protocol.step(Event::SignalsChecked { cancelled: false }), Action::Lock);
    assert_eq!(protocol.step(Event::Completed), Action::Truncate);
    assert_eq!(protocol.step(Event::Completed), Action::Write { from: 0 });
    assert_eq!(protocol.step(Event::Wrote(2)), Action::Write { from: 2 });
    assert_eq!(protocol.step(failure(4)), Action::CheckSignals);
    assert_eq!(
        protocol.step(Event::SignalsChecked { cancelled: false }),
        Action::Write { from: 2 }
    );
    assert_eq!(protocol.step(Event::Wrote(3)), Action::Finish(Disposition::Detached));
}

#[test]
fn cancellation_ends_with_interrupted() {
    let mut protocol = protocol(b"hello");
    protocol.begin();
    protocol.step(Event::Completed);
    assert_eq!(protocol.step(failure(4)), Action::CheckSignals);
    assert_eq!(
        protocol.step(Event::SignalsChecked { cancelled: true }),
        Action::Fail(Error::Interrupted)
    );
    assert_eq!(protocol.phase(), Phase::Failed);
}

#[test]
fn protocol_accepts_only_what_it_asked_for() {
    let mut protocol = protocol(b"hello");
    assert!(!protocol.accepts(Event::Completed));
    protocol.begin();
    assert!(protocol.accepts(Event::Completed));
    assert!(protocol.accepts(failure(2)));
    assert!(!protocol.accepts(Event::Wrote(1)));
    assert!(!protocol.accepts(Event::SignalsChecked { cancelled: false }));
    protocol.step(Event::Completed);
    protocol.step(Event::Completed);
    protocol.step(Event::Completed);
    assert!(protocol.accepts(Event::Wrote(5)));
    assert!(protocol.accepts(Event::Wrote(0)));
    assert!(!protocol.accepts(Event::Wrote(6)));
    assert!(!protocol.accepts(Event::Completed));
    protocol.step(Event::Wrote(5));
    assert!(!protocol.accepts(Event::Completed));
    assert!(!protocol.accepts(Event::Wrote(0)));
}

#[test]
fn write_progress_records_amounts() {
    let mut progress = WriteAll::new();
    assert_eq!(progress.pending(4), WriteStep::Continue { from: 0 });
    assert_eq!(progress.record(4, 1), WriteStep::Continue { from: 1 });
    assert_eq!(progress, WriteAll { written: 1, had_zero: false });
    assert_eq!(progress.record(4, 0), WriteStep::Continue { from: 1 });
    assert_eq!(progress, WriteAll { written: 1, had_zero: true });
    assert_eq!(progress.record(4, 2), WriteStep::Continue { from: 3 });
    assert_eq!(progress, WriteAll { written: 3, had_zero: false });
    assert_eq!(progress.record(4, 0), WriteStep::Continue { from: 3 });
    assert_eq!(progress.record(4, 0), WriteStep::Stalled);
    assert_eq!(progress, WriteAll { written: 3, had_zero: true });
    let mut progress = WriteAll { written: 3, had_zero: true };
    assert_eq!(progress.record(4, 1), WriteStep::Complete);
    assert_eq!(progress.pending(4), WriteStep::Complete);
    assert_eq!(WriteAll::new().pending(0), WriteStep::Complete);
}

#[test]
fn errors_describe_themselves() {
    assert_eq!(
        Error::InvalidArgument(Argument::Mode).message(),
        "`mode` argument contains unknown bits"
    );
    assert_eq!(Error::InvalidArgument(Argument::Descriptor).message(), "illegal fileno");
    assert_eq!(Error::LockHeld { code: 11 }.message(), "Could not file lock PID file.");
    assert_eq!(
        Error::IOFailure { stage: Stage::Open, code: 2 }.message(),
        "Could not open or create PID file."
    );
    assert_eq!(
        Error::IOFailure { stage: Stage::Lock, code: 2 }.message(),
        "Could not file lock PID file."
    );
    assert_eq!(
        Error::IOFailure { stage: Stage::Truncate, code: 2 }.message(),
        "Could not truncate PID file."
    );
    assert_eq!(
        Error::IOFailure { stage: Stage::Write, code: 2 }.message(),
        "Could not write to PID file."
    );
    assert_eq!(Error::WriteIncomplete.message(), "Could not write all data to PID file.");
    assert_eq!(Error::LockHeld { code: 11 }.os_code(), Some(11));
    assert_eq!(Error::IOFailure { stage: Stage::Write, code: 28 }.os_code(), Some(28));
    assert_eq!(Error::WriteIncomplete.os_code(), None);
    assert_eq!(Error::Interrupted.os_code(), None);
}

/// A file and its lock as the protocol's driver sees them.
struct Medium {
    exists: bool,
    mode: u32,
    data: Vec<u8>,
    locked: bool,
    /// The writes take at most this many bytes at a time.
    chunk: usize,
}

impl Medium {
    fn run(&mut self, mut protocol: LockProtocol, pid: u32) -> Result<Disposition, Error> {
        let mut action = protocol.begin();
        loop {
            let event = match action {
                Action::GetPid => Event::Pid(pid),
                Action::Open(request) => {
                    assert!(request.read_write && request.create);
                    if !self.exists {
                        self.exists = true;
                        self.mode = request.mode;
                    }
                    Event::Completed
                }
                Action::Lock => {
                    if self.locked {
                        Event::Failed(OsError { code: 11 })
                    } else {
                        self.locked = true;
                        Event::Completed
                    }
                }
                Action::Truncate => {
                    self.data.clear();
                    Event::Completed
                }
                Action::Write { from } => {
                    let offered = &protocol.contents()[from..];
                    let taken = offered.len().min(self.chunk);
                    self.data.extend_from_slice(&offered[..taken]);
                    Event::Wrote(taken)
                }
                Action::CheckSignals => Event::SignalsChecked { cancelled: false },
                Action::Finish(disposition) => return Ok(disposition),
                Action::Fail(error) => return Err(error),
            };
            assert!(protocol.accepts(event));
            action = protocol.step(event);
        }
    }
}

#[test]
fn fresh_file_gets_mode_and_pid_line() {
    let mut medium = Medium { exists: false, mode: 0, data: Vec::new(), locked: false, chunk: 64 };
    let protocol = LockProtocol::new(0o600, false, false, None).unwrap();
    assert_eq!(medium.run(protocol, 4242), Ok(Disposition::Detached));
    assert!(medium.exists);
    assert_eq!(medium.mode, 0o600);
    assert_eq!(medium.data, b"4242\n".to_vec());
}

#[test]
fn second_lock_fails_while_the_first_is_held() {
    let mut medium = Medium { exists: false, mode: 0, data: Vec::new(), locked: false, chunk: 64 };
    let first = LockProtocol::new(0o640, true, false, None).unwrap();
    assert_eq!(medium.run(first, 100), Ok(Disposition::AutoClose));
    let second = LockProtocol::new(0o600, true, false, None).unwrap();
    assert_eq!(medium.run(second, 200), Err(Error::LockHeld { code: 11 }));
    assert_eq!(medium.data, b"100\n".to_vec());
    assert_eq!(medium.mode, 0o640);
    medium.locked = false;
    let third = LockProtocol::new(0o600, true, false, None).unwrap();
    assert_eq!(medium.run(third, 300), Ok(Disposition::AutoClose));
    assert_eq!(medium.data, b"300\n".to_vec());
    assert_eq!(medium.mode, 0o640);
}

#[test]
fn explicit_contents_replace_longer_prior_content() {
    let mut medium = Medium {
        exists: true,
        mode: 0o644,
        data: b"a much longer line that was here before".to_vec(),
        locked: false,
        chunk: 2,
    };
    let protocol = LockProtocol::new(0o600, false, true, Some(b"hello".to_vec())).unwrap();
    assert_eq!(medium.run(protocol, 1), Ok(Disposition::Detached));
    assert_eq!(medium.data, b"hello".to_vec());
    assert_eq!(medium.mode, 0o644);
}

#[test]
fn medium_that_takes_nothing_stalls_the_write() {
    let mut medium = Medium { exists: true, mode: 0o600, data: Vec::new(), locked: false, chunk: 0 };
    let protocol = LockProtocol::new(0o600, false, true, Some(b"hello".to_vec())).unwrap();
    assert_eq!(medium.run(protocol, 1), Err(Error::WriteIncomplete));
    assert!(medium.data.is_empty());
}

#[test]
fn error_numbers_have_their_kinds() {
    assert_eq!(EINTR, 4);
    assert_eq!(EAGAIN, 11);
    assert_eq!(os_error_kind(4), OsErrorKind::Interrupted);
    assert_eq!(os_error_kind(11), OsErrorKind::WouldBlock);
    for code in [i32::MIN, -4, 0, 1, 2, 3, 5, 10, 12, 13, 28, 40, i32::MAX] {
        assert_eq!(os_error_kind(code), OsErrorKind::Other);
        assert_eq!(OsError::from_code(code), OsError { code });
        assert_eq!(OsError::from_code(code).kind(), OsErrorKind::Other);
    }
    assert_eq!(OsError::from_code(4).kind(), OsErrorKind::Interrupted);
    assert_eq!(OsError { code: 11 }.kind(), OsErrorKind::WouldBlock);
}

#[test]
fn refused_link_is_a_failure_of_the_open() {
    let mut protocol = protocol(b"hello");
    match protocol.begin() {
        Action::Open(request) => assert!(request.no_follow && request.no_magic_links),
        other => panic!("unexpected action {other:?}"),
    }
    assert_eq!(
        protocol.step(Event::Failed(OsError::from_code(40))),
        Action::Fail(Error::IOFailure { stage: Stage::Open, code: 40 })
    );
    assert_eq!(protocol.phase(), Phase::Failed);
}

#[test]
fn kinds_from_numbers_drive_the_protocol() {
    let mut protocol = protocol(b"hello");
    protocol.begin();
    assert_eq!(protocol.step(Event::Failed(OsError::from_code(EINTR))), Action::CheckSignals);
    assert!(matches!(
        protocol.step(Event::SignalsChecked { cancelled: false }),
        Action::Open(_)
    ));
    assert_eq!(protocol.step(Event::Completed), Action::Lock);
    assert_eq!(
        protocol.step(Event::Failed(OsError::from_code(EAGAIN))),
        Action::Fail(Error::LockHeld { code: EAGAIN })
    );
}
