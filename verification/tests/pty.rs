use ai_jail::pty::{run, Pty, PtyError, RunReply, RunState, FD_CLOEXEC};
use ai_jail::termattrs::TermAttrs;
use ai_jail::window::WindowSize;

const ECHO: u32 = 0x8;
const OPOST: u32 = 0x1;

fn attrs() -> TermAttrs {
    TermAttrs {
        input_flags: 0x500,
        output_flags: 0x5,
        control_flags: 0xbf,
        local_flags: 0x8a3b,
        line: 0,
        control_chars: [3; 32],
        input_speed: 15,
        output_speed: 15,
    }
}

fn pty() -> Pty {
    Pty {
        master: 5,
        slave: 6,
        size: WindowSize { rows: 39, cols: 120, xpixel: 0, ypixel: 0 },
    }
}

fn raw() -> TermAttrs {
    match run(RunState::GetAttrs { pty: pty() }, RunReply::Attrs(Ok(attrs()))) {
        RunState::SetRaw { pty: p, saved, raw } => {
            assert_eq!(p, pty());
            assert_eq!(saved, attrs());
            raw
        }
        other => panic!("{other:?}"),
    }
}

#[test]
fn raw_mode_turns_echo_and_output_processing_off() {
    assert_ne!(attrs().local_flags & ECHO, 0);
    assert_ne!(attrs().output_flags & OPOST, 0);
    let raw = raw();
    assert_ne!(raw, attrs());
    assert_eq!(raw.local_flags & ECHO, 0);
    assert_eq!(raw.output_flags & OPOST, 0);
    assert_eq!(raw.input_speed, 15);
    assert_eq!(raw.output_speed, 15);
}

#[test]
fn raw_mode_is_what_the_system_makes_of_the_attributes() {
    let a = attrs();
    let mut t = nix::sys::termios::Termios::from(nix::libc::termios {
        c_iflag: a.input_flags,
        c_oflag: a.output_flags,
        c_cflag: a.control_flags,
        c_lflag: a.local_flags,
        c_line: a.line,
        c_cc: a.control_chars,
        c_ispeed: a.input_speed,
        c_ospeed: a.output_speed,
    });
    nix::sys::termios::cfmakeraw(&mut t);
    let raw = raw();
    assert_eq!(raw.input_flags, t.input_flags.bits());
    assert_eq!(raw.output_flags, t.output_flags.bits());
    assert_eq!(raw.control_flags, t.control_flags.bits());
    assert_eq!(raw.local_flags, t.local_flags.bits());
    assert_eq!(raw.line, t.line_discipline);
    assert_eq!(raw.control_chars, t.control_chars);
}

#[test]
fn run_to_the_end() {
    let replies = vec![
        RunReply::Size(Some((40, 120))),
        RunReply::Opened(Ok((5, 6))),
        RunReply::FdFlags(0),
        RunReply::Done,
        RunReply::Done,
        RunReply::Done,
        RunReply::Attrs(Ok(attrs())),
        RunReply::AttrsSet(Ok(())),
        RunReply::Spawned(Ok(4711)),
        RunReply::Done,
        RunReply::Done,
        RunReply::Done,
        RunReply::Done,
        RunReply::Done,
        RunReply::Done,
        RunReply::Exited(3),
        RunReply::Done,
    ];
    let pty = pty();
    let saved = attrs();
    let pid = 4711;
    let states = vec![
        RunState::OpenPty { size: pty.size },
        RunState::GetFdFlags { pty },
        RunState::SetFdFlags { pty, flags: 1 },
        RunState::SetSize { pty },
        RunState::StoreMaster { pty },
        RunState::GetAttrs { pty },
        RunState::SetRaw { pty, saved, raw: raw() },
        RunState::Spawn { pty, saved },
        RunState::SetChildPid { pty, saved, pid },
        RunState::CloseSlave { pty, undo: Some(saved), child: Ok(pid) },
        RunState::IoLoop { pty, undo: Some(saved), pid },
        RunState::ClearMaster { pty, undo: Some(saved), pid },
        RunState::CloseMaster { pty, undo: Some(saved), child: Ok(pid) },
        RunState::Restore { saved, child: Ok(pid) },
        RunState::Wait { pid },
        RunState::Forget { code: 3 },
        RunState::Finished(Ok(3)),
    ];
    let mut state = RunState::QuerySize;
    for (reply, expected) in replies.into_iter().zip(states) {
        assert!(state.is_answered_by(&reply));
        state = run(state, reply);
        assert_eq!(state, expected);
    }
    assert!(!state.is_answered_by(&RunReply::Done));
}

#[test]
fn unknown_size_is_24_by_80() {
    assert_eq!(
        run(RunState::QuerySize, RunReply::Size(None)),
        RunState::OpenPty { size: WindowSize { rows: 23, cols: 80, xpixel: 0, ypixel: 0 } }
    );
}

#[test]
fn descriptor_flag_is_that_of_the_system() {
    assert_eq!(FD_CLOEXEC, nix::libc::FD_CLOEXEC);
}

#[test]
fn other_descriptor_flags_are_kept() {
    for (flags, expected) in [(0, 1), (1, 1), (6, 7), (-1, -1)] {
        assert_eq!(
            run(RunState::GetFdFlags { pty: pty() }, RunReply::FdFlags(flags)),
            RunState::SetFdFlags { pty: pty(), flags: expected }
        );
    }
}

/// The operations that follow a failure, and its message.
fn failure(state: RunState, reply: RunReply) -> (Vec<&'static str>, String) {
    let mut state = run(state, reply);
    let mut all = vec![];
    loop {
        let name = match &state {
            RunState::CloseSlave { pty: p, .. } => {
                assert_eq!(*p, pty());
                "close slave"
            }
            RunState::CloseMaster { .. } => "close master",
            RunState::Restore { saved, .. } => {
                assert_eq!(*saved, attrs());
                "restore"
            }
            RunState::Finished(Err(e)) => return (all, e.message()),
            other => panic!("{other:?}"),
        };
        all.push(name);
        assert!(state.is_answered_by(&RunReply::Done));
        state = run(state, RunReply::Done);
    }
}

#[test]
fn errors_and_their_messages() {
    let e = || "ENOENT: No such file".to_string();
    assert_eq!(
        failure(RunState::QuerySize, RunReply::Size(Some((1, 80)))),
        (vec![], "Terminal too small for status bar".to_string())
    );
    assert_eq!(
        failure(RunState::OpenPty { size: pty().size }, RunReply::Opened(Err(e()))),
        (vec![], "openpty: ENOENT: No such file".to_string())
    );
    let closed = vec!["close slave", "close master"];
    assert_eq!(
        failure(RunState::GetAttrs { pty: pty() }, RunReply::Attrs(Err(e()))),
        (closed.clone(), "tcgetattr: ENOENT: No such file".to_string())
    );
    assert_eq!(
        failure(
            RunState::SetRaw { pty: pty(), saved: attrs(), raw: attrs() },
            RunReply::AttrsSet(Err(e()))
        ),
        (closed, "tcsetattr raw: ENOENT: No such file".to_string())
    );
    assert_eq!(PtyError::Open(String::new()).message(), "openpty: ");
}

#[test]
fn failed_start_restores_the_terminal() {
    let e = "ENOENT: No such file".to_string();
    assert_eq!(
        failure(RunState::Spawn { pty: pty(), saved: attrs() }, RunReply::Spawned(Err(e))),
        (
            vec!["close slave", "close master", "restore"],
            "Failed to start sandbox: ENOENT: No such file".to_string()
        )
    );
}
