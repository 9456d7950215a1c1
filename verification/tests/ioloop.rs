use ai_jail::ioloop::{io_loop, Dest, Effect, LoopEvent, LoopState, POLL_TIMEOUT};
use ai_jail::stream::SeqState;

const IN: i16 = 0x1;
const ERR: i16 = 0x8;
const HUP: i16 = 0x10;
const EINTR: i32 = 4;
const EIO: i32 = 5;
const EBADF: i32 = 9;

const NOTHING: Effect = Effect { forward: None, redraw: false };

fn polled(master: i16, stdin: i16) -> LoopEvent<'static> {
    LoopEvent::Polled { result: Ok(1), master: Some(master), stdin: Some(stdin) }
}

fn poll_error(errno: i32) -> LoopEvent<'static> {
    LoopEvent::Polled { result: Err(errno), master: Some(0), stdin: Some(0) }
}

fn timeout() -> LoopEvent<'static> {
    LoopEvent::Polled { result: Ok(0), master: Some(0), stdin: Some(0) }
}

fn poll(seq: SeqState) -> LoopState {
    LoopState::Poll { seq }
}

#[test]
fn loop_starts_by_polling() {
    assert_eq!(LoopState::new(), poll(SeqState::Normal));
    assert_eq!(POLL_TIMEOUT, 100);
}

#[test]
fn events_answer_their_states() {
    let read = LoopEvent::Read(Ok(b"x"));
    assert!(LoopState::new().is_answered_by(&timeout()));
    assert!(!LoopState::new().is_answered_by(&read));
    for state in [
        LoopState::ReadMaster { seq: SeqState::Normal, master: IN, stdin: None },
        LoopState::Drain,
        LoopState::ReadStdin { seq: SeqState::Normal },
    ] {
        assert!(state.is_answered_by(&read));
        assert!(!state.is_answered_by(&timeout()));
    }
    assert!(!LoopState::Stopped.is_answered_by(&read));
    assert!(!LoopState::Stopped.is_answered_by(&timeout()));
}

#[test]
fn output_goes_to_the_terminal_and_the_bar_is_redrawn() {
    let (state, effect) = io_loop(LoopState::new(), polled(IN, 0));
    assert_eq!(effect, NOTHING);
    assert_eq!(
        state,
        LoopState::ReadMaster { seq: SeqState::Normal, master: IN, stdin: Some(0) }
    );
    let (state, effect) = io_loop(state, LoopEvent::Read(Ok(b"hello\x1b[r")));
    assert_eq!(effect, Effect { forward: Some(Dest::Stdout), redraw: true });
    assert_eq!(state, LoopState::new());
}

#[test]
fn redraw_waits_for_the_end_of_a_sequence() {
    let (state, _) = io_loop(LoopState::new(), polled(IN, 0));
    let (state, effect) = io_loop(state, LoopEvent::Read(Ok(b"hello\x1b[38;")));
    assert_eq!(effect, Effect { forward: Some(Dest::Stdout), redraw: false });
    assert_eq!(state, poll(SeqState::Csi));
    let (state, _) = io_loop(state, polled(IN, 0));
    let (state, effect) = io_loop(state, LoopEvent::Read(Ok(b"5m")));
    assert_eq!(effect, Effect { forward: Some(Dest::Stdout), redraw: true });
    assert_eq!(state, poll(SeqState::Normal));
}

#[test]
fn timeout_makes_up_for_a_redraw() {
    assert_eq!(io_loop(poll(SeqState::Normal), timeout()), (LoopState::new(), NOTHING));
    for seq in [SeqState::Esc, SeqState::Csi, SeqState::Osc] {
        assert_eq!(
            io_loop(poll(seq), timeout()),
            (LoopState::new(), Effect { forward: None, redraw: true })
        );
    }
}

#[test]
fn input_goes_to_the_child() {
    let (state, effect) = io_loop(poll(SeqState::Osc), polled(0, IN));
    assert_eq!(effect, NOTHING);
    assert_eq!(state, LoopState::ReadStdin { seq: SeqState::Osc });
    let (state, effect) = io_loop(state, LoopEvent::Read(Ok(b"\x1b[A")));
    assert_eq!(effect, Effect { forward: Some(Dest::Master), redraw: false });
    assert_eq!(state, poll(SeqState::Osc));
}

#[test]
fn output_comes_before_input() {
    let (state, _) = io_loop(LoopState::new(), polled(IN, IN));
    assert!(matches!(state, LoopState::ReadMaster { .. }));
    let (state, _) = io_loop(state, LoopEvent::Read(Ok(b"x")));
    assert_eq!(state, LoopState::ReadStdin { seq: SeqState::Normal });
}

#[test]
fn hang_up_drains_the_master() {
    for event in [HUP, ERR, HUP | ERR] {
        let (state, _) = io_loop(LoopState::new(), polled(event, IN));
        assert_eq!(state, LoopState::Drain);
        let (state, _) = io_loop(LoopState::new(), polled(IN | event, IN));
        let (state, effect) = io_loop(state, LoopEvent::Read(Ok(b"x")));
        assert_eq!(effect, Effect { forward: Some(Dest::Stdout), redraw: true });
        assert_eq!(state, LoopState::Drain);
    }
    let (state, effect) = io_loop(LoopState::Drain, LoopEvent::Read(Ok(b"rest")));
    assert_eq!(effect, Effect { forward: Some(Dest::Stdout), redraw: false });
    assert_eq!(state, LoopState::Drain);
    for end in [LoopEvent::Read(Ok(b"")), LoopEvent::Read(Err(EIO)), LoopEvent::Read(Err(EINTR))] {
        assert_eq!(io_loop(state, end), (LoopState::Stopped, NOTHING));
    }
}

#[test]
fn end_of_either_stream_stops() {
    let (state, _) = io_loop(LoopState::new(), polled(IN, 0));
    assert_eq!(io_loop(state, LoopEvent::Read(Ok(b""))), (LoopState::Stopped, NOTHING));
    let (state, _) = io_loop(LoopState::new(), polled(0, IN));
    assert_eq!(io_loop(state, LoopEvent::Read(Ok(b""))), (LoopState::Stopped, NOTHING));
}

#[test]
fn errors_stop_unless_interrupted() {
    for errno in [EIO, EBADF, 0, -1, 11] {
        assert_eq!(io_loop(LoopState::new(), poll_error(errno)), (LoopState::Stopped, NOTHING));
        let (state, _) = io_loop(LoopState::new(), polled(IN, IN));
        assert_eq!(io_loop(state, LoopEvent::Read(Err(errno))), (LoopState::Stopped, NOTHING));
        let (state, _) = io_loop(LoopState::new(), polled(0, IN));
        assert_eq!(io_loop(state, LoopEvent::Read(Err(errno))), (LoopState::Stopped, NOTHING));
    }
    assert_eq!(io_loop(poll(SeqState::Csi), poll_error(EINTR)), (poll(SeqState::Csi), NOTHING));
    let (state, _) = io_loop(poll(SeqState::Csi), polled(IN, IN));
    let (state, effect) = io_loop(state, LoopEvent::Read(Err(EINTR)));
    assert_eq!((state, effect), (LoopState::ReadStdin { seq: SeqState::Csi }, NOTHING));
    assert_eq!(
        io_loop(state, LoopEvent::Read(Err(EINTR))),
        (poll(SeqState::Csi), NOTHING)
    );
}

#[test]
fn error_numbers_are_those_of_the_system() {
    assert_eq!(EINTR, nix::errno::Errno::EINTR as i32);
    assert_eq!(EIO, nix::errno::Errno::EIO as i32);
    assert_eq!(IN, nix::poll::PollFlags::POLLIN.bits());
    assert_eq!(ERR, nix::poll::PollFlags::POLLERR.bits());
    assert_eq!(HUP, nix::poll::PollFlags::POLLHUP.bits());
}

#[test]
fn unknown_events_are_passed_over() {
    let event = LoopEvent::Polled { result: Ok(1), master: None, stdin: Some(IN) };
    assert_eq!(io_loop(LoopState::new(), event).0, LoopState::ReadStdin { seq: SeqState::Normal });
    let event = LoopEvent::Polled { result: Ok(1), master: None, stdin: None };
    assert_eq!(io_loop(LoopState::new(), event).0, LoopState::new());
    assert_eq!(io_loop(LoopState::new(), polled(0x4, 0x6)).0, LoopState::new());
}

/// Goes through the events. Returns the last state, what was handed on to the terminal and to
/// the child, and how much the terminal had got at each redraw.
fn run_through(events: &[LoopEvent]) -> (LoopState, Vec<u8>, Vec<u8>, Vec<usize>) {
    let mut state = LoopState::new();
    let (mut stdout, mut master, mut redraws) = (vec![], vec![], vec![]);
    for event in events {
        assert!(state.is_answered_by(event));
        let (next, effect) = io_loop(state, *event);
        let data: &[u8] = match event {
            LoopEvent::Read(Ok(data)) => data,
            _ => b"",
        };
        match effect.forward {
            Some(Dest::Stdout) => stdout.extend_from_slice(data),
            Some(Dest::Master) => master.extend_from_slice(data),
            None => assert!(data.is_empty()),
        }
        if effect.redraw {
            redraws.push(stdout.len());
        }
        state = next;
    }
    (state, stdout, master, redraws)
}

#[test]
fn bytes_are_forwarded_verbatim() {
    let (state, stdout, master, _) = run_through(&[
        polled(IN, IN),
        LoopEvent::Read(Ok(b"one\x1b[")),
        LoopEvent::Read(Ok(b"ls\r")),
        polled(IN, 0),
        LoopEvent::Read(Ok(b"31mtwo")),
        timeout(),
        polled(0, IN),
        LoopEvent::Read(Ok(b"\x1b[A\xff")),
        poll_error(EINTR),
        polled(IN | HUP, IN),
        LoopEvent::Read(Ok(b"\x00\xff\x1bc")),
        LoopEvent::Read(Ok(b"\x1b]0;t")),
        LoopEvent::Read(Err(EIO)),
    ]);
    assert_eq!(state, LoopState::Stopped);
    assert_eq!(stdout, b"one\x1b[31mtwo\x00\xff\x1bc\x1b]0;t");
    assert_eq!(master, b"ls\r\x1b[A\xff");
}

#[test]
fn bar_outlives_a_reset_across_reads() {
    let (state, stdout, _, redraws) = run_through(&[
        polled(IN, 0),
        LoopEvent::Read(Ok(b"\x1b[?10")),
        polled(IN, IN),
        LoopEvent::Read(Ok(b"49h\x1b[3")),
        LoopEvent::Read(Ok(b"q")),
        polled(0, IN),
        LoopEvent::Read(Ok(b"q")),
        timeout(),
        timeout(),
    ]);
    assert_eq!(state, LoopState::new());
    assert_eq!(redraws, vec![stdout.len()]);
    let (_, stdout, _, redraws) = run_through(&[
        polled(IN, 0),
        LoopEvent::Read(Ok(b"\x1b[?10")),
        polled(IN, 0),
        LoopEvent::Read(Ok(b"49h")),
        timeout(),
    ]);
    assert_eq!(redraws, vec![stdout.len()]);
}

#[test]
fn redraw_does_not_break_into_a_restarted_sequence() {
    let (state, _) = io_loop(LoopState::new(), polled(IN, 0));
    let (state, effect) = io_loop(state, LoopEvent::Read(Ok(b"\x1b\x1b[")));
    assert_eq!(effect, Effect { forward: Some(Dest::Stdout), redraw: false });
    assert_eq!(state, poll(SeqState::Csi));
}
