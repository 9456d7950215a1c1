//! The loop that moves bytes between the real terminal and the pseudo-terminal.
//!
//! The loop is a state machine. Each state names the one system call that it waits
//! for; `io_loop` takes the outcome of that call and says what to do about it.
use crate::escape::has_reset;
use crate::stream::{law_chunks_compose, law_text_behind_an_escape_sequence, SeqState};
use crate::sys::{fault, fault_of, has_event, reports, Fault, PollEvent};
use vstd::prelude::*;

verus! {

/// How long one round of polling lasts, in milliseconds.
pub const POLL_TIMEOUT: u16 = 100;

/// What the loop waits for.
#[derive(Clone, Copy, Debug, PartialEq, Eq, Structural)]
pub enum LoopState {
    /// Poll the pseudo-terminal and the user's input for data to read, for at most
    /// `POLL_TIMEOUT`.
    Poll { seq: SeqState },
    /// Read the pseudo-terminal. The events that polling returned are still to be
    /// looked at.
    ReadMaster { seq: SeqState, master: i16, stdin: Option<i16> },
    /// Read what is left in the pseudo-terminal, which the child has left.
    Drain,
    /// Read the user's input.
    ReadStdin { seq: SeqState },
    /// Nothing: the loop is over.
    Stopped,
}

/// The outcome of a system call. An error is given by its number.
#[derive(Clone, Copy, Debug)]
pub enum LoopEvent<'a> {
    /// Polling ended: the number of descriptors that have events, and the events of
    /// the pseudo-terminal and of the user's input. Those are not there if they
    /// hold an unknown one.
    Polled { result: Result<i32, i32>, master: Option<i16>, stdin: Option<i16> },
    /// A read ended: the bytes that were read, none at the end of the stream.
    Read(Result<&'a [u8], i32>),
}

/// Where bytes that were read go.
#[derive(Clone, Copy, Debug, PartialEq, Eq, Structural)]
pub enum Dest {
    /// The real terminal.
    Stdout,
    /// The pseudo-terminal.
    Master,
}

/// What is to be done about an event, in this order.
#[derive(Clone, Copy, Debug, PartialEq, Eq, Structural)]
pub struct Effect {
    /// Write all bytes that were read.
    pub forward: Option<Dest>,
    /// Draw the status bar again.
    pub redraw: bool,
}

impl LoopState {
    /// Where the loop starts.
    pub open spec fn start() -> LoopState {
        LoopState::Poll { seq: SeqState::Normal }
    }

    /// Whether `event` is an outcome of the call that the loop waits for.
    pub open spec fn accepts(self, event: LoopEvent<'_>) -> bool {
        match self {
            LoopState::Poll { .. } => event is Polled,
            LoopState::ReadMaster { .. } => event is Read,
            LoopState::Drain => event is Read,
            LoopState::ReadStdin { .. } => event is Read,
            LoopState::Stopped => false,
        }
    }
}

pub open spec fn nothing() -> Effect {
    Effect { forward: None, redraw: false }
}

/// The next state once the pseudo-terminal is done with: the user's input is read
/// if there is any.
pub open spec fn then_stdin(seq: SeqState, stdin: Option<i16>) -> LoopState {
    if stdin matches Some(events) && reports(events, PollEvent::Input) {
        LoopState::ReadStdin { seq }
    } else {
        LoopState::Poll { seq }
    }
}

/// The next state once the pseudo-terminal was read: if the child hung up, what is
/// left in it is read to the end.
pub open spec fn then_hang_up(seq: SeqState, master: i16, stdin: Option<i16>) -> LoopState {
    if reports(master, PollEvent::HangUp) || reports(
        master,
        PollEvent::Error,
    ) {
        LoopState::Drain
    } else {
        then_stdin(seq, stdin)
    }
}

/// What follows a round of polling.
pub open spec fn after_poll(
    seq: SeqState,
    result: Result<i32, i32>,
    master: Option<i16>,
    stdin: Option<i16>,
) -> (LoopState, Effect) {
    match result {
        // A redraw that was put off is made up for when the child falls silent.
        Ok(0) => (
            LoopState::Poll { seq: SeqState::Normal },
            Effect { forward: None, redraw: seq != SeqState::Normal },
        ),
        Ok(_) => (
            match master {
                Some(events) => if reports(events, PollEvent::Input) {
                    LoopState::ReadMaster { seq, master: events, stdin }
                } else {
                    then_hang_up(seq, events, stdin)
                },
                None => then_stdin(seq, stdin),
            },
            nothing(),
        ),
        Err(errno) => (
            if fault(errno) == Fault::Interrupted {
                LoopState::Poll { seq }
            } else {
                LoopState::Stopped
            },
            nothing(),
        ),
    }
}

/// What follows a read of the pseudo-terminal: the bytes go to the real terminal,
/// and the bar is drawn again unless they end inside of a control sequence.
pub open spec fn after_master(
    seq: SeqState,
    master: i16,
    stdin: Option<i16>,
    result: Result<Seq<u8>, i32>,
) -> (LoopState, Effect) {
    match result {
        Ok(data) => if data.len() == 0 {
            (LoopState::Stopped, nothing())
        } else {
            let now = seq.after(data);
            (
                then_hang_up(now, master, stdin),
                Effect { forward: Some(Dest::Stdout), redraw: now == SeqState::Normal },
            )
        },
        Err(errno) => (
            if fault(errno) == Fault::Interrupted {
                then_hang_up(seq, master, stdin)
            } else {
                LoopState::Stopped
            },
            nothing(),
        ),
    }
}

/// What follows a read of the pseudo-terminal after the child hung up: the bytes go
/// to the real terminal until there are no more.
pub open spec fn after_drain(result: Result<Seq<u8>, i32>) -> (LoopState, Effect) {
    match result {
        Ok(data) => if data.len() == 0 {
            (LoopState::Stopped, nothing())
        } else {
            (LoopState::Drain, Effect { forward: Some(Dest::Stdout), redraw: false })
        },
        Err(_) => (LoopState::Stopped, nothing()),
    }
}

/// What follows a read of the user's input: the bytes go to the pseudo-terminal.
pub open spec fn after_stdin(seq: SeqState, result: Result<Seq<u8>, i32>) -> (LoopState, Effect) {
    match result {
        Ok(data) => if data.len() == 0 {
            (LoopState::Stopped, nothing())
        } else {
            (LoopState::Poll { seq }, Effect { forward: Some(Dest::Master), redraw: false })
        },
        Err(errno) => (
            if fault(errno) == Fault::Interrupted {
                LoopState::Poll { seq }
            } else {
                LoopState::Stopped
            },
            nothing(),
        ),
    }
}

/// The bytes that a read gave, or its error.
pub open spec fn bytes_read(result: Result<&[u8], i32>) -> Result<Seq<u8>, i32> {
    match result {
        Ok(data) => Ok(data@),
        Err(errno) => Err(errno),
    }
}

/// What the loop does next, and what is to be done before.
pub open spec fn next(state: LoopState, event: LoopEvent<'_>) -> (LoopState, Effect) {
    match (state, event) {
        (LoopState::Poll { seq }, LoopEvent::Polled { result, master, stdin }) => after_poll(
            seq,
            result,
            master,
            stdin,
        ),
        (LoopState::ReadMaster { seq, master, stdin }, LoopEvent::Read(result)) => after_master(
            seq,
            master,
            stdin,
            bytes_read(result),
        ),
        (LoopState::Drain, LoopEvent::Read(result)) => after_drain(bytes_read(result)),
        (LoopState::ReadStdin { seq }, LoopEvent::Read(result)) => after_stdin(
            seq,
            bytes_read(result),
        ),
        _ => (state, nothing()),
    }
}

/// Executable `then_stdin`.
fn check_stdin(seq: SeqState, stdin: Option<i16>) -> (r: LoopState)
    ensures
        r == then_stdin(seq, stdin),
{
    match stdin {
        Some(events) => {
            if has_event(events, PollEvent::Input) {
                LoopState::ReadStdin { seq }
            } else {
                LoopState::Poll { seq }
            }
        },
        None => LoopState::Poll { seq },
    }
}

/// Executable `then_hang_up`.
fn check_hang_up(seq: SeqState, master: i16, stdin: Option<i16>) -> (r: LoopState)
    ensures
        r == then_hang_up(seq, master, stdin),
{
    if has_event(master, PollEvent::HangUp) || has_event(master, PollEvent::Error) {
        LoopState::Drain
    } else {
        check_stdin(seq, stdin)
    }
}

impl LoopState {
    /// The loop at its start: nothing was read yet.
    pub fn new() -> (r: LoopState)
        ensures
            r == LoopState::start(),
    {
        LoopState::Poll { seq: SeqState::Normal }
    }

    /// Whether `event` is an outcome of the call that the loop waits for.
    pub fn is_answered_by(&self, event: &LoopEvent<'_>) -> (r: bool)
        ensures
            r == self.accepts(*event),
    {
        match (self, event) {
            (LoopState::Poll { .. }, LoopEvent::Polled { .. }) => true,
            (LoopState::ReadMaster { .. }, LoopEvent::Read(_)) => true,
            (LoopState::Drain, LoopEvent::Read(_)) => true,
            (LoopState::ReadStdin { .. }, LoopEvent::Read(_)) => true,
            _ => false,
        }
    }
}

/// Takes one step of the loop: `event` is the outcome of the call that `state` waits
/// for. Returns the next state, and what is to be done before the next call.
pub fn io_loop(state: LoopState, event: LoopEvent<'_>) -> (r: (LoopState, Effect))
    requires
        state.accepts(event),
    ensures
        r == next(state, event),
{
    let idle = Effect { forward: None, redraw: false };
    match (state, event) {
        (LoopState::Poll { seq }, LoopEvent::Polled { result, master, stdin }) => match result {
            Ok(n) => {
                if n == 0 {
                    let put_off = seq != SeqState::Normal;
                    return (
                        LoopState::Poll { seq: SeqState::Normal },
                        Effect { forward: None, redraw: put_off },
                    );
                }
                match master {
                    Some(events) => {
                        if has_event(events, PollEvent::Input) {
                            (LoopState::ReadMaster { seq, master: events, stdin }, idle)
                        } else {
                            (check_hang_up(seq, events, stdin), idle)
                        }
                    },
                    None => (check_stdin(seq, stdin), idle),
                }
            },
            Err(errno) => match fault_of(errno) {
                Fault::Interrupted => (LoopState::Poll { seq }, idle),
                Fault::Io => (LoopState::Stopped, idle),
                Fault::Other => (LoopState::Stopped, idle),
            },
        },
        (LoopState::ReadMaster { seq, master, stdin }, LoopEvent::Read(result)) => match result {
            Ok(data) => {
                if data.len() == 0 {
                    return (LoopState::Stopped, idle);
                }
                let mut now = seq;
                now.update(data);
                let redraw = now == SeqState::Normal;
                (
                    check_hang_up(now, master, stdin),
                    Effect { forward: Some(Dest::Stdout), redraw },
                )
            },
            Err(errno) => match fault_of(errno) {
                Fault::Interrupted => (check_hang_up(seq, master, stdin), idle),
                Fault::Io => (LoopState::Stopped, idle),
                Fault::Other => (LoopState::Stopped, idle),
            },
        },
        (LoopState::Drain, LoopEvent::Read(result)) => match result {
            Ok(data) => {
                if data.len() == 0 {
                    return (LoopState::Stopped, idle);
                }
                (LoopState::Drain, Effect { forward: Some(Dest::Stdout), redraw: false })
            },
            Err(_) => (LoopState::Stopped, idle),
        },
        (LoopState::ReadStdin { seq }, LoopEvent::Read(result)) => match result {
            Ok(data) => {
                if data.len() == 0 {
                    return (LoopState::Stopped, idle);
                }
                (LoopState::Poll { seq }, Effect { forward: Some(Dest::Master), redraw: false })
            },
            Err(errno) => match fault_of(errno) {
                Fault::Interrupted => (LoopState::Poll { seq }, idle),
                Fault::Io => (LoopState::Stopped, idle),
                Fault::Other => (LoopState::Stopped, idle),
            },
        },
        _ => (state, idle),
    }
}

/// The state after a series of events, from the start.
pub open spec fn state_after(events: Seq<LoopEvent<'_>>) -> LoopState
    decreases events.len(),
{
    if events.len() == 0 {
        LoopState::start()
    } else {
        next(state_after(events.drop_last()), events.last()).0
    }
}

/// What is to be done about the last of a series of events.
pub open spec fn last_effect(events: Seq<LoopEvent<'_>>) -> Effect
    recommends
        events.len() > 0,
{
    next(state_after(events.drop_last()), events.last()).1
}

/// Whether a series of events is one that the loop can go through: each answers
/// the call that was waited for.
pub open spec fn answers(events: Seq<LoopEvent<'_>>) -> bool
    decreases events.len(),
{
    events.len() == 0 || {
        &&& answers(events.drop_last())
        &&& state_after(events.drop_last()).accepts(events.last())
    }
}

/// The bytes that came with an event.
pub open spec fn data_of(event: LoopEvent<'_>) -> Seq<u8> {
    match event {
        LoopEvent::Read(Ok(data)) => data@,
        _ => seq![],
    }
}

/// All that the child wrote, as far as the loop has read it.
pub open spec fn child_output(events: Seq<LoopEvent<'_>>) -> Seq<u8>
    decreases events.len(),
{
    if events.len() == 0 {
        seq![]
    } else {
        let before = child_output(events.drop_last());
        match state_after(events.drop_last()) {
            LoopState::ReadMaster { .. } | LoopState::Drain => before + data_of(events.last()),
            _ => before,
        }
    }
}

/// All that the user typed, as far as the loop has read it.
pub open spec fn user_input(events: Seq<LoopEvent<'_>>) -> Seq<u8>
    decreases events.len(),
{
    if events.len() == 0 {
        seq![]
    } else {
        let before = user_input(events.drop_last());
        match state_after(events.drop_last()) {
            LoopState::ReadStdin { .. } => before + data_of(events.last()),
            _ => before,
        }
    }
}

/// All that the loop has handed on to `to`.
pub open spec fn forwarded(events: Seq<LoopEvent<'_>>, to: Dest) -> Seq<u8>
    decreases events.len(),
{
    if events.len() == 0 {
        seq![]
    } else {
        let before = forwarded(events.drop_last(), to);
        if last_effect(events).forward == Some(to) {
            before + data_of(events.last())
        } else {
            before
        }
    }
}

/// Whether the last of a series of events is that polling timed out.
pub open spec fn timed_out(events: Seq<LoopEvent<'_>>) -> bool {
    &&& events.len() > 0
    &&& events.last() matches LoopEvent::Polled { result: Ok(0), .. }
}

/// What the child wrote since it last fell silent.
pub open spec fn recent_output(events: Seq<LoopEvent<'_>>) -> Seq<u8>
    decreases events.len(),
{
    if events.len() == 0 {
        seq![]
    } else {
        let before = recent_output(events.drop_last());
        match state_after(events.drop_last()) {
            LoopState::Poll { .. } => if timed_out(events) {
                seq![]
            } else {
                before
            },
            LoopState::ReadMaster { .. } => before + data_of(events.last()),
            _ => before,
        }
    }
}

/// All bytes are handed on as they are, in both directions: the terminal gets what
/// the child wrote, and the child gets what the user typed.
pub proof fn law_bytes_are_forwarded_verbatim(events: Seq<LoopEvent<'_>>)
    requires
        answers(events),
    ensures
        forwarded(events, Dest::Stdout) == child_output(events),
        forwarded(events, Dest::Master) == user_input(events),
    decreases events.len(),
{
    if events.len() > 0 {
        law_bytes_are_forwarded_verbatim(events.drop_last());
    }
}

/// The loop knows whether the child's recent output ends inside of a control
/// sequence.
proof fn lemma_state_follows_output(events: Seq<LoopEvent<'_>>)
    requires
        answers(events),
    ensures
        match state_after(events) {
            LoopState::Poll { seq } => seq == SeqState::Normal.after(recent_output(events)),
            LoopState::ReadMaster { seq, .. } => seq == SeqState::Normal.after(
                recent_output(events),
            ),
            LoopState::ReadStdin { seq } => seq == SeqState::Normal.after(recent_output(events)),
            _ => true,
        },
    decreases events.len(),
{
    if events.len() > 0 {
        let before = events.drop_last();
        lemma_state_follows_output(before);
        if state_after(before) is ReadMaster {
            law_chunks_compose(
                SeqState::Normal,
                recent_output(before),
                data_of(events.last()),
            );
            if data_of(events.last()).len() == 0 {
                assert(recent_output(before) + data_of(events.last()) == recent_output(before));
            }
        }
    }
}

/// The bar is drawn again in two cases and no others: after output of the child
/// that ends outside of any control sequence, and when the child falls silent
/// inside of one.
pub proof fn law_bar_is_drawn_between_sequences(events: Seq<LoopEvent<'_>>)
    requires
        events.len() > 0,
        answers(events),
    ensures
        last_effect(events).redraw == {
            ||| state_after(events.drop_last()) is ReadMaster && data_of(events.last()).len() > 0
                && SeqState::Normal.after(recent_output(events)) == SeqState::Normal
            ||| timed_out(events) && SeqState::Normal.after(recent_output(events.drop_last()))
                != SeqState::Normal
        },
{
    let before = events.drop_last();
    lemma_state_follows_output(before);
    if state_after(before) is ReadMaster {
        law_chunks_compose(
            SeqState::Normal,
            recent_output(before),
            data_of(events.last()),
        );
    }
}

/// What came before a series of events that the loop can go through is such a series too.
proof fn lemma_answers_before(events: Seq<LoopEvent<'_>>, n: int)
    requires
        answers(events),
        0 <= n <= events.len(),
    ensures
        answers(events.take(n)),
    decreases events.len(),
{
    if n == events.len() {
        assert(events.take(n) == events);
    } else {
        assert(events.drop_last().take(n) == events.take(n));
        lemma_answers_before(events.drop_last(), n);
    }
}

/// After output with a reset of the scroll region anywhere in it, cut into reads in any way,
/// the bar is put back in place: at once if the output ends outside of any control sequence,
/// and else when the child falls silent, whatever the loop does until then.
pub proof fn law_bar_outlives_a_reset(events: Seq<LoopEvent<'_>>, later: Seq<LoopEvent<'_>>)
    requires
        events.len() > 0,
        events.is_prefix_of(later),
        answers(later),
        state_after(events.drop_last()) is ReadMaster,
        data_of(events.last()).len() > 0,
        has_reset(recent_output(events)),
        timed_out(later),
        recent_output(later.drop_last()) == recent_output(events),
    ensures
        SeqState::Normal.after(recent_output(events)) == SeqState::Normal ==> last_effect(
            events,
        ).redraw,
        SeqState::Normal.after(recent_output(events)) != SeqState::Normal ==> last_effect(
            later,
        ).redraw,
{
    lemma_answers_before(later, events.len() as int);
    assert(later.take(events.len() as int) == events);
    law_bar_is_drawn_between_sequences(events);
    law_bar_is_drawn_between_sequences(later);
}

/// Whether the bar was drawn after the last byte that the child wrote.
pub open spec fn is_drawn(events: Seq<LoopEvent<'_>>) -> bool {
    exists|n: int|
        0 < n <= events.len() && #[trigger] last_effect(events.take(n)).redraw && child_output(
            events.take(n),
        ) == child_output(events)
}

/// While the child is there, the bar was drawn after the last byte that the child wrote, or
/// that byte is inside of a control sequence.
proof fn lemma_bar_is_drawn_or_put_off(events: Seq<LoopEvent<'_>>)
    requires
        answers(events),
        child_output(events).len() > 0,
        state_after(events) is Poll || state_after(events) is ReadMaster || state_after(
            events,
        ) is ReadStdin,
    ensures
        is_drawn(events) || SeqState::Normal.after(recent_output(events)) != SeqState::Normal,
    decreases events.len(),
{
    let before = events.drop_last();
    let len = events.len() as int;
    assert(events.take(len) == events);
    law_bar_is_drawn_between_sequences(events);
    if last_effect(events).redraw {
        assert(last_effect(events.take(len)).redraw);
    } else if data_of(events.last()).len() == 0 || !(state_after(before) is ReadMaster) {
        if state_after(before) is ReadMaster {
            assert(child_output(before) + data_of(events.last()) == child_output(before));
            assert(recent_output(before) + data_of(events.last()) == recent_output(before));
        }
        lemma_bar_is_drawn_or_put_off(before);
        if is_drawn(before) {
            let n = choose|n: int|
                0 < n <= before.len() && #[trigger] last_effect(before.take(n)).redraw
                    && child_output(before.take(n)) == child_output(before);
            assert(before.take(n) == events.take(n));
            assert(last_effect(events.take(n)).redraw);
        }
    }
}

/// Whenever the child has fallen silent, the bar was drawn after the last byte that the child
/// wrote. So it is in place, whatever the child did to the screen.
pub proof fn law_bar_is_in_place_in_silence(events: Seq<LoopEvent<'_>>)
    requires
        answers(events),
        timed_out(events),
        child_output(events).len() > 0,
    ensures
        is_drawn(events),
{
    lemma_bar_is_drawn_or_put_off(events);
}

/// Once the child hung up, the loop only reads on until the pseudo-terminal gives
/// nothing more, and then ends.
pub proof fn law_hang_up_ends_the_loop(event: LoopEvent<'_>)
    requires
        LoopState::Drain.accepts(event),
    ensures
        next(LoopState::Drain, event).0 == if data_of(event).len() > 0 {
            LoopState::Drain
        } else {
            LoopState::Stopped
        },
        !next(LoopState::Drain, event).1.redraw,
{
}

/// A call that a signal interrupted has no effect, and does not end the loop, while
/// the child is there.
pub proof fn law_interruption_is_harmless(state: LoopState, event: LoopEvent<'_>, errno: i32)
    requires
        state.accepts(event),
        !(state is Drain),
        errno == 4,
        match event {
            LoopEvent::Polled { result, .. } => result == Err::<i32, i32>(errno),
            LoopEvent::Read(result) => result == Err::<&[u8], i32>(errno),
        },
    ensures
        next(state, event).1.forward is None,
        !next(state, event).1.redraw,
        !(next(state, event).0 is Stopped),
        state is Poll || state is ReadStdin ==> next(state, event).0 is Poll,
        sequence(next(state, event).0) matches Some(seq) ==> sequence(state) == Some(seq),
{
}

/// Where the child's output stands, as far as it is kept track of.
pub open spec fn sequence(state: LoopState) -> Option<SeqState> {
    match state {
        LoopState::Poll { seq } => Some(seq),
        LoopState::ReadMaster { seq, .. } => Some(seq),
        LoopState::ReadStdin { seq } => Some(seq),
        _ => None,
    }
}

/// Whether the events of a descriptor say that there is input.
pub open spec fn has_input(events: Option<i16>) -> bool {
    events matches Some(bits) && bits & 0x1 == 0x1
}

/// Whether the events of the pseudo-terminal say that the child has left it.
pub open spec fn is_left(events: Option<i16>) -> bool {
    events matches Some(bits) && (bits & 0x8 == 0x8 || bits & 0x10 == 0x10)
}

/// Each state but the last waits for one kind of outcome, and takes every one of that kind.
pub proof fn law_each_state_takes_its_outcome(state: LoopState, event: LoopEvent<'_>)
    ensures
        state.accepts(event) <==> {
            ||| state is Poll && event is Polled
            ||| (state is ReadMaster || state is Drain || state is ReadStdin) && event is Read
        },
{
}

/// When polling reports something, however much, what it reports is read: the child's output
/// first; what is left of it if the child has left; else the user's input. Nothing is done
/// before that, and the loop does not forget where the output stands.
pub proof fn law_what_polling_reports_is_read(
    seq: SeqState,
    count: i32,
    master: Option<i16>,
    stdin: Option<i16>,
)
    requires
        count != 0,
    ensures
        ({
            let event = LoopEvent::Polled { result: Ok(count), master, stdin };
            let (state, effect) = next(LoopState::Poll { seq }, event);
            &&& has_input(master) ==> state == (LoopState::ReadMaster {
                seq,
                master: master->0,
                stdin,
            })
            &&& !has_input(master) && is_left(master) ==> state == LoopState::Drain
            &&& !has_input(master) && !is_left(master) && has_input(stdin) ==> state == (
            LoopState::ReadStdin { seq })
            &&& !has_input(master) && !is_left(master) && !has_input(stdin) ==> state == (
            LoopState::Poll { seq })
            &&& effect.forward is None
            &&& !effect.redraw
        }),
{
}

/// When polling times out, the loop polls again, between sequences, and makes up for a redraw
/// exactly if the output stood inside of one.
pub proof fn law_silence_makes_up_for_a_redraw(
    seq: SeqState,
    master: Option<i16>,
    stdin: Option<i16>,
)
    ensures
        ({
            let event = LoopEvent::Polled { result: Ok(0), master, stdin };
            let (state, effect) = next(LoopState::Poll { seq }, event);
            &&& state == (LoopState::Poll { seq: SeqState::Normal })
            &&& effect.forward is None
            &&& effect.redraw <==> seq is Esc || seq is Csi || seq is Osc
        }),
{
}

/// After a read of the pseudo-terminal, or an interrupted one, the rest of what polling
/// reported is seen to: what the child left behind is read, or else the user's input, or else
/// the loop polls again.
pub proof fn law_the_rest_is_seen_to(
    seq: SeqState,
    master: i16,
    stdin: Option<i16>,
    result: Result<&[u8], i32>,
)
    requires
        match result {
            Ok(data) => data@.len() > 0,
            Err(errno) => errno == 4,
        },
    ensures
        ({
            let before = LoopState::ReadMaster { seq, master, stdin };
            let now = match result {
                Ok(data) => seq.after(data@),
                Err(_) => seq,
            };
            let (state, effect) = next(before, LoopEvent::Read(result));
            &&& is_left(Some(master)) ==> state == LoopState::Drain
            &&& !is_left(Some(master)) && has_input(stdin) ==> state == (LoopState::ReadStdin {
                seq: now,
            })
            &&& !is_left(Some(master)) && !has_input(stdin) ==> state == (LoopState::Poll {
                seq: now,
            })
            &&& effect.forward == match result {
                Ok(_) => Some(Dest::Stdout),
                Err(_) => None,
            }
            &&& effect.redraw <==> result is Ok && now is Normal
        }),
{
}

/// What the user typed goes to the child, and the loop polls again. The bar is left alone.
pub proof fn law_input_goes_to_the_child(seq: SeqState, data: &[u8])
    requires
        data@.len() > 0,
    ensures
        ({
            let (state, effect) = next(LoopState::ReadStdin { seq }, LoopEvent::Read(Ok(data)));
            &&& state == (LoopState::Poll { seq })
            &&& effect.forward == Some(Dest::Master)
            &&& !effect.redraw
        }),
{
}

/// What is left in the pseudo-terminal goes to the real one, and there may be more.
pub proof fn law_leftover_goes_to_the_terminal(data: &[u8])
    requires
        data@.len() > 0,
    ensures
        ({
            let (state, effect) = next(LoopState::Drain, LoopEvent::Read(Ok(data)));
            &&& state == LoopState::Drain
            &&& effect.forward == Some(Dest::Stdout)
            &&& !effect.redraw
        }),
{
}

/// The loop ends in these cases and no others: a call fails, and was not merely interrupted
/// while the child is there; or a read comes to the end of its stream. A successful poll never
/// ends it. With its end nothing is written or drawn.
pub proof fn law_loop_ends_only_at_an_end(state: LoopState, event: LoopEvent<'_>)
    requires
        state.accepts(event),
    ensures
        next(state, event).0 is Stopped <==> match event {
            LoopEvent::Polled { result: Ok(_), .. } => false,
            LoopEvent::Polled { result: Err(errno), .. } => errno != 4,
            LoopEvent::Read(Ok(data)) => data@.len() == 0,
            LoopEvent::Read(Err(errno)) => errno != 4 || state is Drain,
        },
        next(state, event).0 is Stopped ==> next(state, event).1.forward is None && !next(
            state,
            event,
        ).1.redraw,
{
}

/// Whatever the user does, and however often polling reports something, the session goes on:
/// as long as every call succeeds, no stream ends and the child does not leave, the loop is
/// not over.
pub proof fn law_session_goes_on(events: Seq<LoopEvent<'_>>)
    requires
        answers(events),
        forall|i: int| 0 <= i < events.len() ==> match #[trigger] events[i] {
            LoopEvent::Polled { result, master, .. } => result is Ok && !is_left(master),
            LoopEvent::Read(result) => result is Ok && data_of(events[i]).len() > 0,
        },
    ensures
        state_after(events) is Poll || state_after(events) is ReadStdin || (state_after(
            events,
        ) matches LoopState::ReadMaster { master, .. } && !is_left(Some(master))),
    decreases events.len(),
{
    if events.len() > 0 {
        let before = events.drop_last();
        assert forall|i: int| 0 <= i < before.len() implies match #[trigger] before[i] {
            LoopEvent::Polled { result, master, .. } => result is Ok && !is_left(master),
            LoopEvent::Read(result) => result is Ok && data_of(before[i]).len() > 0,
        } by {
            assert(before[i] == events[i]);
        }
        law_session_goes_on(before);
        assert(events[events.len() - 1] == events.last());
    }
}

/// After output that ends in a full terminal reset the bar is drawn at once, wherever the
/// output stood before.
pub proof fn law_bar_is_drawn_right_after_a_full_reset(
    seq: SeqState,
    master: i16,
    stdin: Option<i16>,
    data: &[u8],
    start: Seq<u8>,
)
    requires
        data@ == start + seq![0x1bu8, 0x63u8],
    ensures
        ({
            let before = LoopState::ReadMaster { seq, master, stdin };
            let effect = next(before, LoopEvent::Read(Ok(data))).1;
            effect.redraw && effect.forward == Some(Dest::Stdout)
        }),
{
    law_chunks_compose(seq, start, seq![0x1bu8, 0x63u8]);
    law_text_behind_an_escape_sequence(seq.after(start), 0x63, seq![]);
}

} // verus!
