//! Running a command behind a pseudo-terminal.
//!
//! One run is a state machine. Each state names the one operation that it waits for;
//! `run` takes the outcome of that operation and gives the next state.
use crate::termattrs::{make_raw, raw_mode, TermAttrs};
use crate::window::{initial_size, resized, WindowSize};
use vstd::prelude::*;

verus! {

/// The descriptor flag that closes a descriptor when a program is executed.
pub const FD_CLOEXEC: i32 = 1;

/// A pseudo-terminal: its two descriptors, and the size that it is given.
#[derive(Clone, Copy, Debug, PartialEq, Eq, Structural)]
pub struct Pty {
    pub master: i32,
    pub slave: i32,
    pub size: WindowSize,
}

/// Why a command could not be run. Errors of the system come as their text.
#[derive(Debug, PartialEq, Eq)]
pub enum PtyError {
    /// The terminal has no row beside that of the status bar.
    TooSmall,
    /// No pseudo-terminal could be opened.
    Open(String),
    /// The attributes of the real terminal could not be read.
    GetAttrs(String),
    /// The attributes of the real terminal could not be set.
    SetAttrs(String),
    /// The command could not be started.
    Spawn(String),
}

impl PtyError {
    /// The text of the message.
    pub open spec fn text(self) -> Seq<char> {
        match self {
            PtyError::TooSmall => "Terminal too small for status bar"@,
            PtyError::Open(e) => "openpty: "@ + e@,
            PtyError::GetAttrs(e) => "tcgetattr: "@ + e@,
            PtyError::SetAttrs(e) => "tcsetattr raw: "@ + e@,
            PtyError::Spawn(e) => "Failed to start sandbox: "@ + e@,
        }
    }

    /// The message for the user.
    pub fn message(&self) -> (r: String)
        ensures
            r@ == self.text(),
    {
        match self {
            PtyError::TooSmall => "Terminal too small for status bar".to_owned(),
            PtyError::Open(e) => "openpty: ".to_owned().concat(e.as_str()),
            PtyError::GetAttrs(e) => "tcgetattr: ".to_owned().concat(e.as_str()),
            PtyError::SetAttrs(e) => "tcsetattr raw: ".to_owned().concat(e.as_str()),
            PtyError::Spawn(e) => "Failed to start sandbox: ".to_owned().concat(e.as_str()),
        }
    }
}

/// What a run waits for.
#[derive(Debug, PartialEq, Eq)]
pub enum RunState {
    /// Ask the real terminal for its size.
    QuerySize,
    /// Open a pseudo-terminal, which is to get this size.
    OpenPty { size: WindowSize },
    /// Get the descriptor flags of the master side.
    GetFdFlags { pty: Pty },
    /// Set the descriptor flags of the master side, so that the child does not
    /// inherit it.
    SetFdFlags { pty: Pty, flags: i32 },
    /// Give the pseudo-terminal its size.
    SetSize { pty: Pty },
    /// Make the master side known to whoever handles a resize.
    StoreMaster { pty: Pty },
    /// Get the attributes of the real terminal.
    GetAttrs { pty: Pty },
    /// Set these attributes of the real terminal: raw mode.
    SetRaw { pty: Pty, saved: TermAttrs, raw: TermAttrs },
    /// Start the command, with the slave side as its terminal.
    Spawn { pty: Pty, saved: TermAttrs },
    /// Make the child known to whoever handles signals.
    SetChildPid { pty: Pty, saved: TermAttrs, pid: i32 },
    /// Close the slave side, of which the child, if there is one, has its own copy.
    /// `undo` are the attributes that the real terminal had, if they were changed.
    CloseSlave { pty: Pty, undo: Option<TermAttrs>, child: Result<i32, PtyError> },
    /// Run the loop that moves the bytes, until it ends.
    IoLoop { pty: Pty, undo: Option<TermAttrs>, pid: i32 },
    /// Let it be known that there is no master side any more.
    ClearMaster { pty: Pty, undo: Option<TermAttrs>, pid: i32 },
    /// Close the master side.
    CloseMaster { pty: Pty, undo: Option<TermAttrs>, child: Result<i32, PtyError> },
    /// Set the attributes of the real terminal as they were before.
    Restore { saved: TermAttrs, child: Result<i32, PtyError> },
    /// Wait for the child to exit.
    Wait { pid: i32 },
    /// Forget the handle of the child, which was waited for.
    Forget { code: i32 },
    /// Nothing: the run is over, with the exit code of the command or an error.
    Finished(Result<i32, PtyError>),
}

/// The outcome of an operation.
#[derive(Debug, PartialEq, Eq)]
pub enum RunReply {
    /// The rows and columns of the real terminal, if they are known.
    Size(Option<(u16, u16)>),
    /// The master and the slave side of a new pseudo-terminal, or the error.
    Opened(Result<(i32, i32), String>),
    /// The descriptor flags.
    FdFlags(i32),
    /// The attributes of the real terminal, or the error.
    Attrs(Result<TermAttrs, String>),
    /// Whether the attributes were set.
    AttrsSet(Result<(), String>),
    /// The process of the child, or the error.
    Spawned(Result<u32, String>),
    /// The exit code of the child.
    Exited(i32),
    /// The operation is done and has no outcome that matters.
    Done,
}

impl RunState {
    /// Whether `reply` is an outcome of the operation that is waited for.
    pub open spec fn accepts(self, reply: RunReply) -> bool {
        match self {
            RunState::QuerySize => reply is Size,
            RunState::OpenPty { .. } => reply is Opened,
            RunState::GetFdFlags { .. } => reply is FdFlags,
            RunState::GetAttrs { .. } => reply is Attrs,
            RunState::SetRaw { .. } => reply is AttrsSet,
            RunState::Spawn { .. } => reply is Spawned,
            RunState::Wait { .. } => reply is Exited,
            RunState::Finished(_) => false,
            _ => reply is Done,
        }
    }

    /// Whether `reply` is an outcome of the operation that is waited for.
    pub fn is_answered_by(&self, reply: &RunReply) -> (r: bool)
        ensures
            r == self.accepts(*reply),
    {
        match self {
            RunState::QuerySize => matches!(reply, RunReply::Size(_)),
            RunState::OpenPty { .. } => matches!(reply, RunReply::Opened(_)),
            RunState::GetFdFlags { .. } => matches!(reply, RunReply::FdFlags(_)),
            RunState::GetAttrs { .. } => matches!(reply, RunReply::Attrs(_)),
            RunState::SetRaw { .. } => matches!(reply, RunReply::AttrsSet(_)),
            RunState::Spawn { .. } => matches!(reply, RunReply::Spawned(_)),
            RunState::Wait { .. } => matches!(reply, RunReply::Exited(_)),
            RunState::Finished(_) => false,
            _ => matches!(reply, RunReply::Done),
        }
    }
}

/// The size of a pseudo-terminal behind a terminal of this size, 24 by 80 if it is not
/// known: one row is kept for the status bar.
pub open spec fn child_size(size: Option<(u16, u16)>) -> Option<WindowSize> {
    let (rows, cols) = match size {
        Some((rows, cols)) => (rows, cols),
        None => (24u16, 80u16),
    };
    if rows < 2 {
        None
    } else {
        Some(WindowSize { rows: (rows - 1) as u16, cols, xpixel: 0, ypixel: 0 })
    }
}

/// What a run waits for once the real terminal is as it was before: for the child, or for
/// nothing if there is none.
pub open spec fn after_restore(child: Result<i32, PtyError>) -> RunState {
    match child {
        Ok(pid) => RunState::Wait { pid },
        Err(e) => RunState::Finished(Err(e)),
    }
}

/// How a run that failed is wound up: both sides of the pseudo-terminal are closed, and the
/// real terminal is set back if it was changed.
pub open spec fn wind_up(pty: Pty, undo: Option<TermAttrs>, e: PtyError) -> RunState {
    RunState::CloseSlave { pty, undo, child: Err(e) }
}

/// What a run waits for next.
pub open spec fn run_next(state: RunState, reply: RunReply) -> RunState {
    match (state, reply) {
        (RunState::QuerySize, RunReply::Size(size)) => match child_size(size) {
            Some(size) => RunState::OpenPty { size },
            None => RunState::Finished(Err(PtyError::TooSmall)),
        },
        (RunState::OpenPty { size }, RunReply::Opened(opened)) => match opened {
            Ok((master, slave)) => RunState::GetFdFlags { pty: Pty { master, slave, size } },
            Err(e) => RunState::Finished(Err(PtyError::Open(e))),
        },
        (RunState::GetFdFlags { pty }, RunReply::FdFlags(flags)) => RunState::SetFdFlags {
            pty,
            flags: flags | FD_CLOEXEC,
        },
        (RunState::SetFdFlags { pty, .. }, RunReply::Done) => RunState::SetSize { pty },
        (RunState::SetSize { pty }, RunReply::Done) => RunState::StoreMaster { pty },
        (RunState::StoreMaster { pty }, RunReply::Done) => RunState::GetAttrs { pty },
        (RunState::GetAttrs { pty }, RunReply::Attrs(attrs)) => match attrs {
            Ok(saved) => RunState::SetRaw { pty, saved, raw: raw_mode(saved) },
            Err(e) => wind_up(pty, None, PtyError::GetAttrs(e)),
        },
        (RunState::SetRaw { pty, saved, .. }, RunReply::AttrsSet(set)) => match set {
            Ok(_) => RunState::Spawn { pty, saved },
            Err(e) => wind_up(pty, None, PtyError::SetAttrs(e)),
        },
        (RunState::Spawn { pty, saved }, RunReply::Spawned(spawned)) => match spawned {
            Ok(pid) => RunState::SetChildPid { pty, saved, pid: pid as i32 },
            Err(e) => wind_up(pty, Some(saved), PtyError::Spawn(e)),
        },
        (RunState::SetChildPid { pty, saved, pid }, RunReply::Done) => RunState::CloseSlave {
            pty,
            undo: Some(saved),
            child: Ok(pid),
        },
        (RunState::CloseSlave { pty, undo, child }, RunReply::Done) => match child {
            Ok(pid) => RunState::IoLoop { pty, undo, pid },
            Err(e) => RunState::CloseMaster { pty, undo, child: Err(e) },
        },
        (RunState::IoLoop { pty, undo, pid }, RunReply::Done) => RunState::ClearMaster {
            pty,
            undo,
            pid,
        },
        (RunState::ClearMaster { pty, undo, pid }, RunReply::Done) => RunState::CloseMaster {
            pty,
            undo,
            child: Ok(pid),
        },
        (RunState::CloseMaster { undo, child, .. }, RunReply::Done) => match undo {
            Some(saved) => RunState::Restore { saved, child },
            None => after_restore(child),
        },
        (RunState::Restore { child, .. }, RunReply::Done) => after_restore(child),
        (RunState::Wait { .. }, RunReply::Exited(code)) => RunState::Forget { code },
        (RunState::Forget { code }, RunReply::Done) => RunState::Finished(Ok(code)),
        _ => state,
    }
}

/// Executable `after_restore`.
fn restored(child: Result<i32, PtyError>) -> (r: RunState)
    ensures
        r == after_restore(child),
{
    match child {
        Ok(pid) => RunState::Wait { pid },
        Err(e) => RunState::Finished(Err(e)),
    }
}

/// Takes one step of running a command behind a pseudo-terminal: `reply` is the outcome
/// of the operation that `state` waits for. Returns what is waited for next. A run
/// begins with `RunState::QuerySize`.
pub fn run(state: RunState, reply: RunReply) -> (r: RunState)
    requires
        state.accepts(reply),
    ensures
        r == run_next(state, reply),
{
    match (state, reply) {
        (RunState::QuerySize, RunReply::Size(size)) => {
            let (rows, cols): (u16, u16) = match size {
                Some((rows, cols)) => (rows, cols),
                None => (24, 80),
            };
            if rows < 2 {
                return RunState::Finished(Err(PtyError::TooSmall));
            }
            RunState::OpenPty { size: initial_size(rows - 1, cols) }
        },
        (RunState::OpenPty { size }, RunReply::Opened(opened)) => match opened {
            Ok((master, slave)) => RunState::GetFdFlags { pty: Pty { master, slave, size } },
            Err(e) => RunState::Finished(Err(PtyError::Open(e))),
        },
        (RunState::GetFdFlags { pty }, RunReply::FdFlags(flags)) => RunState::SetFdFlags {
            pty,
            flags: flags | FD_CLOEXEC,
        },
        (RunState::SetFdFlags { pty, .. }, RunReply::Done) => RunState::SetSize { pty },
        (RunState::SetSize { pty }, RunReply::Done) => RunState::StoreMaster { pty },
        (RunState::StoreMaster { pty }, RunReply::Done) => RunState::GetAttrs { pty },
        (RunState::GetAttrs { pty }, RunReply::Attrs(attrs)) => match attrs {
            Ok(saved) => {
                let raw = make_raw(&saved);
                RunState::SetRaw { pty, saved, raw }
            },
            Err(e) => RunState::CloseSlave { pty, undo: None, child: Err(PtyError::GetAttrs(e)) },
        },
        (RunState::SetRaw { pty, saved, .. }, RunReply::AttrsSet(set)) => match set {
            Ok(_) => RunState::Spawn { pty, saved },
            Err(e) => RunState::CloseSlave { pty, undo: None, child: Err(PtyError::SetAttrs(e)) },
        },
        (RunState::Spawn { pty, saved }, RunReply::Spawned(spawned)) => match spawned {
            Ok(pid) => RunState::SetChildPid { pty, saved, pid: pid as i32 },
            Err(e) => {
                RunState::CloseSlave { pty, undo: Some(saved), child: Err(PtyError::Spawn(e)) }
            },
        },
        (RunState::SetChildPid { pty, saved, pid }, RunReply::Done) => {
            RunState::CloseSlave { pty, undo: Some(saved), child: Ok(pid) }
        },
        (RunState::CloseSlave { pty, undo, child }, RunReply::Done) => match child {
            Ok(pid) => RunState::IoLoop { pty, undo, pid },
            Err(e) => RunState::CloseMaster { pty, undo, child: Err(e) },
        },
        (RunState::IoLoop { pty, undo, pid }, RunReply::Done) => {
            RunState::ClearMaster { pty, undo, pid }
        },
        (RunState::ClearMaster { pty, undo, pid }, RunReply::Done) => {
            RunState::CloseMaster { pty, undo, child: Ok(pid) }
        },
        (RunState::CloseMaster { undo, child, .. }, RunReply::Done) => match undo {
            Some(saved) => RunState::Restore { saved, child },
            None => restored(child),
        },
        (RunState::Restore { child, .. }, RunReply::Done) => restored(child),
        (RunState::Wait { .. }, RunReply::Exited(code)) => RunState::Forget { code },
        (RunState::Forget { code }, RunReply::Done) => RunState::Finished(Ok(code)),
        (state, _) => state,
    }
}

/// What is waited for after a series of replies, from the start.
pub open spec fn run_after(replies: Seq<RunReply>) -> RunState
    decreases replies.len(),
{
    if replies.len() == 0 {
        RunState::QuerySize
    } else {
        run_next(run_after(replies.drop_last()), replies.last())
    }
}

/// Whether a series of replies is one that a run can go through: each answers what
/// was waited for.
pub open spec fn run_answers(replies: Seq<RunReply>) -> bool
    decreases replies.len(),
{
    replies.len() == 0 || {
        &&& run_answers(replies.drop_last())
        &&& run_after(replies.drop_last()).accepts(replies.last())
    }
}

impl RunState {
    /// The place of a state in the order of a run that comes to its end.
    pub open spec fn stage(self) -> nat {
        match self {
            RunState::QuerySize => 0,
            RunState::OpenPty { .. } => 1,
            RunState::GetFdFlags { .. } => 2,
            RunState::SetFdFlags { .. } => 3,
            RunState::SetSize { .. } => 4,
            RunState::StoreMaster { .. } => 5,
            RunState::GetAttrs { .. } => 6,
            RunState::SetRaw { .. } => 7,
            RunState::Spawn { .. } => 8,
            RunState::SetChildPid { .. } => 9,
            RunState::CloseSlave { .. } => 10,
            RunState::IoLoop { .. } => 11,
            RunState::ClearMaster { .. } => 12,
            RunState::CloseMaster { .. } => 13,
            RunState::Restore { .. } => 14,
            RunState::Wait { .. } => 15,
            RunState::Forget { .. } => 16,
            RunState::Finished(_) => 17,
        }
    }

    /// The size of the pseudo-terminal, in the states that have one.
    pub open spec fn size(self) -> Option<WindowSize> {
        match self {
            RunState::OpenPty { size } => Some(size),
            _ => match self.pty() {
                Some(pty) => Some(pty.size),
                None => None,
            },
        }
    }

    /// The pseudo-terminal, in the states that have it open.
    pub open spec fn pty(self) -> Option<Pty> {
        match self {
            RunState::GetFdFlags { pty } => Some(pty),
            RunState::SetFdFlags { pty, .. } => Some(pty),
            RunState::SetSize { pty } => Some(pty),
            RunState::StoreMaster { pty } => Some(pty),
            RunState::GetAttrs { pty } => Some(pty),
            RunState::SetRaw { pty, .. } => Some(pty),
            RunState::Spawn { pty, .. } => Some(pty),
            RunState::SetChildPid { pty, .. } => Some(pty),
            RunState::CloseSlave { pty, .. } => Some(pty),
            RunState::IoLoop { pty, .. } => Some(pty),
            RunState::ClearMaster { pty, .. } => Some(pty),
            RunState::CloseMaster { pty, .. } => Some(pty),
            _ => None,
        }
    }

    /// The attributes that the real terminal is to be set back to, in the states in which
    /// it has others.
    pub open spec fn undo(self) -> Option<TermAttrs> {
        match self {
            RunState::Spawn { saved, .. } => Some(saved),
            RunState::SetChildPid { saved, .. } => Some(saved),
            RunState::CloseSlave { undo, .. } => undo,
            RunState::IoLoop { undo, .. } => undo,
            RunState::ClearMaster { undo, .. } => undo,
            RunState::CloseMaster { undo, .. } => undo,
            RunState::Restore { saved, .. } => Some(saved),
            _ => None,
        }
    }

    /// The child that was started, or why there is none, in the states that know.
    pub open spec fn child(self) -> Option<Result<i32, PtyError>> {
        match self {
            RunState::SetChildPid { pid, .. } => Some(Ok(pid)),
            RunState::CloseSlave { child, .. } => Some(child),
            RunState::IoLoop { pid, .. } => Some(Ok(pid)),
            RunState::ClearMaster { pid, .. } => Some(Ok(pid)),
            RunState::CloseMaster { child, .. } => Some(child),
            RunState::Restore { child, .. } => Some(child),
            RunState::Wait { pid } => Some(Ok(pid)),
            _ => None,
        }
    }

    /// Whether the state carries what the replies before it gave: the size of the
    /// terminal, the descriptors, the attributes, the child or what failed, and the exit
    /// code.
    pub open spec fn carries(self, replies: Seq<RunReply>) -> bool {
        &&& self.size() matches Some(size) ==> replies[0] matches RunReply::Size(terminal)
            && child_size(terminal) == Some(size)
        &&& self.pty() matches Some(pty) ==> replies[1] == RunReply::Opened(
            Ok((pty.master, pty.slave)),
        )
        &&& self matches RunState::SetFdFlags { flags, .. } ==> replies[2]
            matches RunReply::FdFlags(f) && flags == f | FD_CLOEXEC
        &&& self matches RunState::SetRaw { saved, raw, .. } ==> replies[6] == RunReply::Attrs(
            Ok(saved),
        ) && raw == raw_mode(saved)
        &&& self.undo() matches Some(saved) ==> replies[6] == RunReply::Attrs(Ok(saved))
            && attrs_were_set(replies)
        &&& self.child() matches Some(child) ==> match child {
            Ok(pid) => {
                &&& replies.len() == self.stage()
                &&& self is Wait || self.undo() is Some
                &&& replies[8] matches RunReply::Spawned(Ok(p)) && pid == p as i32
            },
            Err(e) => is_failure(replies, e, self.undo()),
        }
        &&& self matches RunState::Forget { code } ==> replies.len() == 16 && replies[15]
            == RunReply::Exited(code)
    }
}

/// Whether a run that has opened its pseudo-terminal failed with `e`, and is to set the
/// real terminal back to `undo`, if it has changed it.
pub open spec fn is_failure(
    replies: Seq<RunReply>,
    e: PtyError,
    undo: Option<TermAttrs>,
) -> bool {
    match e {
        PtyError::GetAttrs(text) => replies.len() >= 7 && replies[6] == RunReply::Attrs(Err(text))
            && undo is None && !attrs_were_set(replies),
        PtyError::SetAttrs(text) => replies.len() >= 8 && replies[7] == RunReply::AttrsSet(
            Err(text),
        ) && undo is None,
        PtyError::Spawn(text) => replies.len() >= 9 && replies[8] == RunReply::Spawned(Err(text))
            && undo is Some,
        _ => false,
    }
}

/// Whether raw mode was entered.
pub open spec fn attrs_were_set(replies: Seq<RunReply>) -> bool {
    replies.len() > 7 && (replies[7] matches RunReply::AttrsSet(Ok(_)))
}

/// A run takes its operations in one order, none twice, and what an operation is given is
/// what the operations before it gave. Up to the start of the child none is left out.
pub proof fn law_run_goes_in_order(replies: Seq<RunReply>)
    requires
        run_answers(replies),
    ensures
        replies.len() > 0 ==> run_after(replies.drop_last()).stage() < run_after(replies).stage(),
        run_after(replies).stage() <= 9 ==> run_after(replies).stage() == replies.len(),
        run_after(replies).carries(replies),
    decreases replies.len(),
{
    if replies.len() > 0 {
        let before = replies.drop_last();
        law_run_goes_in_order(before);
        assert(forall|i: int| 0 <= i < before.len() ==> before[i] == #[trigger] replies[i]);
    }
}

/// One step back in a run.
proof fn lemma_step_back(replies: Seq<RunReply>, n: int)
    requires
        run_answers(replies),
        0 < n <= replies.len(),
        run_answers(replies.take(n)),
    ensures
        run_after(replies.take(n)) == run_next(run_after(replies.take(n - 1)), replies[n - 1]),
        run_after(replies.take(n - 1)).accepts(replies[n - 1]),
        run_answers(replies.take(n - 1)),
        run_after(replies.take(n - 1)).carries(replies.take(n - 1)),
        run_after(replies.take(n - 1)).stage() <= 9 ==> run_after(replies.take(n - 1)).stage() == n
            - 1,
{
    assert(replies.take(n).drop_last() == replies.take(n - 1));
    law_run_goes_in_order(replies.take(n - 1));
}

/// The last steps of a run that has opened its pseudo-terminal: closing and setting back,
/// and after that, if there is a child, waiting for it and forgetting it.
proof fn lemma_last_steps(replies: Seq<RunReply>, result: Result<i32, PtyError>)
    requires
        run_answers(replies),
        run_after(replies) == RunState::Finished(result),
        was_opened(replies),
    ensures
        exists|n: int|
            0 <= n < replies.len() && #[trigger] run_after(replies.take(n)) is CloseSlave,
        exists|n: int|
            0 <= n < replies.len() && #[trigger] run_after(replies.take(n)) is CloseMaster,
        attrs_were_set(replies) ==> exists|n: int|
            0 <= n < replies.len() && is_restoring(#[trigger] run_after(replies.take(n)), replies),
        match result {
            Ok(code) => {
                &&& replies.len() == 17
                &&& attrs_were_set(replies)
                &&& replies[15] == RunReply::Exited(code)
                &&& exists|n: int|
                    0 <= n < replies.len() && is_waiting(
                        #[trigger] run_after(replies.take(n)),
                        replies,
                    )
                &&& exists|n: int|
                    0 <= n < replies.len() && #[trigger] run_after(replies.take(n)) is ClearMaster
            },
            Err(e) => is_failure(
                replies,
                e,
                if attrs_were_set(replies) {
                    Some(replies[6]->Attrs_0->Ok_0)
                } else {
                    None
                },
            ),
        },
{
    let len = replies.len() as int;
    assert(replies.take(len) == replies);
    lemma_step_back(replies, len);
    if run_after(replies.take(len - 1)) is Forget {
        lemma_step_back(replies, len - 1);
        assert(is_waiting(run_after(replies.take(len - 2)), replies));
        lemma_step_back(replies, len - 2);
        lemma_end_of_pty(replies, len - 3);
    } else {
        lemma_end_of_pty(replies, len - 1);
    }
}

/// From setting back, or from closing the master side where nothing is to be set back, to
/// closing the slave side.
proof fn lemma_end_of_pty(replies: Seq<RunReply>, n: int)
    requires
        run_answers(replies),
        0 < n < replies.len(),
        run_answers(replies.take(n)),
        run_after(replies.take(n)).carries(replies.take(n)),
        run_after(replies.take(n)) is Restore || run_after(replies.take(n)) is CloseMaster
            && run_after(replies.take(n)).undo() is None,
    ensures
        exists|k: int|
            0 <= k < replies.len() && #[trigger] run_after(replies.take(k)) is CloseSlave,
        exists|k: int|
            0 <= k < replies.len() && #[trigger] run_after(replies.take(k)) is CloseMaster,
        run_after(replies.take(n)).child() matches Some(Ok(_)) ==> exists|k: int|
            0 <= k < replies.len() && #[trigger] run_after(replies.take(k)) is ClearMaster,
        run_after(replies.take(n)) is Restore ==> is_restoring(
            run_after(replies.take(n)),
            replies,
        ) && attrs_were_set(replies),
        run_after(replies.take(n)) is CloseMaster ==> !attrs_were_set(replies),
{
    law_run_goes_in_order(replies.take(n));
    let m = if run_after(replies.take(n)) is Restore {
        lemma_step_back(replies, n);
        n - 1
    } else {
        n
    };
    assert(run_after(replies.take(m)) is CloseMaster);
    lemma_step_back(replies, m);
    if run_after(replies.take(m - 1)) is ClearMaster {
        lemma_step_back(replies, m - 1);
        lemma_step_back(replies, m - 2);
        assert(run_after(replies.take(m - 3)) is CloseSlave);
    } else {
        assert(run_after(replies.take(m - 1)) is CloseSlave);
    }
}

/// Whether a pseudo-terminal was opened.
pub open spec fn was_opened(replies: Seq<RunReply>) -> bool {
    replies.len() > 1 && (replies[1] matches RunReply::Opened(Ok(_)))
}

/// Whether the real terminal is being set back to the attributes that were read from it.
pub open spec fn is_restoring(state: RunState, replies: Seq<RunReply>) -> bool {
    state matches RunState::Restore { saved, .. } && replies[6] == RunReply::Attrs(Ok(saved))
}

/// Whether the child that was started is being waited for.
pub open spec fn is_waiting(state: RunState, replies: Seq<RunReply>) -> bool {
    &&& state matches RunState::Wait { pid }
    &&& replies[8] matches RunReply::Spawned(Ok(p))
    &&& pid == p as i32
}

/// However a run ends that has entered raw mode, it has set the real terminal back to the
/// attributes that it had.
pub proof fn law_run_restores_the_terminal(
    replies: Seq<RunReply>,
    result: Result<i32, PtyError>,
)
    requires
        run_answers(replies),
        run_after(replies) == RunState::Finished(result),
        attrs_were_set(replies),
    ensures
        exists|n: int|
            0 <= n < replies.len() && is_restoring(#[trigger] run_after(replies.take(n)), replies),
{
    lemma_end_without_pty(replies, result);
    lemma_last_steps(replies, result);
}

/// However a run ends that has opened a pseudo-terminal, it has closed both sides of it.
pub proof fn law_run_closes_the_pty(replies: Seq<RunReply>, result: Result<i32, PtyError>)
    requires
        run_answers(replies),
        run_after(replies) == RunState::Finished(result),
        was_opened(replies),
    ensures
        exists|n: int|
            0 <= n < replies.len() && #[trigger] run_after(replies.take(n)) is CloseSlave,
        exists|n: int|
            0 <= n < replies.len() && #[trigger] run_after(replies.take(n)) is CloseMaster,
{
    lemma_last_steps(replies, result);
}

/// A run that succeeds has let it be known that there is no master side any more, has waited
/// for the child that it started, and returns what the child returned.
pub proof fn law_run_returns_the_exit_code(replies: Seq<RunReply>, code: i32)
    requires
        run_answers(replies),
        run_after(replies) == RunState::Finished(Ok(code)),
    ensures
        replies.len() == 17,
        replies[15] == RunReply::Exited(code),
        exists|n: int|
            0 <= n < replies.len() && #[trigger] run_after(replies.take(n)) is ClearMaster,
        exists|n: int|
            0 <= n < replies.len() && is_waiting(#[trigger] run_after(replies.take(n)), replies),
{
    lemma_end_without_pty(replies, Ok(code));
    lemma_last_steps(replies, Ok(code));
}

/// A run that has not opened a pseudo-terminal ends in one of two errors.
proof fn lemma_end_without_pty(replies: Seq<RunReply>, result: Result<i32, PtyError>)
    requires
        run_answers(replies),
        run_after(replies) == RunState::Finished(result),
    ensures
        !was_opened(replies) ==> match result {
            Err(PtyError::TooSmall) => replies.len() == 1 && (replies[0] matches RunReply::Size(
                size,
            ) && child_size(size) is None),
            Err(PtyError::Open(text)) => replies.len() == 2 && replies[1] == RunReply::Opened(
                Err(text),
            ),
            _ => false,
        },
{
    let len = replies.len() as int;
    assert(replies.take(len) == replies);
    lemma_step_back(replies, len);
    let before = replies.take(len - 1);
    if before.len() > 1 {
        assert(before[1] == replies[1]);
    }
    if run_after(before) is Forget {
        lemma_step_back(replies, len - 1);
        lemma_step_back(replies, len - 2);
        assert(replies.take(len - 3)[1] == replies[1]);
        lemma_step_back(replies, len - 3);
        assert(replies.take(len - 4)[1] == replies[1]);
    } else if run_after(before) is Restore {
        lemma_step_back(replies, len - 1);
        assert(replies.take(len - 2)[1] == replies[1]);
    }
}

/// A run that fails returns the error of what failed: the terminal is too small, or an
/// operation answered with this error.
pub proof fn law_run_reports_what_failed(replies: Seq<RunReply>, e: PtyError)
    requires
        run_answers(replies),
        run_after(replies) == RunState::Finished(Err(e)),
    ensures
        match e {
            PtyError::TooSmall => replies.len() == 1 && (replies[0] matches RunReply::Size(size)
                && child_size(size) is None),
            PtyError::Open(text) => replies.len() == 2 && replies[1] == RunReply::Opened(Err(text)),
            PtyError::GetAttrs(text) => replies.len() > 6 && replies[6] == RunReply::Attrs(
                Err(text),
            ),
            PtyError::SetAttrs(text) => replies.len() > 7 && replies[7] == RunReply::AttrsSet(
                Err(text),
            ),
            PtyError::Spawn(text) => replies.len() > 8 && replies[8] == RunReply::Spawned(
                Err(text),
            ),
        },
{
    lemma_end_without_pty(replies, Err(e));
    if was_opened(replies) {
        lemma_last_steps(replies, Err(e));
    }
}

/// The child's screen is one row shorter than the real terminal, and as wide. A terminal
/// that leaves no row for it is refused before anything is opened.
pub proof fn law_child_has_one_row_less(rows: u16, cols: u16)
    ensures
        run_next(RunState::QuerySize, RunReply::Size(Some((rows, cols)))) == if rows >= 2 {
            RunState::OpenPty {
                size: WindowSize { rows: (rows - 1) as u16, cols, xpixel: 0, ypixel: 0 },
            }
        } else {
            RunState::Finished(Err(PtyError::TooSmall))
        },
{
}

/// The master side is marked to be closed in the child, and keeps its other flags.
pub proof fn law_master_is_not_inherited(pty: Pty, flags: i32)
    ensures
        run_next(RunState::GetFdFlags { pty }, RunReply::FdFlags(flags)) matches
            RunState::SetFdFlags { pty: p, flags: f } && p == pty && f & FD_CLOEXEC == FD_CLOEXEC
            && f & !FD_CLOEXEC == flags & !FD_CLOEXEC,
{
    let f = flags | FD_CLOEXEC;
    assert(f & 1 == 1 && f & !1 == flags & !1) by (bit_vector)
        requires
            f == flags | 1,
    ;
}

/// The attributes that are set are those of raw mode, made from the ones that were read; and
/// those are kept to be set back.
pub proof fn law_raw_mode_is_entered(pty: Pty, attrs: TermAttrs)
    ensures
        run_next(RunState::GetAttrs { pty }, RunReply::Attrs(Ok(attrs))) matches RunState::SetRaw {
            pty: p,
            saved,
            raw,
        } && p == pty && saved == attrs && raw == raw_mode(attrs),
{
}

/// A resize leaves the pseudo-terminal with the rows and columns that a run would have given
/// it at first behind the same terminal.
pub proof fn law_resize_agrees_with_the_start(master: i32, size: WindowSize)
    requires
        master >= 0,
        size.cols > 0,
    ensures
        resized(master, 0, size) is Some <==> child_size(Some((size.rows, size.cols))) is Some,
        resized(master, 0, size) matches Some(child) ==> {
            &&& child.rows == (child_size(Some((size.rows, size.cols)))->0).rows
            &&& child.cols == (child_size(Some((size.rows, size.cols)))->0).cols
        },
{
}

/// Each state but the last waits for one kind of outcome, and takes every one of that kind.
pub proof fn law_each_state_takes_its_outcome(state: RunState, reply: RunReply)
    ensures
        state.accepts(reply) <==> match reply {
            RunReply::Size(_) => state is QuerySize,
            RunReply::Opened(_) => state is OpenPty,
            RunReply::FdFlags(_) => state is GetFdFlags,
            RunReply::Attrs(_) => state is GetAttrs,
            RunReply::AttrsSet(_) => state is SetRaw,
            RunReply::Spawned(_) => state is Spawn,
            RunReply::Exited(_) => state is Wait,
            RunReply::Done => state is SetFdFlags || state is SetSize || state is StoreMaster
                || state is SetChildPid || state is CloseSlave || state is IoLoop
                || state is ClearMaster || state is CloseMaster || state is Restore
                || state is Forget,
        },
{
}

/// The message of an error of the system is what was tried, and then the system's own text to
/// its end.
pub proof fn law_message_ends_in_the_cause(cause: String)
    ensures
        PtyError::Open(cause).text().take(9) == "openpty: "@,
        PtyError::Open(cause).text().skip(9) == cause@,
        PtyError::GetAttrs(cause).text().take(11) == "tcgetattr: "@,
        PtyError::GetAttrs(cause).text().skip(11) == cause@,
        PtyError::SetAttrs(cause).text().take(15) == "tcsetattr raw: "@,
        PtyError::SetAttrs(cause).text().skip(15) == cause@,
        PtyError::Spawn(cause).text().take(25) == "Failed to start sandbox: "@,
        PtyError::Spawn(cause).text().skip(25) == cause@,
{
    reveal_strlit("openpty: ");
    reveal_strlit("tcgetattr: ");
    reveal_strlit("tcsetattr raw: ");
    reveal_strlit("Failed to start sandbox: ");
}

} // verus!
