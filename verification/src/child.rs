//! What the child does between being forked and running the command: it makes the
//! pseudo-terminal its own. Nothing here allocates.
use vstd::prelude::*;

verus! {

/// The system call that the child makes next.
#[derive(Clone, Copy, Debug, PartialEq, Eq, Structural)]
pub enum ChildStep {
    /// Start a session of its own.
    NewSession,
    /// Make the slave side the controlling terminal.
    TakeTerminal,
    /// Duplicate the slave side to this descriptor.
    Duplicate { to: i32 },
    /// Close the slave side, which has its duplicates.
    CloseSlave,
    /// None: run the command.
    Ready,
    /// None: give up, with the error of the last call.
    Failed,
}

/// The step after `step`, whose call returned `ret`. Without a session or a
/// controlling terminal there is no going on; the other calls are not checked. The
/// slave side is closed unless it is a standard descriptor itself.
pub open spec fn child_next(slave: i32, step: ChildStep, ret: i32) -> ChildStep {
    match step {
        ChildStep::NewSession => if ret == -1 {
            ChildStep::Failed
        } else {
            ChildStep::TakeTerminal
        },
        ChildStep::TakeTerminal => if ret == -1 {
            ChildStep::Failed
        } else {
            ChildStep::Duplicate { to: 0 }
        },
        ChildStep::Duplicate { to } => if to == 0 {
            ChildStep::Duplicate { to: 1 }
        } else if to == 1 {
            ChildStep::Duplicate { to: 2 }
        } else if slave > 2 {
            ChildStep::CloseSlave
        } else {
            ChildStep::Ready
        },
        ChildStep::CloseSlave => ChildStep::Ready,
        ChildStep::Ready => ChildStep::Ready,
        ChildStep::Failed => ChildStep::Failed,
    }
}

/// Takes one step of the child's setup: the call of `step` returned `ret`, and the
/// slave side of the pseudo-terminal is the descriptor `slave`.
pub fn child_setup(slave: i32, step: ChildStep, ret: i32) -> (r: ChildStep)
    ensures
        r == child_next(slave, step, ret),
{
    match step {
        ChildStep::NewSession => {
            if ret == -1 {
                ChildStep::Failed
            } else {
                ChildStep::TakeTerminal
            }
        },
        ChildStep::TakeTerminal => {
            if ret == -1 {
                ChildStep::Failed
            } else {
                ChildStep::Duplicate { to: 0 }
            }
        },
        ChildStep::Duplicate { to } => {
            if to == 0 {
                ChildStep::Duplicate { to: 1 }
            } else if to == 1 {
                ChildStep::Duplicate { to: 2 }
            } else if slave > 2 {
                ChildStep::CloseSlave
            } else {
                ChildStep::Ready
            }
        },
        ChildStep::CloseSlave => ChildStep::Ready,
        ChildStep::Ready => ChildStep::Ready,
        ChildStep::Failed => ChildStep::Failed,
    }
}

/// The step after a series of calls that returned `rets`.
pub open spec fn child_after(slave: i32, rets: Seq<i32>) -> ChildStep
    decreases rets.len(),
{
    if rets.len() == 0 {
        ChildStep::NewSession
    } else {
        child_next(slave, child_after(slave, rets.drop_last()), rets.last())
    }
}

/// A child that gets its session and its terminal connects all three standard
/// descriptors to the pseudo-terminal, in order, whatever else those calls return, and
/// closes its copy of the slave side exactly if that is none of the three.
pub proof fn law_child_is_connected(slave: i32, rets: Seq<i32>)
    requires
        rets.len() == 6,
        rets[0] != -1,
        rets[1] != -1,
    ensures
        child_after(slave, rets.take(0)) == ChildStep::NewSession,
        child_after(slave, rets.take(1)) == ChildStep::TakeTerminal,
        child_after(slave, rets.take(2)) == (ChildStep::Duplicate { to: 0 }),
        child_after(slave, rets.take(3)) == (ChildStep::Duplicate { to: 1 }),
        child_after(slave, rets.take(4)) == (ChildStep::Duplicate { to: 2 }),
        child_after(slave, rets.take(5)) == (if slave > 2 {
            ChildStep::CloseSlave
        } else {
            ChildStep::Ready
        }),
        child_after(slave, rets) == ChildStep::Ready,
{
    reveal_with_fuel(child_after, 7);
    assert(rets.take(6) == rets);
    assert(rets.take(6).drop_last() == rets.take(5));
    assert(rets.take(5).drop_last() == rets.take(4));
    assert(rets.take(4).drop_last() == rets.take(3));
    assert(rets.take(3).drop_last() == rets.take(2));
    assert(rets.take(2).drop_last() == rets.take(1));
    assert(rets.take(1).drop_last() == rets.take(0));
}

/// A child without a session or a terminal of its own connects nothing.
pub proof fn law_child_without_terminal_fails(slave: i32, rets: Seq<i32>)
    requires
        rets.len() >= 1,
        rets[0] == -1 || rets.len() >= 2 && rets[1] == -1,
    ensures
        child_after(slave, rets) == ChildStep::Failed,
    decreases rets.len(),
{
    if rets.len() <= 2 {
        reveal_with_fuel(child_after, 3);
    } else {
        law_child_without_terminal_fails(slave, rets.drop_last());
    }
}

/// A child that is ready, or has given up, stays so: it makes no call more.
pub proof fn law_child_ends_once(slave: i32, ret: i32)
    ensures
        child_next(slave, ChildStep::Ready, ret) == ChildStep::Ready,
        child_next(slave, ChildStep::Failed, ret) == ChildStep::Failed,
{
}

} // verus!
