//! What system calls report, read through the `nix` crate.
use vstd::prelude::*;

verus! {

/// The kinds of error that the proxy tells apart.
#[derive(Clone, Copy, Debug, PartialEq, Eq, Structural)]
pub enum Fault {
    /// The call was interrupted by a signal.
    Interrupted,
    /// Input/output error; a pseudo-terminal reports it once the other side is
    /// closed.
    Io,
    /// Any other error.
    Other,
}

/// The kind of error that an error number stands for.
pub open spec fn fault(errno: i32) -> Fault {
    if errno == 4 {
        Fault::Interrupted
    } else if errno == 5 {
        Fault::Io
    } else {
        Fault::Other
    }
}

/// Calls `nix::errno::Errno::from_raw`, which maps an error number to the constant
/// of that number. The contract claims that `EINTR` is the constant of 4 and `EIO`
/// that of 5, and that no other number gives either.
#[verifier::external_body]
pub(crate) fn fault_of(errno: i32) -> (r: Fault)
    ensures
        r == fault(errno),
{
    match nix::errno::Errno::from_raw(errno) {
        nix::errno::Errno::EINTR => Fault::Interrupted,
        nix::errno::Errno::EIO => Fault::Io,
        _ => Fault::Other,
    }
}

/// The events of a polled descriptor that the proxy acts on.
#[derive(Clone, Copy, Debug, PartialEq, Eq, Structural)]
pub enum PollEvent {
    /// There is data to read.
    Input,
    /// An error condition.
    Error,
    /// The other side hung up.
    HangUp,
}

impl PollEvent {
    /// The bit of the event.
    pub open spec fn bit(self) -> i16 {
        match self {
            PollEvent::Input => 0x1,
            PollEvent::Error => 0x8,
            PollEvent::HangUp => 0x10,
        }
    }
}

/// Whether the bits that polling returned for a descriptor report `event`.
pub open spec fn reports(revents: i16, event: PollEvent) -> bool {
    revents & event.bit() == event.bit()
}

/// Calls `nix::poll::PollFlags::contains`, which tells whether all bits of its
/// argument are set. The contract claims that, and that `POLLIN`, `POLLERR` and
/// `POLLHUP` are the bits 0x1, 0x8 and 0x10.
#[verifier::external_body]
pub(crate) fn has_event(revents: i16, event: PollEvent) -> (r: bool)
    ensures
        r == reports(revents, event),
{
    let wanted = match event {
        PollEvent::Input => nix::poll::PollFlags::POLLIN,
        PollEvent::Error => nix::poll::PollFlags::POLLERR,
        PollEvent::HangUp => nix::poll::PollFlags::POLLHUP,
    };
    nix::poll::PollFlags::from_bits_retain(revents).contains(wanted)
}

} // verus!
