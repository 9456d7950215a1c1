//! Terminal attributes, and raw mode.
use vstd::prelude::*;

verus! {

/// The attributes of a terminal, as its driver reports and takes them.
#[derive(Clone, Copy, Debug, PartialEq, Eq)]
pub struct TermAttrs {
    pub input_flags: u32,
    pub output_flags: u32,
    pub control_flags: u32,
    pub local_flags: u32,
    pub line: u8,
    pub control_chars: [u8; 32],
    pub input_speed: u32,
    pub output_speed: u32,
}

/// What `nix::sys::termios::cfmakeraw` makes of `attrs`: the attributes of a terminal
/// that hands on each byte as it is typed, does not echo it, and neither interprets
/// input nor output.
pub uninterp spec fn raw_mode(attrs: TermAttrs) -> TermAttrs;

/// Calls `nix::sys::termios::cfmakeraw`. The contract claims no more than that its
/// result is determined by the attributes that it is given. Which bits it sets and
/// clears is the C library's doing and is not stated.
#[verifier::external_body]
pub(crate) fn make_raw(attrs: &TermAttrs) -> (r: TermAttrs)
    ensures
        r == raw_mode(*attrs),
{
    let mut t = nix::sys::termios::Termios::from(nix::libc::termios {
        c_iflag: attrs.input_flags, c_oflag: attrs.output_flags,
        c_cflag: attrs.control_flags, c_lflag: attrs.local_flags,
        c_line: attrs.line, c_cc: attrs.control_chars,
        c_ispeed: attrs.input_speed, c_ospeed: attrs.output_speed,
    });
    nix::sys::termios::cfmakeraw(&mut t);
    let raw = nix::libc::termios::from(t);
    TermAttrs {
        input_flags: raw.c_iflag, output_flags: raw.c_oflag, control_flags: raw.c_cflag,
        local_flags: raw.c_lflag, line: raw.c_line, control_chars: raw.c_cc,
        input_speed: raw.c_ispeed, output_speed: raw.c_ospeed,
    }
}

} // verus!
