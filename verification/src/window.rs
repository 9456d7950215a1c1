//! Sizes of the real terminal and of the pseudo-terminal behind it.
use vstd::prelude::*;

verus! {

/// A window size as the terminal driver reports and takes it.
#[derive(Clone, Copy, Debug, PartialEq, Eq, Structural)]
pub struct WindowSize {
    pub rows: u16,
    pub cols: u16,
    pub xpixel: u16,
    pub ypixel: u16,
}

/// The rows and columns that a size query reports.
pub open spec fn reported(ret: i32, size: WindowSize) -> Option<(u16, u16)> {
    if ret == 0 && size.rows > 0 && size.cols > 0 {
        Some((size.rows, size.cols))
    } else {
        None
    }
}

/// The rows and columns of the real terminal, from the return value of the
/// size query and the size that it filled in. There are none if the query
/// failed or one of the two is zero.
pub fn term_size(ret: i32, size: WindowSize) -> (r: Option<(u16, u16)>)
    ensures
        r == reported(ret, size),
{
    if ret == 0 && size.rows > 0 && size.cols > 0 {
        Some((size.rows, size.cols))
    } else {
        None
    }
}

/// The size that a pseudo-terminal takes behind a real terminal of this size:
/// one row less, for the status bar. There is none without a pseudo-terminal,
/// after a failed query, or where no row or no column would be left.
pub open spec fn resized(master: i32, ret: i32, size: WindowSize) -> Option<WindowSize> {
    if master >= 0 && ret == 0 && size.rows >= 2 && size.cols != 0 {
        Some(WindowSize { rows: (size.rows - 1) as u16, ..size })
    } else {
        None
    }
}

/// The size that the pseudo-terminal takes after the real terminal changed:
/// that of the real terminal, minus one row for the status bar. `master` is the
/// descriptor of the pseudo-terminal, negative while there is none; `ret` and
/// `size` are the answer of the size query on the real terminal. Nothing is to
/// be done without a pseudo-terminal, after a failed query, or if the terminal
/// has fewer than two rows or no columns.
pub fn resize_pty(master: i32, ret: i32, size: WindowSize) -> (r: Option<WindowSize>)
    ensures
        r == resized(master, ret, size),
{
    if master < 0 {
        return None;
    }
    if ret != 0 || size.rows < 2 || size.cols == 0 {
        return None;
    }
    Some(WindowSize { rows: size.rows - 1, ..size })
}

/// The size that a pseudo-terminal is given at first: no pixel sizes are known.
pub fn initial_size(rows: u16, cols: u16) -> (r: WindowSize)
    ensures
        r == (WindowSize { rows, cols, xpixel: 0, ypixel: 0 }),
{
    WindowSize { rows, cols, xpixel: 0, ypixel: 0 }
}

/// A size query that succeeds gives the rows and columns that it filled in, as they are. It
/// gives none exactly if it failed or no cell would be on the screen.
pub proof fn law_reported_size_is_that_of_the_terminal(ret: i32, size: WindowSize)
    ensures
        reported(ret, size) is None <==> ret != 0 || size.rows * size.cols == 0,
        reported(ret, size) matches Some((rows, cols)) ==> rows == size.rows && cols == size.cols,
{
    assert(size.rows * size.cols == 0 <==> size.rows == 0 || size.cols == 0) by (nonlinear_arith);
}

/// A resize takes one row from the terminal and leaves everything else as it is. Nothing is
/// resized exactly if there is no pseudo-terminal, the query failed, or not a single cell
/// would be left.
pub proof fn law_resize_takes_one_row(master: i32, ret: i32, size: WindowSize)
    ensures
        resized(master, ret, size) is None <==> master < 0 || ret != 0 || size.rows <= 1
            || size.cols == 0,
        resized(master, ret, size) matches Some(child) ==> {
            &&& child.rows + 1 == size.rows
            &&& child.cols == size.cols
            &&& child.xpixel == size.xpixel
            &&& child.ypixel == size.ypixel
        },
{
}

/// Which pseudo-terminal is resized makes no difference to its size, and terminals of
/// different sizes give different sizes.
pub proof fn law_resize_depends_on_the_terminal_alone(
    master: i32,
    other: i32,
    size: WindowSize,
    wider: WindowSize,
)
    requires
        master >= 0,
        other >= 0,
    ensures
        resized(master, 0, size) == resized(other, 0, size),
        resized(master, 0, size) is Some && resized(master, 0, size) == resized(other, 0, wider)
            ==> size == wider,
{
}

} // verus!
