use ai_jail::window::{initial_size, resize_pty, term_size, WindowSize};

fn size(rows: u16, cols: u16) -> WindowSize {
    WindowSize { rows, cols, xpixel: 640, ypixel: 480 }
}

#[test]
fn term_size_of_a_terminal() {
    assert_eq!(term_size(0, size(24, 80)), Some((24, 80)));
    assert_eq!(term_size(0, size(1, 1)), Some((1, 1)));
}

#[test]
fn term_size_of_no_terminal() {
    assert_eq!(term_size(-1, size(24, 80)), None);
    assert_eq!(term_size(0, size(0, 80)), None);
    assert_eq!(term_size(0, size(24, 0)), None);
}

#[test]
fn resize_keeps_a_row_for_the_bar() {
    assert_eq!(resize_pty(5, 0, size(24, 80)), Some(size(23, 80)));
    assert_eq!(resize_pty(0, 0, size(2, 1)), Some(size(1, 1)));
}

#[test]
fn resize_does_nothing() {
    assert_eq!(resize_pty(-1, 0, size(24, 80)), None);
    assert_eq!(resize_pty(5, -1, size(24, 80)), None);
    assert_eq!(resize_pty(5, 0, size(1, 80)), None);
    assert_eq!(resize_pty(5, 0, size(0, 80)), None);
    assert_eq!(resize_pty(5, 0, size(24, 0)), None);
}

#[test]
fn initial_size_has_no_pixels() {
    assert_eq!(
        initial_size(23, 80),
        WindowSize { rows: 23, cols: 80, xpixel: 0, ypixel: 0 }
    );
}
