use ai_jail::escape::contains_scroll_reset;
use ai_jail::statusbar::{draw, redraw, setup, teardown, StatusBar, FRAME_SIZE, MAX_DIR};
use ai_jail::stream::SeqState;

const DARK: &str = "\x1b[1;97;40m";
const LIGHT: &str = "\x1b[1;30;107m";

fn bar(dir: &str, style: &str) -> StatusBar {
    let mut bar = StatusBar::new();
    setup(&mut bar, dir.as_bytes(), style, Some((24, 80)));
    bar
}

fn frame(rows: u16, colors: &str, line: &str) -> String {
    format!("\x1b7\x1b[1;{}r\x1b[{};1H{}{}\x1b[0m\x1b8", rows - 1, rows, colors, line)
}

#[test]
fn active_default_false() {
    assert!(!StatusBar::new().is_active());
}

#[test]
fn new_bar_is_silent() {
    let mut bar = StatusBar::new();
    assert!(redraw(&bar, Some((24, 80))).is_none());
    assert!(teardown(&mut bar, Some((24, 80))).is_none());
    assert!(!bar.is_active());
}

#[test]
fn setup_draws_and_moves_the_cursor() {
    let mut bar = StatusBar::new();
    let (drawn, cursor) = setup(&mut bar, b"/tmp", "dark", Some((24, 20))).unwrap();
    assert!(bar.is_active());
    let expected = frame(24, DARK, " ai-jail ─ /tmp ────");
    assert_eq!(drawn.bytes(), expected.as_bytes());
    assert_eq!(drawn.len(), expected.len());
    assert_eq!(cursor.bytes(), b"\x1b[23;1H");
}

#[test]
fn setup_style() {
    assert_eq!(
        redraw(&bar("/x", "light"), Some((10, 14))).unwrap().bytes(),
        frame(10, LIGHT, " ai-jail ─ /x ").as_bytes()
    );
    for style in ["dark", "", "Light", "lightly", "ligh", "líght"] {
        assert_eq!(
            redraw(&bar("/x", style), Some((10, 14))).unwrap().bytes(),
            frame(10, DARK, " ai-jail ─ /x ").as_bytes()
        );
    }
}

#[test]
fn setup_without_room_does_not_activate() {
    for size in [None, Some((0, 80)), Some((1, 80))] {
        let mut bar = StatusBar::new();
        assert!(setup(&mut bar, b"/a", "dark", size).is_none());
        assert!(!bar.is_active());
    }
    let mut active = bar("/a", "dark");
    assert!(setup(&mut active, b"/b", "light", None).is_none());
    assert!(active.is_active());
    assert_eq!(
        redraw(&active, Some((2, 14))).unwrap().bytes(),
        frame(2, LIGHT, " ai-jail ─ /b ").as_bytes()
    );
}

#[test]
fn line_is_cut_to_the_columns() {
    let b = bar("/home/user", "dark");
    let lines = [
        (0, ""),
        (1, " "),
        (2, "/ "),
        (5, "/hom "),
        (10, "/home/use "),
        (11, " ai-jail ─ "),
        (12, " ai-jail ─  "),
        (13, " ai-jail ─ / "),
        (21, " ai-jail ─ /home/use "),
        (22, " ai-jail ─ /home/user "),
        (23, " ai-jail ─ /home/user ─"),
        (30, " ai-jail ─ /home/user ────────"),
    ];
    for (cols, line) in lines {
        assert_eq!(line.chars().count(), cols as usize);
        let out = redraw(&b, Some((65535, cols))).unwrap();
        assert_eq!(out.bytes(), frame(65535, DARK, line).as_bytes());
    }
}

#[test]
fn short_directory_on_a_narrow_line() {
    let b = bar("/a", "dark");
    assert_eq!(redraw(&b, Some((9, 6))).unwrap().bytes(), frame(9, DARK, "/a ───").as_bytes());
}

#[test]
fn long_directory_is_cut_to_what_is_kept() {
    let dir = "d".repeat(MAX_DIR + 100);
    let b = bar(&dir, "dark");
    let cols: u16 = 4200;
    let out = redraw(&b, Some((24, cols))).unwrap();
    let fill = cols as usize - 11 - MAX_DIR - 1;
    let line = format!(" ai-jail ─ {} {}", "d".repeat(MAX_DIR), "─".repeat(fill));
    assert_eq!(out.bytes(), frame(24, DARK, &line).as_bytes());
}

#[test]
fn frame_that_does_not_fit_is_clipped() {
    let b = bar("/tmp", "dark");
    let out = redraw(&b, Some((24, 65535))).unwrap();
    let text = "\x1b7\x1b[1;23r\x1b[24;1H\x1b[1;97;40m ai-jail ─ /tmp ";
    let fill = (FRAME_SIZE - text.len()) / 3;
    let mut expected = format!("{}{}\x1b[0m\x1b8", text, "─".repeat(fill)).into_bytes();
    assert!(expected.len() > FRAME_SIZE);
    expected.truncate(FRAME_SIZE);
    assert_eq!(out.bytes(), &expected[..]);
}

#[test]
fn widest_whole_frame() {
    let b = bar("", "light");
    let out = draw(&b, 65535, 2714);
    let line = format!(" ai-jail ─  {}", "─".repeat(2714 - 12));
    assert_eq!(out.bytes(), frame(65535, LIGHT, &line).as_bytes());
    assert!(out.len() <= 50 + 3 * 2714);
}

#[test]
fn redraw_repeats_setup() {
    let mut bar = StatusBar::new();
    let (drawn, _) = setup(&mut bar, b"/srv/www", "light", Some((40, 120))).unwrap();
    let again = redraw(&bar, Some((40, 120))).unwrap();
    assert_eq!(drawn.bytes(), again.bytes());
    assert!(redraw(&bar, None).is_none());
    assert!(redraw(&bar, Some((1, 120))).is_none());
    assert!(redraw(&bar, Some((2, 120))).is_some());
}

#[test]
fn teardown_clears_the_last_row_once() {
    let mut b = bar("/tmp", "dark");
    let out = teardown(&mut b, Some((50, 80))).unwrap();
    assert_eq!(out.bytes(), b"\x1b[r\x1b[50;1H\x1b[2K");
    assert!(!b.is_active());
    assert!(teardown(&mut b, Some((50, 80))).is_none());
    assert!(redraw(&b, Some((50, 80))).is_none());
}

#[test]
fn teardown_of_unknown_size() {
    let mut b = bar("/tmp", "dark");
    assert_eq!(teardown(&mut b, None).unwrap().bytes(), b"\x1b[r\x1b[24;1H\x1b[2K");
}

#[test]
fn frame_disturbs_nothing() {
    for (rows, cols) in [(1, 0), (1, 80), (24, 80), (65535, 11), (50, 2714)] {
        for style in ["dark", "light"] {
            let drawn = draw(&bar("/home/user/app", style), rows, cols);
            assert!(!contains_scroll_reset(drawn.bytes()));
            for state in [SeqState::Normal, SeqState::Esc, SeqState::Csi, SeqState::Osc] {
                let mut after = state;
                after.update(drawn.bytes());
                assert_eq!(after, SeqState::Normal);
            }
        }
    }
}
