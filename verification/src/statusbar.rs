//! Persistent terminal status bar, kept in place by a scroll region.
//!
//! The scrollable area is shrunk by one row, and a fixed status line is drawn on
//! the last row. Nothing here allocates, so `redraw` can be called from a signal
//! handler.
use crate::bytes::{ascii, ascii_bytes, same_bytes};
use crate::decimal::{decimal, law_decimal_reads_back, lemma_decimal_len};
use crate::escape::{
    csi, has_reset, is_parameter, law_embedded_control_sequence, law_embedded_escape_sequence,
    law_plain_text_has_no_reset, law_reset_is_not_undone, law_reset_of_parts, Token, ESC,
};
use crate::outbuf::{clip, OutBuf};
use crate::stream::{
    law_chunks_compose, law_csi_is_open_until_its_final_byte, law_plain_text_stays_normal, SeqState,
};
use crate::window::{resized, WindowSize};
use vstd::prelude::*;

verus! {

/// How many bytes of the project directory are kept.
pub const MAX_DIR: usize = 4096;

/// The size of the buffer that a status line is rendered in.
pub const FRAME_SIZE: usize = 8192;

/// The columns that the fixed text at the left takes.
pub const PREFIX_COLUMNS: usize = 11;

/// What is known of a status bar.
pub struct BarView {
    /// Whether the bar is on the screen.
    pub active: bool,
    /// Dark (bright white on black) or light (black on bright white).
    pub dark: bool,
    /// The project directory that the bar shows.
    pub dir: Seq<u8>,
}

/// The state of the status bar.
#[derive(Clone, Copy)]
pub struct StatusBar {
    active: bool,
    style_dark: bool,
    dir_buf: [u8; MAX_DIR],
    dir_len: usize,
}

impl View for StatusBar {
    type V = BarView;

    closed spec fn view(&self) -> BarView {
        BarView {
            active: self.active,
            dark: self.style_dark,
            dir: self.dir_buf@.take(self.dir_len as int),
        }
    }
}

impl StatusBar {
    #[verifier::type_invariant]
    spec fn within_capacity(self) -> bool {
        self.dir_len <= MAX_DIR
    }

    /// A bar that was not set up yet: inactive, dark, without a directory.
    pub fn new() -> (r: Self)
        ensures
            !r@.active,
            r@.dark,
            r@.dir == Seq::<u8>::empty(),
    {
        let r = StatusBar { active: false, style_dark: true, dir_buf: [0u8; MAX_DIR], dir_len: 0 };
        assert(r@.dir =~= Seq::<u8>::empty());
        r
    }

    /// Whether the bar is on the screen.
    pub fn is_active(&self) -> (r: bool)
        ensures
            r == self@.active,
    {
        self.active
    }
}

/// `ESC 7`.
pub open spec fn save_cursor() -> Seq<u8> {
    ascii("\x1b7"@)
}

/// `ESC 8`.
pub open spec fn restore_cursor() -> Seq<u8> {
    ascii("\x1b8"@)
}

/// Confines scrolling to the rows from the first to `bottom`.
pub open spec fn scroll_region(bottom: nat) -> Seq<u8> {
    ascii("\x1b[1;"@) + decimal(bottom) + ascii("r"@)
}

/// Moves the cursor to the first column of `row`.
pub open spec fn goto_row(row: nat) -> Seq<u8> {
    ascii("\x1b["@) + decimal(row) + ascii(";1H"@)
}

/// Bold bright white on black, or bold black on bright white.
pub open spec fn colors(dark: bool) -> Seq<u8> {
    if dark {
        ascii("\x1b[1;97;40m"@)
    } else {
        ascii("\x1b[1;30;107m"@)
    }
}

/// A horizontal line of one column, in UTF-8.
pub open spec fn box_dash() -> Seq<u8> {
    seq![0xe2u8, 0x94u8, 0x80u8]
}

/// `n` of them.
pub open spec fn box_dashes(n: nat) -> Seq<u8>
    decreases n,
{
    if n == 0 {
        seq![]
    } else {
        box_dashes((n - 1) as nat) + box_dash()
    }
}

/// The fixed text at the left.
pub open spec fn prefix() -> Seq<u8> {
    ascii(" ai-jail "@) + box_dash() + ascii(" "@)
}

/// How a status line of `cols` columns is shared out.
pub struct Layout {
    /// Columns of the fixed text: all of it or none.
    pub prefix: nat,
    /// Columns of the directory, one for each byte.
    pub dir: nat,
    /// Columns of the space behind the directory.
    pub gap: nat,
    /// Columns of the line that fills the rest.
    pub fill: nat,
}

/// The fixed text is shown if it fits, then as much of the directory as leaves
/// one column free, then a space if a column is left, then the line.
pub open spec fn layout(cols: nat, dir_len: nat) -> Layout {
    let prefix: nat = if PREFIX_COLUMNS <= cols { PREFIX_COLUMNS as nat } else { 0 };
    let room: nat = if cols > prefix + 1 { (cols - prefix - 1) as nat } else { 0 };
    let dir = if dir_len <= room { dir_len } else { room };
    let gap: nat = if prefix + dir < cols { 1 } else { 0 };
    Layout { prefix, dir, gap, fill: (cols - prefix - dir - gap) as nat }
}

/// How a frame begins: save the cursor, confine scrolling to all rows but the
/// last, go to the last row, and choose the colors.
pub open spec fn frame_head(rows: nat, dark: bool) -> Seq<u8> {
    save_cursor() + scroll_region((rows - 1) as nat) + goto_row(rows) + colors(dark)
}

/// The text of the bar: the fixed text, the directory and the space, as far as
/// the layout has them.
pub open spec fn label(cols: nat, dir: Seq<u8>) -> Seq<u8> {
    let l = layout(cols, dir.len());
    (if l.prefix > 0 {
        prefix()
    } else {
        seq![]
    }) + dir.take(l.dir as int) + (if l.gap > 0 {
        ascii(" "@)
    } else {
        seq![]
    })
}

/// The part of a frame that comes before the filling line.
pub open spec fn frame_text(rows: nat, cols: nat, bar: BarView) -> Seq<u8> {
    frame_head(rows, bar.dark) + label(cols, bar.dir)
}

/// The part of a frame that comes after the filling line: reset the colors and
/// restore the cursor.
pub open spec fn frame_end() -> Seq<u8> {
    ascii("\x1b[0m"@) + restore_cursor()
}

/// How many columns of the filling line are drawn: all that the layout leaves,
/// as far as the buffer holds them.
pub open spec fn frame_fill(rows: nat, cols: nat, bar: BarView) -> nat {
    let wanted = layout(cols, bar.dir.len()).fill;
    let room = ((FRAME_SIZE - frame_text(rows, cols, bar).len()) / 3) as nat;
    if wanted <= room {
        wanted
    } else {
        room
    }
}

/// The output that draws the bar on a terminal of this size.
pub open spec fn frame(rows: nat, cols: nat, bar: BarView) -> Seq<u8> {
    clip(
        frame_text(rows, cols, bar) + box_dashes(frame_fill(rows, cols, bar)) + frame_end(),
        FRAME_SIZE as nat,
    )
}

proof fn lemma_literals()
    ensures
        save_cursor().len() == 2,
        restore_cursor().len() == 2,
        ascii("\x1b[1;"@).len() == 4,
        ascii("r"@).len() == 1,
        ascii("\x1b["@).len() == 2,
        ascii(";1H"@).len() == 3,
        colors(true).len() == 10,
        colors(false).len() == 11,
        ascii(" ai-jail "@).len() == 9,
        ascii(" "@).len() == 1,
        ascii("\x1b[0m"@).len() == 4,
        ascii("\x1b[r"@).len() == 3,
        ascii("\x1b[2K"@).len() == 4,
        vstd::string::is_ascii("\x1b7"),
        vstd::string::is_ascii("\x1b8"),
        vstd::string::is_ascii("\x1b[1;"),
        vstd::string::is_ascii("r"),
        vstd::string::is_ascii("\x1b["),
        vstd::string::is_ascii(";1H"),
        vstd::string::is_ascii("\x1b[1;97;40m"),
        vstd::string::is_ascii("\x1b[1;30;107m"),
        vstd::string::is_ascii(" ai-jail "),
        vstd::string::is_ascii(" "),
        vstd::string::is_ascii("\x1b[0m"),
        vstd::string::is_ascii("\x1b[r"),
        vstd::string::is_ascii("\x1b[2K"),
{
    reveal_strlit("\x1b7");
    reveal_strlit("\x1b8");
    reveal_strlit("\x1b[1;");
    reveal_strlit("r");
    reveal_strlit("\x1b[");
    reveal_strlit(";1H");
    reveal_strlit("\x1b[1;97;40m");
    reveal_strlit("\x1b[1;30;107m");
    reveal_strlit(" ai-jail ");
    reveal_strlit(" ");
    reveal_strlit("\x1b[0m");
    reveal_strlit("\x1b[r");
    reveal_strlit("\x1b[2K");
}

proof fn lemma_box_dashes_len(n: nat)
    ensures
        box_dashes(n).len() == 3 * n,
    decreases n,
{
    if n > 0 {
        lemma_box_dashes_len((n - 1) as nat);
    }
}

/// Begins a frame.
fn put_head(rows: u16, dark: bool) -> (out: OutBuf<FRAME_SIZE>)
    requires
        rows >= 1,
    ensures
        out@ == frame_head(rows as nat, dark),
        out@.len() <= 33,
{
    proof {
        lemma_literals();
        lemma_decimal_len((rows - 1) as u16);
        lemma_decimal_len(rows);
    }
    let mut out: OutBuf<FRAME_SIZE> = OutBuf::new();
    // The cursor is saved before the scroll region is set, which moves it.
    out.put(ascii_bytes("\x1b7"));
    out.put(ascii_bytes("\x1b[1;"));
    out.put_u16(rows - 1);
    out.put(ascii_bytes("r"));
    assert(out@ =~= save_cursor() + scroll_region((rows - 1) as nat));
    out.put(ascii_bytes("\x1b["));
    out.put_u16(rows);
    out.put(ascii_bytes(";1H"));
    assert(out@ =~= save_cursor() + scroll_region((rows - 1) as nat) + goto_row(rows as nat));
    if dark {
        out.put(ascii_bytes("\x1b[1;97;40m"));
    } else {
        out.put(ascii_bytes("\x1b[1;30;107m"));
    }
    out
}

/// Appends the text of the bar. Returns the number of columns that it takes.
fn put_label(out: &mut OutBuf<FRAME_SIZE>, bar: &StatusBar, cols: usize) -> (vis: usize)
    requires
        old(out)@.len() <= 33,
    ensures
        final(out)@ == old(out)@ + label(cols as nat, bar@.dir),
        final(out)@.len() <= FRAME_SIZE,
        vis + layout(cols as nat, bar@.dir.len()).fill == cols,
{
    proof {
        use_type_invariant(bar);
        lemma_literals();
    }
    let ghost before = out@;
    let ghost l = layout(cols as nat, bar@.dir.len());
    let mut vis: usize = 0;
    if PREFIX_COLUMNS <= cols {
        out.put(ascii_bytes(" ai-jail "));
        out.put(&[0xe2u8, 0x94u8, 0x80u8]);
        out.put(ascii_bytes(" "));
        vis = PREFIX_COLUMNS;
        assert(out@ =~= before + prefix());
    }
    let max_dir: usize = if cols > vis + 1 { cols - vis - 1 } else { 0 };
    let dir_vis: usize = if bar.dir_len <= max_dir { bar.dir_len } else { max_dir };
    let dir_buf: &[u8] = &bar.dir_buf;
    let shown = &dir_buf[0..dir_vis];
    assert(shown@ =~= bar@.dir.take(l.dir as int));
    out.put(shown);
    vis = vis + dir_vis;
    if vis < cols {
        out.put(ascii_bytes(" "));
        vis = vis + 1;
    }
    assert(out@ =~= before + label(cols as nat, bar@.dir));
    vis
}

/// Appends the filling line from column `from` on. It ends early where the buffer is
/// full.
fn put_fill(out: &mut OutBuf<FRAME_SIZE>, from: usize, cols: usize)
    requires
        from <= cols,
        old(out)@.len() <= FRAME_SIZE,
    ensures
        final(out)@ == old(out)@ + box_dashes(
            {
                let room = ((FRAME_SIZE - old(out)@.len()) / 3) as nat;
                if cols - from <= room {
                    (cols - from) as nat
                } else {
                    room
                }
            },
        ),
        final(out)@.len() <= FRAME_SIZE,
{
    let ghost before = out@;
    let ghost mut n: nat = 0;
    let mut vis: usize = from;
    assert(before =~= before + box_dashes(0));
    while vis < cols && out.len() + 3 <= FRAME_SIZE
        invariant
            vis == from + n,
            vis <= cols,
            out@ == before + box_dashes(n),
            out@.len() == before.len() + 3 * n,
            out@.len() <= FRAME_SIZE,
        decreases cols - vis,
    {
        out.put(&[0xe2u8, 0x94u8, 0x80u8]);
        vis = vis + 1;
        proof {
            n = n + 1;
            lemma_box_dashes_len(n);
            assert(out@ =~= before + box_dashes(n));
        }
    }
}

/// Renders the scroll region and the status line for a terminal of this size.
pub fn draw(bar: &StatusBar, rows: u16, cols: u16) -> (out: OutBuf<FRAME_SIZE>)
    requires
        rows >= 1,
    ensures
        out@ == frame(rows as nat, cols as nat, bar@),
{
    let mut out = put_head(rows, bar.style_dark);
    let vis: usize = put_label(&mut out, bar, cols as usize);
    assert(out@ == frame_text(rows as nat, cols as nat, bar@));
    put_fill(&mut out, vis, cols as usize);
    proof {
        lemma_literals();
    }
    out.put(ascii_bytes("\x1b[0m"));
    out.put(ascii_bytes("\x1b8"));
    assert(out@ =~= frame(rows as nat, cols as nat, bar@));
    out
}

/// Whether there is room for a bar: the size of the terminal is known, and one row
/// is left beside it.
pub open spec fn has_room(size: Option<(u16, u16)>) -> bool {
    size matches Some((rows, _)) && rows >= 2
}

/// The bar after `setup`.
pub open spec fn after_setup(
    bar: BarView,
    project_dir: Seq<u8>,
    style: Seq<char>,
    size: Option<(u16, u16)>,
) -> BarView {
    BarView {
        active: bar.active || has_room(size),
        dark: style != "light"@,
        dir: clip(project_dir, MAX_DIR as nat),
    }
}

/// What `redraw` writes, if anything.
pub open spec fn redraw_output(bar: BarView, size: Option<(u16, u16)>) -> Option<Seq<u8>> {
    match size {
        Some((rows, cols)) => if bar.active && rows >= 2 {
            Some(frame(rows as nat, cols as nat, bar))
        } else {
            None
        },
        None => None,
    }
}

/// The bar after `teardown`.
pub open spec fn after_teardown(bar: BarView) -> BarView {
    BarView { active: false, ..bar }
}

/// What `teardown` writes, if anything: reset the scroll region, go to the last
/// row (of 24 if the size is not known) and clear it.
pub open spec fn teardown_output(bar: BarView, size: Option<(u16, u16)>) -> Option<Seq<u8>> {
    if bar.active {
        let rows: nat = match size {
            Some((rows, _)) => rows as nat,
            None => 24,
        };
        Some(ascii("\x1b[r"@) + goto_row(rows) + ascii("\x1b[2K"@))
    } else {
        None
    }
}

/// The second piece of what `setup` writes: the cursor goes to the bottom of the scroll
/// region.
pub open spec fn setup_cursor(size: Option<(u16, u16)>) -> Seq<u8> {
    goto_row(((size->0).0 - 1) as nat)
}

/// Whether `style` asks for the light colors.
fn is_light(style: &str) -> (r: bool)
    ensures
        r == (style@ == "light"@),
{
    proof {
        vstd::utf8::encode_utf8_decode_utf8(style@);
        vstd::utf8::encode_utf8_decode_utf8("light"@);
    }
    same_bytes(style.as_bytes(), "light".as_bytes())
}

/// Sets up the status bar, before the child is started. `style` is `"light"`, or
/// anything else for dark. `size` is that of the terminal, if it is known. Returns
/// what is to be written to the terminal, in two pieces: the frame, and a move of
/// the cursor to the bottom of the scroll region, so that the child's output does
/// not land on the bar. Without room for a bar, nothing is written and the bar is
/// not activated.
pub fn setup(
    bar: &mut StatusBar,
    project_dir: &[u8],
    style: &str,
    size: Option<(u16, u16)>,
) -> (out: Option<(OutBuf<FRAME_SIZE>, OutBuf<16>)>)
    ensures
        final(bar)@ == after_setup(old(bar)@, project_dir@, style@, size),
        out is Some <==> has_room(size),
        out matches Some((drawn, cursor)) ==> {
            &&& Some(drawn@) == redraw_output(final(bar)@, size)
            &&& cursor@ == setup_cursor(size)
        },
{
    proof {
        use_type_invariant(&*bar);
    }
    bar.style_dark = !is_light(style);
    let len: usize = if project_dir.len() <= MAX_DIR { project_dir.len() } else { MAX_DIR };
    let mut dir_buf: [u8; MAX_DIR] = bar.dir_buf;
    let mut i: usize = 0;
    while i < len
        invariant
            i <= len <= project_dir@.len(),
            len <= MAX_DIR,
            forall|k: int| 0 <= k < i ==> dir_buf@[k] == project_dir@[k],
        decreases len - i,
    {
        dir_buf[i] = project_dir[i];
        i = i + 1;
    }
    bar.dir_buf = dir_buf;
    bar.dir_len = len;
    assert(bar@.dir =~= clip(project_dir@, MAX_DIR as nat));

    let (rows, cols): (u16, u16) = match size {
        Some((rows, cols)) => (rows, cols),
        None => {
            return None;
        },
    };
    if rows < 2 {
        return None;
    }
    bar.active = true;
    let drawn = draw(bar, rows, cols);

    proof {
        lemma_literals();
        lemma_decimal_len((rows - 1) as u16);
    }
    let mut cursor: OutBuf<16> = OutBuf::new();
    cursor.put(ascii_bytes("\x1b["));
    cursor.put_u16(rows - 1);
    cursor.put(ascii_bytes(";1H"));
    assert(cursor@ =~= goto_row((rows - 1) as nat));
    Some((drawn, cursor))
}

/// Tears down the status bar, after the child has exited. `size` is that of the
/// terminal, if it is known. Returns what is to be written to the terminal:
/// nothing if the bar was not active.
pub fn teardown(bar: &mut StatusBar, size: Option<(u16, u16)>) -> (out: Option<OutBuf<64>>)
    ensures
        final(bar)@ == after_teardown(old(bar)@),
        match out {
            Some(o) => teardown_output(old(bar)@, size) == Some(o@),
            None => teardown_output(old(bar)@, size) is None,
        },
{
    proof {
        use_type_invariant(&*bar);
    }
    if !bar.active {
        return None;
    }
    bar.active = false;
    let rows: u16 = match size {
        Some((rows, _)) => rows,
        None => 24,
    };
    proof {
        lemma_literals();
        lemma_decimal_len(rows);
    }
    let mut out: OutBuf<64> = OutBuf::new();
    out.put(ascii_bytes("\x1b[r"));
    out.put(ascii_bytes("\x1b["));
    out.put_u16(rows);
    out.put(ascii_bytes(";1H"));
    out.put(ascii_bytes("\x1b[2K"));
    assert(out@ =~= teardown_output(old(bar)@, size)->0);
    Some(out)
}

/// Draws the bar again, after a resize or after output of the child. `size` is
/// that of the terminal, if it is known. Returns what is to be written to the
/// terminal: nothing if the bar is not active or there is no room for it.
pub fn redraw(bar: &StatusBar, size: Option<(u16, u16)>) -> (out: Option<OutBuf<FRAME_SIZE>>)
    ensures
        match out {
            Some(o) => redraw_output(bar@, size) == Some(o@),
            None => redraw_output(bar@, size) is None,
        },
{
    if !bar.active {
        return None;
    }
    match size {
        Some((rows, cols)) => {
            if rows < 2 {
                return None;
            }
            Some(draw(bar, rows, cols))
        },
        None => None,
    }
}

/// The parts of the status line take all columns of the terminal, and no more.
pub proof fn law_bar_spans_the_line(cols: nat, dir_len: nat)
    ensures
        ({
            let l = layout(cols, dir_len);
            l.prefix + l.dir + l.gap + l.fill == cols
        }),
{
}

/// The directory is shown whole if the line has room for it, and else its first
/// bytes are. Either way a column for the space behind it is left, on every line
/// that has one beside the fixed text.
pub proof fn law_directory_is_cut_to_fit(cols: nat, dir_len: nat)
    ensures
        ({
            let l = layout(cols, dir_len);
            &&& l.dir <= dir_len
            &&& l.prefix + dir_len + 1 <= cols ==> l.dir == dir_len
            &&& l.prefix < cols ==> l.gap == 1
        }),
{
}

/// Whether the buffer holds a whole frame: the text, the line up to the last column, and the
/// end.
pub open spec fn fits(rows: nat, cols: nat, bar: BarView) -> bool {
    frame_text(rows, cols, bar).len() + 3 * layout(cols, bar.dir.len()).fill + frame_end().len()
        <= FRAME_SIZE
}

/// A frame takes at most 50 bytes beside three for each column. So the buffer holds a whole
/// frame of up to 2714 columns.
pub proof fn law_frame_size(rows: u16, cols: u16, bar: BarView)
    requires
        rows >= 1,
    ensures
        frame_text(rows as nat, cols as nat, bar).len() + 3 * layout(
            cols as nat,
            bar.dir.len(),
        ).fill + frame_end().len() <= 50 + 3 * cols,
        cols <= 2714 ==> fits(rows as nat, cols as nat, bar),
{
    lemma_literals();
    lemma_decimal_len((rows - 1) as u16);
    lemma_decimal_len(rows);
    assert(colors(bar.dark).len() <= 11);
}

/// A frame that the buffer holds is whole: the text, the line up to the last
/// column, and the end. So it begins by saving the cursor and ends by restoring it.
pub proof fn law_frame_is_whole(rows: u16, cols: u16, bar: BarView)
    requires
        rows >= 1,
        fits(rows as nat, cols as nat, bar),
    ensures
        ({
            let f = frame(rows as nat, cols as nat, bar);
            &&& f == frame_text(rows as nat, cols as nat, bar) + box_dashes(
                layout(cols as nat, bar.dir.len()).fill,
            ) + frame_end()
            &&& save_cursor().is_prefix_of(f)
            &&& restore_cursor().is_suffix_of(f)
        }),
{
    lemma_literals();
    lemma_box_dashes_len(layout(cols as nat, bar.dir.len()).fill);
}

/// Output that begins with a control sequence which resets nothing.
proof fn lemma_csi_then(state: SeqState, params: Seq<u8>, last: u8, rest: Seq<u8>)
    requires
        forall|k: int| 0 <= k < params.len() ==> is_parameter(#[trigger] params[k]),
        last >= 0x40,
        !(Token::Csi { params, last }).resets(),
    ensures
        has_reset(csi(params, last) + rest) == has_reset(rest),
        state.after(csi(params, last) + rest) == SeqState::Normal.after(rest),
{
    let none = Seq::<u8>::empty();
    law_embedded_control_sequence(none, params, last, rest);
    law_plain_text_has_no_reset(none);
    assert(none + csi(params, last) == csi(params, last));
    assert forall|k: int| 0 <= k < params.len() implies 0x20 <= #[trigger] params[k] <= 0x3f by {
        assert(is_parameter(params[k]));
    }
    law_csi_is_open_until_its_final_byte(state, params, last);
    law_chunks_compose(state, csi(params, last), rest);
}

/// Output that begins with an escape sequence of two bytes which resets nothing.
proof fn lemma_escape_then(state: SeqState, b: u8, rest: Seq<u8>)
    requires
        b == '7' as u8 || b == '8' as u8,
    ensures
        has_reset(seq![ESC, b] + rest) == has_reset(rest),
        state.after(seq![ESC, b] + rest) == SeqState::Normal.after(rest),
{
    let none = Seq::<u8>::empty();
    law_embedded_escape_sequence(none, b, rest);
    law_plain_text_has_no_reset(none);
    assert(none + seq![ESC, b] == seq![ESC, b]);
    assert(seq![ESC, b].drop_last() == seq![ESC]);
    assert(seq![ESC].drop_last() == none);
    reveal_with_fuel(SeqState::after, 3);
    law_chunks_compose(state, seq![ESC, b], rest);
}

/// The filling line is plain.
proof fn lemma_box_dashes_are_plain(n: nat)
    ensures
        forall|k: int| 0 <= k < box_dashes(n).len() ==> #[trigger] box_dashes(n)[k] != ESC,
    decreases n,
{
    if n > 0 {
        let fewer = box_dashes((n - 1) as nat);
        lemma_box_dashes_are_plain((n - 1) as nat);
        assert forall|k: int| 0 <= k < box_dashes(n).len() implies #[trigger] box_dashes(n)[k]
            != ESC by {
            if k < fewer.len() {
                assert(box_dashes(n)[k] == fewer[k]);
            } else {
                assert(box_dashes(n)[k] == box_dash()[k - fewer.len()]);
            }
        }
    }
}

/// The text of the bar is plain if the directory is.
proof fn lemma_label_is_plain(cols: nat, dir: Seq<u8>)
    requires
        forall|k: int| 0 <= k < dir.len() ==> #[trigger] dir[k] != ESC,
    ensures
        forall|k: int| 0 <= k < label(cols, dir).len() ==> #[trigger] label(cols, dir)[k] != ESC,
{
    reveal_strlit(" ai-jail ");
    reveal_strlit(" ");
}

/// What follows the colors: plain text, the colors being reset, and the cursor being restored.
proof fn lemma_frame_tail(text: Seq<u8>)
    requires
        forall|k: int| 0 <= k < text.len() ==> #[trigger] text[k] != ESC,
    ensures
        !has_reset(text + frame_end()),
        SeqState::Normal.after(text + frame_end()) == SeqState::Normal,
{
    let none = Seq::<u8>::empty();
    reveal_strlit("\x1b[0m");
    reveal_strlit("\x1b8");
    assert(frame_end() == csi(seq!['0' as u8], 'm' as u8) + (seq![ESC, '8' as u8] + none));
    lemma_csi_then(SeqState::Normal, seq!['0' as u8], 'm' as u8, seq![ESC, '8' as u8] + none);
    lemma_escape_then(SeqState::Normal, '8' as u8, none);
    law_plain_text_has_no_reset(none);
    law_plain_text_has_no_reset(text);
    law_reset_of_parts(text, frame_end());
    law_plain_text_stays_normal(text);
    law_chunks_compose(SeqState::Normal, text, frame_end());
}

/// The head of a frame resets nothing and leaves no control sequence open.
proof fn lemma_frame_head(state: SeqState, rows: nat, dark: bool, rest: Seq<u8>)
    requires
        rows >= 1,
    ensures
        has_reset(frame_head(rows, dark) + rest) == has_reset(rest),
        state.after(frame_head(rows, dark) + rest) == SeqState::Normal.after(rest),
{
    let top = ascii("1;"@) + decimal((rows - 1) as nat);
    let home = decimal(rows) + ascii(";1"@);
    let look = if dark {
        ascii("1;97;40"@)
    } else {
        ascii("1;30;107"@)
    };
    reveal_strlit("\x1b7");
    reveal_strlit("\x1b[1;");
    reveal_strlit("1;");
    reveal_strlit("r");
    reveal_strlit("\x1b[");
    reveal_strlit(";1H");
    reveal_strlit(";1");
    reveal_strlit("\x1b[1;97;40m");
    reveal_strlit("1;97;40");
    reveal_strlit("\x1b[1;30;107m");
    reveal_strlit("1;30;107");
    law_decimal_reads_back((rows - 1) as nat);
    law_decimal_reads_back(rows);
    assert(save_cursor() == seq![ESC, '7' as u8]);
    assert(scroll_region((rows - 1) as nat) == csi(top, 'r' as u8));
    assert(goto_row(rows) == csi(home, 'H' as u8));
    assert(colors(dark) == csi(look, 'm' as u8));
    let after_region = csi(home, 'H' as u8) + (csi(look, 'm' as u8) + rest);
    assert(frame_head(rows, dark) + rest == seq![ESC, '7' as u8] + (csi(top, 'r' as u8)
        + after_region));
    lemma_escape_then(state, '7' as u8, csi(top, 'r' as u8) + after_region);
    lemma_csi_then(SeqState::Normal, top, 'r' as u8, after_region);
    lemma_csi_then(SeqState::Normal, home, 'H' as u8, csi(look, 'm' as u8) + rest);
    lemma_csi_then(SeqState::Normal, look, 'm' as u8, rest);
}

/// With an `ESC` nowhere in the directory's name, a frame does not reset the scroll region,
/// and a whole frame leaves no control sequence open, wherever the stream stood before.
pub proof fn law_frame_disturbs_nothing(rows: u16, cols: u16, bar: BarView, state: SeqState)
    requires
        rows >= 1,
        forall|k: int| 0 <= k < bar.dir.len() ==> #[trigger] bar.dir[k] != ESC,
    ensures
        !has_reset(frame(rows as nat, cols as nat, bar)),
        fits(rows as nat, cols as nat, bar) ==> state.after(frame(rows as nat, cols as nat, bar))
            == SeqState::Normal,
{
    let fill = frame_fill(rows as nat, cols as nat, bar);
    let text = label(cols as nat, bar.dir) + box_dashes(fill);
    let whole = frame_text(rows as nat, cols as nat, bar) + box_dashes(fill) + frame_end();
    let f = frame(rows as nat, cols as nat, bar);
    lemma_label_is_plain(cols as nat, bar.dir);
    lemma_box_dashes_are_plain(fill);
    assert(whole == frame_head(rows as nat, bar.dark) + (text + frame_end()));
    lemma_frame_tail(text);
    lemma_frame_head(state, rows as nat, bar.dark, text + frame_end());
    assert(whole == f + whole.skip(f.len() as int));
    if has_reset(f) {
        law_reset_is_not_undone(f, whole.skip(f.len() as int));
    }
    if fits(rows as nat, cols as nat, bar) {
        lemma_box_dashes_len(fill);
        assert(f == whole);
    }
}

/// Drawing confines scrolling to the rows that the pseudo-terminal has, so the
/// child's output never scrolls the bar's row.
pub proof fn law_scroll_region_is_the_childs_screen(
    size: WindowSize,
    child: WindowSize,
    dark: bool,
)
    requires
        resized(0, 0, size) == Some(child),
    ensures
        frame_head(size.rows as nat, dark) == save_cursor() + scroll_region(child.rows as nat)
            + goto_row(child.rows as nat + 1) + colors(dark),
{
}

/// Once set up, the bar is drawn again as it was drawn at first, on a terminal of
/// the same size.
pub proof fn law_redraw_repeats_setup(
    bar: BarView,
    project_dir: Seq<u8>,
    style: Seq<char>,
    size: Option<(u16, u16)>,
)
    requires
        has_room(size),
    ensures
        ({
            let after = after_setup(bar, project_dir, style, size);
            &&& after.active
            &&& redraw_output(after, size) == Some(
                frame((size->0).0 as nat, (size->0).1 as nat, after),
            )
        }),
{
}

/// A bar that was torn down writes nothing until it is set up again, and tearing
/// it down twice is tearing it down once.
pub proof fn law_teardown_is_final(bar: BarView, size: Option<(u16, u16)>)
    ensures
        redraw_output(after_teardown(bar), size) is None,
        teardown_output(after_teardown(bar), size) is None,
        after_teardown(after_teardown(bar)) == after_teardown(bar),
{
}

/// A bar that was never set up writes nothing.
pub proof fn law_inactive_bar_is_silent(bar: BarView, size: Option<(u16, u16)>)
    requires
        !bar.active,
    ensures
        redraw_output(bar, size) is None,
        teardown_output(bar, size) is None,
{
}

/// A frame begins by saving the cursor, confining scrolling to the rows above the last, going
/// to the start of the last row and choosing the colors of the style: byte by byte, on a
/// terminal of any size.
pub proof fn law_frame_sets_the_screen(rows: u16, cols: u16, bar: BarView)
    requires
        rows >= 1,
        bar.dir.len() <= 4096,
    ensures
        (seq![0x1bu8, 0x37u8, 0x1bu8, 0x5bu8, 0x31u8, 0x3bu8] + decimal((rows - 1) as nat) + seq![
            0x72u8,
            0x1bu8,
            0x5bu8,
        ] + decimal(rows as nat) + seq![
            0x3bu8,
            0x31u8,
            0x48u8,
            0x1bu8,
            0x5bu8,
            0x31u8,
            0x3bu8,
        ] + (if bar.dark {
            seq![0x39u8, 0x37u8, 0x3bu8, 0x34u8, 0x30u8, 0x6du8]
        } else {
            seq![0x33u8, 0x30u8, 0x3bu8, 0x31u8, 0x30u8, 0x37u8, 0x6du8]
        })).is_prefix_of(frame(rows as nat, cols as nat, bar)),
{
    lemma_text_is_whole(rows, cols, bar);
    lemma_head_bytes(rows as nat, bar.dark);
    let head = frame_head(rows as nat, bar.dark);
    let f = frame(rows as nat, cols as nat, bar);
    assert(f.take(head.len() as int) =~= head);
}

/// The head of a frame in bytes.
proof fn lemma_head_bytes(rows: nat, dark: bool)
    requires
        rows >= 1,
    ensures
        frame_head(rows, dark) == seq![0x1bu8, 0x37u8, 0x1bu8, 0x5bu8, 0x31u8, 0x3bu8] + decimal(
            (rows - 1) as nat,
        ) + seq![0x72u8, 0x1bu8, 0x5bu8] + decimal(rows) + seq![
            0x3bu8,
            0x31u8,
            0x48u8,
            0x1bu8,
            0x5bu8,
            0x31u8,
            0x3bu8,
        ] + (if dark {
            seq![0x39u8, 0x37u8, 0x3bu8, 0x34u8, 0x30u8, 0x6du8]
        } else {
            seq![0x33u8, 0x30u8, 0x3bu8, 0x31u8, 0x30u8, 0x37u8, 0x6du8]
        }),
{
    reveal_strlit("\x1b7");
    reveal_strlit("\x1b[1;");
    reveal_strlit("r");
    reveal_strlit("\x1b[");
    reveal_strlit(";1H");
    reveal_strlit("\x1b[1;97;40m");
    reveal_strlit("\x1b[1;30;107m");
    assert(frame_head(rows, dark) =~= seq![0x1bu8, 0x37u8, 0x1bu8, 0x5bu8, 0x31u8, 0x3bu8]
        + decimal((rows - 1) as nat) + seq![0x72u8, 0x1bu8, 0x5bu8] + decimal(rows) + seq![
        0x3bu8,
        0x31u8,
        0x48u8,
        0x1bu8,
        0x5bu8,
        0x31u8,
        0x3bu8,
    ] + (if dark {
        seq![0x39u8, 0x37u8, 0x3bu8, 0x34u8, 0x30u8, 0x6du8]
    } else {
        seq![0x33u8, 0x30u8, 0x3bu8, 0x31u8, 0x30u8, 0x37u8, 0x6du8]
    }));
}

/// The text of a frame is never clipped: the buffer holds it, whatever the size of the
/// terminal.
proof fn lemma_text_is_whole(rows: u16, cols: u16, bar: BarView)
    requires
        rows >= 1,
        bar.dir.len() <= 4096,
    ensures
        frame_text(rows as nat, cols as nat, bar).len() <= 4143,
        frame_text(rows as nat, cols as nat, bar).is_prefix_of(
            frame(rows as nat, cols as nat, bar),
        ),
{
    lemma_literals();
    lemma_decimal_len((rows - 1) as u16);
    lemma_decimal_len(rows);
    assert(colors(bar.dark).len() <= 11);
}

/// Where the text of a frame begins, behind what sets the screen.
pub open spec fn text_start(rows: u16, dark: bool) -> int {
    16 + decimal((rows - 1) as nat).len() + decimal(rows as nat).len() + (if dark {
        6int
    } else {
        7
    })
}

/// How many bytes of a directory of `len` bytes a line of `cols` columns shows, behind fixed
/// text of `before` columns: all of them, or as many as leave one column free.
pub open spec fn shown_bytes(cols: int, before: int, len: int) -> int {
    if before + len < cols {
        len
    } else if before < cols {
        cols - before - 1
    } else {
        0
    }
}

/// A part of what a longer sequence begins with.
proof fn lemma_part(f: Seq<u8>, a: Seq<u8>, b: Seq<u8>, c: Seq<u8>)
    requires
        (a + b + c).is_prefix_of(f),
    ensures
        a.len() + b.len() <= f.len(),
        f.subrange(a.len() as int, (a.len() + b.len()) as int) == b,
{
    let s = a + b + c;
    assert(s == f.take(s.len() as int));
    assert forall|k: int| 0 <= k < b.len() implies f[a.len() + k] == #[trigger] b[k] by {
        assert(s[a.len() + k] == b[k]);
    }
    assert(f.subrange(a.len() as int, (a.len() + b.len()) as int) =~= b);
}

/// The fixed text in bytes.
proof fn lemma_prefix_bytes()
    ensures
        prefix() == seq![
            0x20u8,
            0x61u8,
            0x69u8,
            0x2du8,
            0x6au8,
            0x61u8,
            0x69u8,
            0x6cu8,
            0x20u8,
            0xe2u8,
            0x94u8,
            0x80u8,
            0x20u8,
        ],
        ascii(" "@) == seq![0x20u8],
{
    reveal_strlit(" ai-jail ");
    reveal_strlit(" ");
    assert(ascii(" "@) =~= seq![0x20u8]);
    assert(prefix() =~= seq![
        0x20u8,
        0x61u8,
        0x69u8,
        0x2du8,
        0x6au8,
        0x61u8,
        0x69u8,
        0x6cu8,
        0x20u8,
        0xe2u8,
        0x94u8,
        0x80u8,
        0x20u8,
    ]);
}

/// The head of a frame ends where the text begins.
proof fn lemma_text_start(rows: u16, dark: bool)
    requires
        rows >= 1,
    ensures
        frame_head(rows as nat, dark).len() == text_start(rows, dark),
{
    lemma_head_bytes(rows as nat, dark);
}

/// On a line of at least 11 columns the bar begins with its fixed text.
pub proof fn law_line_begins_with_the_fixed_text(rows: u16, cols: u16, bar: BarView, start: int)
    requires
        rows >= 1,
        cols >= 11,
        bar.dir.len() <= 4096,
        start == text_start(rows, bar.dark),
    ensures
        frame(rows as nat, cols as nat, bar).subrange(start, start + 13) == seq![
            0x20u8,
            0x61u8,
            0x69u8,
            0x2du8,
            0x6au8,
            0x61u8,
            0x69u8,
            0x6cu8,
            0x20u8,
            0xe2u8,
            0x94u8,
            0x80u8,
            0x20u8,
        ],
{
    let f = frame(rows as nat, cols as nat, bar);
    let head = frame_head(rows as nat, bar.dark);
    let rest = label(cols as nat, bar.dir).skip(13);
    lemma_text_is_whole(rows, cols, bar);
    lemma_text_start(rows, bar.dark);
    lemma_prefix_bytes();
    assert(label(cols as nat, bar.dir) =~= prefix() + rest);
    assert(frame_text(rows as nat, cols as nat, bar) =~= head + prefix() + rest);
    lemma_part(f, head, prefix(), rest);
}

/// Behind the fixed text, or at the start of a line without it, stand the first bytes of the
/// project directory as they are: all of them, or as many as leave one column free. A space
/// follows if a column is left.
pub proof fn law_line_shows_the_directory(
    rows: u16,
    cols: u16,
    bar: BarView,
    before: int,
    at: int,
    shown: int,
)
    requires
        rows >= 1,
        bar.dir.len() <= 4096,
        cols >= 11 ==> before == 11 && at == text_start(rows, bar.dark) + 13,
        cols < 11 ==> before == 0 && at == text_start(rows, bar.dark),
        shown == shown_bytes(cols as int, before, bar.dir.len() as int),
    ensures
        frame(rows as nat, cols as nat, bar).subrange(at, at + shown) == bar.dir.take(shown),
        before + shown < cols ==> frame(rows as nat, cols as nat, bar).subrange(
            at + shown,
            at + shown + 1,
        ) == seq![0x20u8],
{
    let f = frame(rows as nat, cols as nat, bar);
    lemma_text_is_whole(rows, cols, bar);
    lemma_text_start(rows, bar.dark);
    lemma_prefix_bytes();
    let none = Seq::<u8>::empty();
    let head = frame_head(rows as nat, bar.dark) + (if cols >= 11 {
        prefix()
    } else {
        none
    });
    let dir = bar.dir.take(shown);
    let gap = if before + shown < cols {
        seq![0x20u8]
    } else {
        none
    };
    lemma_layout(cols as nat, bar.dir.len(), before, shown);
    assert(head.len() == at);
    assert(dir.len() == shown);
    assert(frame_text(rows as nat, cols as nat, bar) =~= head + dir + gap);
    lemma_part(f, head, dir, gap);
    assert(head + dir + gap =~= (head + dir) + gap + none);
    lemma_part(f, head + dir, gap, none);
}

/// The layout in numbers.
proof fn lemma_layout(cols: nat, dir_len: nat, before: int, shown: int)
    requires
        cols >= 11 ==> before == 11,
        cols < 11 ==> before == 0,
        shown == shown_bytes(cols as int, before, dir_len as int),
    ensures
        layout(cols, dir_len).prefix == before,
        layout(cols, dir_len).dir == shown,
        0 <= shown <= dir_len,
        layout(cols, dir_len).gap == (if before + shown < cols {
            1nat
        } else {
            0
        }),
        layout(cols, dir_len).fill == (if before + shown < cols {
            cols - before - shown - 1
        } else {
            0
        }),
{
}

/// Whether `line` is made of dashes, in UTF-8.
pub open spec fn is_dashes(line: Seq<u8>) -> bool {
    forall|j: int|
        0 <= j < line.len() ==> #[trigger] line[j] == if j % 3 == 0 {
            0xe2u8
        } else if j % 3 == 1 {
            0x94u8
        } else {
            0x80u8
        }
}

/// From the text to the last column the line is filled with dashes, as far as the buffer holds
/// them, and then the colors are reset and the cursor is restored, as far as the buffer holds
/// that. There is nothing else in a frame. `from` is where the dashes begin, and `wanted` is
/// how many columns are left.
pub proof fn law_line_is_filled(
    rows: u16,
    cols: u16,
    bar: BarView,
    before: int,
    shown: int,
    from: int,
    wanted: int,
    end: int,
)
    requires
        rows >= 1,
        bar.dir.len() <= 4096,
        cols >= 11 ==> before == 11,
        cols < 11 ==> before == 0,
        shown == shown_bytes(cols as int, before, bar.dir.len() as int),
        before + shown < cols ==> wanted == cols - before - shown - 1,
        before + shown >= cols ==> wanted == 0,
        from == text_start(rows, bar.dark) + shown + (if cols >= 11 {
            13int
        } else {
            0
        }) + (if before + shown < cols {
            1int
        } else {
            0
        }),
        from + 3 * wanted <= 8192 ==> end == from + 3 * wanted,
        from + 3 * wanted > 8192 ==> end == from + (8192 - from) / 3 * 3,
    ensures
        from <= end <= 8192,
        end <= frame(rows as nat, cols as nat, bar).len() <= 8192,
        is_dashes(frame(rows as nat, cols as nat, bar).subrange(from, end)),
        end + 6 <= 8192 ==> frame(rows as nat, cols as nat, bar).skip(end) == seq![
            0x1bu8,
            0x5bu8,
            0x30u8,
            0x6du8,
            0x1bu8,
            0x38u8,
        ],
        end + 6 > 8192 ==> frame(rows as nat, cols as nat, bar).skip(end) == seq![
            0x1bu8,
            0x5bu8,
            0x30u8,
            0x6du8,
            0x1bu8,
            0x38u8,
        ].take(8192 - end),
{
    let f = frame(rows as nat, cols as nat, bar);
    let text = frame_text(rows as nat, cols as nat, bar);
    lemma_text_is_whole(rows, cols, bar);
    lemma_text_start(rows, bar.dark);
    lemma_prefix_bytes();
    lemma_layout(cols as nat, bar.dir.len(), before, shown);
    assert(text.len() == from);
    let fill = frame_fill(rows as nat, cols as nat, bar);
    lemma_box_dashes_len(fill);
    lemma_box_dashes_bytes(fill);
    assert(end == from + 3 * fill);
    lemma_frame_end_bytes();
    let whole = text + box_dashes(fill) + frame_end();
    assert(f == clip(whole, 8192));
    assert(f.subrange(from, end) =~= box_dashes(fill));
    if end + 6 <= 8192 {
        assert(f.skip(end) =~= frame_end());
    } else {
        assert(f.skip(end) =~= frame_end().take(8192 - end));
    }
}

/// The end of a frame in bytes.
proof fn lemma_frame_end_bytes()
    ensures
        frame_end() == seq![0x1bu8, 0x5bu8, 0x30u8, 0x6du8, 0x1bu8, 0x38u8],
{
    reveal_strlit("\x1b[0m");
    reveal_strlit("\x1b8");
    assert(frame_end() =~= seq![0x1bu8, 0x5bu8, 0x30u8, 0x6du8, 0x1bu8, 0x38u8]);
}

/// The filling line in bytes.
proof fn lemma_box_dashes_bytes(n: nat)
    ensures
        is_dashes(box_dashes(n)),
    decreases n,
{
    if n > 0 {
        let fewer = box_dashes((n - 1) as nat);
        let line = box_dashes(n);
        lemma_box_dashes_bytes((n - 1) as nat);
        lemma_box_dashes_len((n - 1) as nat);
        assert forall|j: int| 0 <= j < line.len() implies #[trigger] line[j] == if j % 3 == 0 {
            0xe2u8
        } else if j % 3 == 1 {
            0x94u8
        } else {
            0x80u8
        } by {
            if j < fewer.len() {
                assert(line[j] == fewer[j]);
            } else {
                assert(line[j] == box_dash()[j - fewer.len()]);
            }
        }
    }
}

/// The bar shows the directory that it was set up with, cut only to what is kept, in the style
/// that was asked for; and it is on the screen if there is room for it, or if it was before.
pub proof fn law_setup_takes_its_arguments(
    bar: BarView,
    project_dir: Seq<u8>,
    style: Seq<char>,
    size: Option<(u16, u16)>,
)
    ensures
        ({
            let after = after_setup(bar, project_dir, style, size);
            &&& after.dir.is_prefix_of(project_dir)
            &&& after.dir.len() <= 4096
            &&& after.dir.len() == 4096 || after.dir == project_dir
            &&& after.dark <==> style != seq!['l', 'i', 'g', 'h', 't']
            &&& after.active <==> bar.active || (size matches Some((rows, _)) && rows >= 2)
        }),
        has_room(size) <==> (size matches Some((rows, _)) && rows >= 2),
{
    reveal_strlit("light");
    assert("light"@ =~= seq!['l', 'i', 'g', 'h', 't']);
}

/// The cursor is moved into the child's part of the screen: to the start of the row above the
/// bar, which is the last one that scrolls.
pub proof fn law_setup_moves_the_cursor_above_the_bar(rows: u16, cols: u16)
    requires
        rows >= 2,
    ensures
        setup_cursor(Some((rows, cols))) == seq![0x1bu8, 0x5bu8] + decimal((rows - 1) as nat)
            + seq![0x3bu8, 0x31u8, 0x48u8],
{
    reveal_strlit("\x1b[");
    reveal_strlit(";1H");
    assert(goto_row((rows - 1) as nat) =~= seq![0x1bu8, 0x5bu8] + decimal((rows - 1) as nat)
        + seq![0x3bu8, 0x31u8, 0x48u8]);
}

/// An active bar is drawn on every terminal with room for it, with the rows and columns that
/// the terminal has, and nothing is written otherwise.
pub proof fn law_redraw_follows_the_terminal(bar: BarView, size: Option<(u16, u16)>)
    ensures
        redraw_output(bar, size) is Some <==> bar.active && (size matches Some((rows, _)) && rows
            >= 2),
        redraw_output(bar, size) matches Some(out) ==> out == frame(
            (size->0).0 as nat,
            (size->0).1 as nat,
            bar,
        ),
{
}

/// To tear an active bar down gives the whole screen back: the scroll region is reset, and the
/// last row, the 24th if the size is not known, is cleared. The bar keeps its style and its
/// directory. An inactive bar writes nothing.
pub proof fn law_teardown_gives_the_screen_back(bar: BarView, size: Option<(u16, u16)>, rows: nat)
    requires
        size matches Some((r, _)) ==> rows == r,
        size is None ==> rows == 24,
    ensures
        teardown_output(bar, size) is Some <==> bar.active,
        teardown_output(bar, size) matches Some(out) ==> {
            &&& out == seq![0x1bu8, 0x5bu8, 0x72u8, 0x1bu8, 0x5bu8] + decimal(rows) + seq![
                0x3bu8,
                0x31u8,
                0x48u8,
                0x1bu8,
                0x5bu8,
                0x32u8,
                0x4bu8,
            ]
            &&& has_reset(out)
        },
        !after_teardown(bar).active,
        after_teardown(bar).dark == bar.dark,
        after_teardown(bar).dir == bar.dir,
{
    reveal_strlit("\x1b[r");
    reveal_strlit("\x1b[");
    reveal_strlit(";1H");
    reveal_strlit("\x1b[2K");
    if bar.active {
        let rest = goto_row(rows) + ascii("\x1b[2K"@);
        let none = Seq::<u8>::empty();
        let out = teardown_output(bar, size)->0;
        assert(out =~= seq![0x1bu8, 0x5bu8, 0x72u8, 0x1bu8, 0x5bu8] + decimal(rows) + seq![
            0x3bu8,
            0x31u8,
            0x48u8,
            0x1bu8,
            0x5bu8,
            0x32u8,
            0x4bu8,
        ]);
        law_embedded_control_sequence(none, none, 'r' as u8, rest);
        assert(out =~= none + csi(none, 'r' as u8) + rest);
    }
}

} // verus!
