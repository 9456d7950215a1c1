use ai_jail::escape::contains_scroll_reset;

#[test]
fn detect_bare_decstbm_reset() {
    assert!(contains_scroll_reset(b"\x1b[r"));
}

#[test]
fn detect_semicolon_decstbm_reset() {
    assert!(contains_scroll_reset(b"\x1b[;r"));
}

#[test]
fn ignore_parameterized_decstbm() {
    assert!(!contains_scroll_reset(b"\x1b[1;24r"));
}

#[test]
fn detect_ris() {
    assert!(contains_scroll_reset(b"\x1bc"));
}

#[test]
fn detect_alt_screen_1049h() {
    assert!(contains_scroll_reset(b"\x1b[?1049h"));
}

#[test]
fn detect_alt_screen_1049l() {
    assert!(contains_scroll_reset(b"\x1b[?1049l"));
}

#[test]
fn detect_alt_screen_47h() {
    assert!(contains_scroll_reset(b"\x1b[?47h"));
}

#[test]
fn detect_alt_screen_1047l() {
    assert!(contains_scroll_reset(b"\x1b[?1047l"));
}

#[test]
fn ignore_show_cursor() {
    assert!(!contains_scroll_reset(b"\x1b[?25h"));
}

#[test]
fn ignore_sgr_color() {
    assert!(!contains_scroll_reset(b"\x1b[38;2;255;100;0m"));
}

#[test]
fn ignore_clear_screen() {
    assert!(!contains_scroll_reset(b"\x1b[2J"));
}

#[test]
fn detect_embedded_in_output() {
    let data = b"hello\x1b[?1049hworld";
    assert!(contains_scroll_reset(data));
}

#[test]
fn no_false_positive_plain_text() {
    assert!(!contains_scroll_reset(b"just plain text\n"));
}

#[test]
fn detect_alt_screen_combined_modes() {
    // Some programs set multiple modes at once
    assert!(contains_scroll_reset(b"\x1b[?1049;2004h"));
}

#[test]
fn empty_output_has_no_reset() {
    assert!(!contains_scroll_reset(b""));
}

#[test]
fn unfinished_sequences_are_not_resets() {
    assert!(!contains_scroll_reset(b"\x1b"));
    assert!(!contains_scroll_reset(b"\x1b["));
    assert!(!contains_scroll_reset(b"\x1b[?1049"));
    assert!(!contains_scroll_reset(b"\x1b[?1049 "));
}

#[test]
fn intermediates_are_skipped() {
    assert!(contains_scroll_reset(b"\x1b[ r"));
    assert!(contains_scroll_reset(b"\x1b[;!\"r"));
    assert!(!contains_scroll_reset(b"\x1b[1 r"));
}

#[test]
fn escape_always_begins_a_sequence() {
    assert!(contains_scroll_reset(b"\x1b\x1bc"));
    assert!(contains_scroll_reset(b"\x1b\x1b[r"));
    assert!(contains_scroll_reset(b"\x1b[\x1bc"));
    assert!(contains_scroll_reset(b"\x1b\x1b\x1bc"));
    assert!(contains_scroll_reset(b"\x1b[1;2 \x1b[?1049h"));
    assert!(!contains_scroll_reset(b"\x1b[\x1b"));
    assert!(!contains_scroll_reset(b"\x1b[\x1br"));
    assert!(!contains_scroll_reset(b"\x1b[?1049\x1bh"));
}

#[test]
fn every_alternate_screen_mode_both_ways() {
    for mode in ["1049", "47", "1047"] {
        for last in ["h", "l"] {
            assert!(contains_scroll_reset(format!("\x1b[?{mode}{last}").as_bytes()));
            assert!(contains_scroll_reset(format!("\x1b[?25;{mode};2004{last}").as_bytes()));
            assert!(contains_scroll_reset(format!("\x1b[?;{mode}{last}").as_bytes()));
            assert!(!contains_scroll_reset(format!("\x1b[{mode}{last}").as_bytes()));
        }
        assert!(!contains_scroll_reset(format!("\x1b[?{mode}m").as_bytes()));
    }
}

#[test]
fn modes_match_whole_fields_only() {
    assert!(!contains_scroll_reset(b"\x1b[?10490h"));
    assert!(!contains_scroll_reset(b"\x1b[?147h"));
    assert!(!contains_scroll_reset(b"\x1b[?470;104h"));
    assert!(!contains_scroll_reset(b"\x1b[?h"));
    assert!(!contains_scroll_reset(b"\x1b[?;h"));
    assert!(!contains_scroll_reset(b"\x1b[??47h"));
}

#[test]
fn other_margins_are_not_resets() {
    assert!(!contains_scroll_reset(b"\x1b[;;r"));
    assert!(!contains_scroll_reset(b"\x1b[?r"));
    assert!(!contains_scroll_reset(b"\x1b[1r"));
}

#[test]
fn reset_is_seen_in_the_middle_and_stays_seen() {
    let before = b"\x1b[31mred\x1b[0m\n";
    let after = b"\x1b[2J\x1b[";
    for reset in [&b"\x1bc"[..], &b"\x1b[r"[..], &b"\x1b[?47l"[..]] {
        let mut all = before.to_vec();
        assert!(!contains_scroll_reset(&all));
        all.extend_from_slice(reset);
        assert!(contains_scroll_reset(&all));
        all.extend_from_slice(after);
        assert!(contains_scroll_reset(&all));
    }
}
