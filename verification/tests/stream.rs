use ai_jail::stream::SeqState;

fn after(data: &[u8]) -> SeqState {
    let mut state = SeqState::Normal;
    state.update(data);
    state
}

#[test]
fn plain_text_is_normal() {
    assert_eq!(after(b""), SeqState::Normal);
    assert_eq!(after(b"hello [31m ]0; \x07 world\n"), SeqState::Normal);
}

#[test]
fn csi_is_open_until_its_final_byte() {
    assert_eq!(after(b"\x1b"), SeqState::Esc);
    assert_eq!(after(b"\x1b["), SeqState::Csi);
    assert_eq!(after(b"\x1b[38;2;255 "), SeqState::Csi);
    assert_eq!(after(b"\x1b[38;2;255m"), SeqState::Normal);
    assert_eq!(after(b"\x1b[1\x1b"), SeqState::Esc);
    assert_eq!(after(b"\x1b[1\x18"), SeqState::Normal);
}

#[test]
fn osc_is_open_until_its_terminator() {
    assert_eq!(after(b"\x1b]0;title"), SeqState::Osc);
    assert_eq!(after(b"\x1b]0;title\x07"), SeqState::Normal);
    assert_eq!(after(b"\x1b]0;title\x1b"), SeqState::Esc);
    assert_eq!(after(b"\x1b]0;title\x1b\\"), SeqState::Normal);
}

#[test]
fn escape_with_intermediates() {
    assert_eq!(after(b"\x1b("), SeqState::Esc);
    assert_eq!(after(b"\x1b(B"), SeqState::Normal);
    assert_eq!(after(b"\x1b7"), SeqState::Normal);
    assert_eq!(after(b"\x1b\x1b"), SeqState::Esc);
}

#[test]
fn chunks_compose() {
    let data = b"a\x1b[1;31mred\x1b]0;x\x1b\\\x1b(B\x1b[";
    for cut in 0..=data.len() {
        let mut state = SeqState::Normal;
        state.update(&data[..cut]);
        state.update(&data[cut..]);
        assert_eq!(state, after(data));
    }
}

#[test]
fn escape_begins_a_sequence_in_every_state() {
    for before in [&b""[..], &b"\x1b"[..], &b"\x1b("[..], &b"\x1b[1;"[..], &b"\x1b]0;t"[..]] {
        let with = |more: &[u8]| after(&[before, more].concat());
        assert_eq!(with(b"\x1b"), SeqState::Esc);
        assert_eq!(with(b"\x1b["), SeqState::Csi);
        assert_eq!(with(b"\x1b[31m"), SeqState::Normal);
        assert_eq!(with(b"\x1b]"), SeqState::Osc);
        assert_eq!(with(b"\x1b]2;x\x07"), SeqState::Normal);
    }
}
