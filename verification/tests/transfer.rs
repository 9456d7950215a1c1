use ai_jail::transfer::Transfer;

fn write(data: &[u8], results: &[isize]) -> (Vec<u8>, usize) {
    let mut t = Transfer::new(data.len());
    let mut out = Vec::new();
    let mut calls = 0;
    while let Some(off) = t.pending() {
        let n = results[calls];
        calls += 1;
        if n > 0 {
            out.extend_from_slice(&data[off..off + n as usize]);
        }
        t.write_all_raw(n);
    }
    (out, calls)
}

#[test]
fn whole_buffer_at_once() {
    assert_eq!(write(b"hello", &[5]), (b"hello".to_vec(), 1));
}

#[test]
fn empty_buffer_needs_no_write() {
    assert_eq!(write(b"", &[]), (vec![], 0));
}

#[test]
fn pieces_are_in_order() {
    assert_eq!(write(b"hello world", &[1, 4, 2, 4]), (b"hello world".to_vec(), 4));
}

#[test]
fn failure_ends_the_transfer() {
    assert_eq!(write(b"hello", &[2, -1, 3]), (b"he".to_vec(), 2));
    assert_eq!(write(b"hello", &[0, 5]), (vec![], 1));
    assert_eq!(write(b"hello", &[3, isize::MIN]), (b"hel".to_vec(), 2));
}

#[test]
fn too_large_a_result_ends_the_transfer() {
    let mut t = Transfer::new(4);
    t.write_all_raw(isize::MAX);
    assert_eq!(t.pending(), None);
}
