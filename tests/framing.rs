use octolog::framing::{try_pop_line, Framer, MAX_ACC_BYTES};

#[test]
fn pop_line_on_newline() {
    let mut acc = b"hello\nrest".to_vec();
    assert_eq!(try_pop_line(&mut acc), Some("hello".to_string()));
    assert_eq!(acc, b"rest".to_vec());
}

#[test]
fn pop_line_without_boundary_leaves_buffer() {
    let mut acc = b"partial".to_vec();
    assert_eq!(try_pop_line(&mut acc), None);
    assert_eq!(acc, b"partial".to_vec());
}

#[test]
fn pop_line_consumes_boundary_run() {
    let mut acc = b"  a b \r\n\n\r\nnext".to_vec();
    assert_eq!(try_pop_line(&mut acc), Some("a b".to_string()));
    assert_eq!(acc, b"next".to_vec());
}

#[test]
fn pop_line_gives_empty_for_blank_line() {
    let mut acc = b"   \rX".to_vec();
    assert_eq!(try_pop_line(&mut acc), Some(String::new()));
    assert_eq!(acc, b"X".to_vec());
}

#[test]
fn pop_line_replaces_invalid_utf8() {
    let mut acc = vec![b'a', 0xff, b'b', b'\n'];
    assert_eq!(try_pop_line(&mut acc), Some("a\u{fffd}b".to_string()));
    assert!(acc.is_empty());
}

#[test]
fn framer_cr_lf_and_lf_boundaries() {
    let mut f = Framer::new();
    let out = f.push(b"hello\r\nworld\n");
    assert!(!out.overflowed);
    assert_eq!(out.lines, vec!["hello".to_string(), "world".to_string()]);
}

#[test]
fn framer_runs_count_as_one_and_blank_lines_vanish() {
    let mut f = Framer::new();
    let out = f.push(b"a\r\r\n\n\nb\n \n\tc\r");
    assert_eq!(out.lines, vec!["a".to_string(), "b".to_string(), "c".to_string()]);
}

#[test]
fn framer_joins_chunks() {
    let mut f = Framer::new();
    let first = f.push(b"hel");
    assert!(first.lines.is_empty());
    let second = f.push(b"lo\nwor");
    assert_eq!(second.lines, vec!["hello".to_string()]);
    let third = f.push(b"ld\r\n");
    assert_eq!(third.lines, vec!["world".to_string()]);
}

#[test]
fn framer_overflow_clears_buffer_then_starts_fresh() {
    let mut f = Framer::new();
    let big = vec![b'x'; MAX_ACC_BYTES];
    let at_limit = f.push(&big);
    assert!(!at_limit.overflowed);
    assert!(at_limit.lines.is_empty());
    let over = f.push(b"y");
    assert!(over.overflowed);
    assert!(over.lines.is_empty());
    let fresh = f.push(b"ok\n");
    assert!(!fresh.overflowed);
    assert_eq!(fresh.lines, vec!["ok".to_string()]);
}

#[test]
fn framer_long_line_completed_in_one_chunk_is_kept() {
    let mut f = Framer::new();
    let mut big = vec![b'z'; MAX_ACC_BYTES];
    big.extend_from_slice(b"tail\n");
    let out = f.push(&big);
    assert!(!out.overflowed);
    assert_eq!(out.lines.len(), 1);
    assert_eq!(out.lines[0].len(), MAX_ACC_BYTES + 4);
    assert!(out.lines[0].ends_with("zzztail"));
}

#[test]
fn framer_delimiter_after_long_buffer_sends_line() {
    let mut f = Framer::new();
    let first = f.push(&vec![b'x'; 65000]);
    assert!(!first.overflowed);
    let mut chunk = vec![b'\n'];
    chunk.extend_from_slice(&vec![b'y'; 999]);
    let out = f.push(&chunk);
    assert!(!out.overflowed);
    assert_eq!(out.lines, vec!["x".repeat(65000)]);
    let next = f.push(b"\n");
    assert_eq!(next.lines, vec!["y".repeat(999)]);
}

#[test]
fn framer_lines_before_overflowing_tail_are_kept() {
    let mut f = Framer::new();
    let mut chunk = b"first\n".to_vec();
    chunk.extend_from_slice(&vec![b'q'; MAX_ACC_BYTES + 1]);
    let out = f.push(&chunk);
    assert!(out.overflowed);
    assert_eq!(out.lines, vec!["first".to_string()]);
    let fresh = f.push(b"ok\n");
    assert!(!fresh.overflowed);
    assert_eq!(fresh.lines, vec!["ok".to_string()]);
}

#[test]
fn framer_boundary_run_split_across_chunks() {
    let mut f = Framer::new();
    let first = f.push(b"a\r");
    assert_eq!(first.lines, vec!["a".to_string()]);
    let second = f.push(b"\nb\n");
    assert_eq!(second.lines, vec!["b".to_string()]);
}
