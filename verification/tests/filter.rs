use rexec::filter::OutputFilter;

fn filter_all(input: &[u8]) -> Vec<u8> {
    let mut f = OutputFilter::new();
    let mut out = Vec::new();
    f.push(input, &mut out);
    out
}

#[test]
fn passes_through_plain_ascii() {
    assert_eq!(filter_all(b"hello world\n"), b"hello world\n");
}

#[test]
fn strips_sgr_color_sequence() {
    assert_eq!(filter_all(b"\x1b[31mred\x1b[0m text"), b"red text");
}

#[test]
fn strips_cursor_movement_csi() {
    assert_eq!(filter_all(b"a\x1b[2Jb\x1b[10;20Hc"), b"abc");
}

#[test]
fn strips_osc_terminated_by_bel() {
    assert_eq!(filter_all(b"x\x1b]0;title\x07y"), b"xy");
}

#[test]
fn strips_osc_terminated_by_st() {
    assert_eq!(filter_all(b"x\x1b]0;title\x1b\\y"), b"xy");
}

#[test]
fn replaces_carriage_return_with_newline() {
    assert_eq!(filter_all(b"line\rover"), b"line\nover");
}

#[test]
fn handles_split_csi_across_chunks() {
    let mut f = OutputFilter::new();
    let mut out = Vec::new();
    f.push(b"hi\x1b", &mut out);
    f.push(b"[31mred\x1b[0m!", &mut out);
    assert_eq!(out, b"hired!");
}

#[test]
fn handles_single_char_esc_sequence() {
    assert_eq!(filter_all(b"a\x1b7b"), b"ab");
}

#[test]
fn chunks_do_not_matter() {
    let input = b"one\x1b[1mtwo\x1b]0;t\x1b\\three\rfour\x1b(";
    let whole = filter_all(input);
    for cut in 0..input.len() {
        let mut f = OutputFilter::default();
        let mut out = Vec::new();
        f.push(&input[..cut], &mut out);
        f.push(&input[cut..], &mut out);
        assert_eq!(out, whole);
    }
    assert_eq!(whole, b"onetwothree\nfour");
}

#[test]
fn filtering_twice_changes_nothing() {
    let once = filter_all(b"a\x1b[31mb\rc\x1b]x\x07d");
    assert_eq!(once, b"ab\ncd");
    assert_eq!(filter_all(&once), once);
}

#[test]
fn bytes_beyond_ascii_pass() {
    assert_eq!(filter_all("gr\u{fc}\u{df}e\n".as_bytes()), "gr\u{fc}\u{df}e\n".as_bytes());
}

#[test]
fn output_is_what_is_left_of_the_input() {
    let input = b"a\x1b[1mb\rc\x1b]0;t\x07d\n";
    let out = filter_all(input);
    assert_eq!(out, b"ab\ncd\n");
    let mut left = input.iter().map(|&b| if b == b'\r' { b'\n' } else { b });
    assert!(out.iter().all(|b| left.any(|c| c == *b)));
}
