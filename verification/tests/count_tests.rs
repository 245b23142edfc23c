use linecheck::lines::{
    content_info, content_info_for_path, content_info_with_options, count_lines, count_lines_skip_comments,
    count_newlines, count_non_blank_lines, is_ignored,
};

#[test]
fn empty() {
    assert_eq!(count_newlines(b""), 0);
}

#[test]
fn no_trailing_newline() {
    assert_eq!(count_newlines(b"hello\nworld"), 2);
}

#[test]
fn trailing_newline() {
    assert_eq!(count_newlines(b"hello\nworld\n"), 2);
}

#[test]
fn single_line() {
    assert_eq!(count_newlines(b"hello"), 1);
}

#[test]
fn skip_whitespace_false_counts_blank_lines() {
    assert_eq!(count_lines(b"a\n\nb\n", false), 3);
}

#[test]
fn skip_whitespace_excludes_blank_lines() {
    assert_eq!(count_lines(b"a\n\nb\n", true), 2);
}

#[test]
fn skip_whitespace_excludes_whitespace_only_lines() {
    assert_eq!(count_lines(b"a\n   \n\t\nb\n", true), 2);
}

#[test]
fn skip_whitespace_on_empty_data() {
    assert_eq!(count_lines(b"", true), 0);
}

#[test]
fn skip_whitespace_no_trailing_newline() {
    assert_eq!(count_lines(b"a\n\nb", true), 2);
}

#[test]
fn skip_whitespace_matches_issue_example() {
    // 2 real lines + 8 blank padding lines = 10 raw lines, 2 counted lines.
    let mut data = String::from("real1\nreal2\n");
    for _ in 0..8 {
        data.push('\n');
    }
    assert_eq!(count_newlines(data.as_bytes()), 10);
    assert_eq!(count_lines(data.as_bytes(), true), 2);
}

#[test]
fn ignore_marker_detected() {
    // \x3a stands for ':' so this file does not carry the marker itself
    assert!(count_newlines(b"// linecheck\x3aignore\nfn main() {}") > 0);
    assert!(is_ignored(b"// linecheck\x3aignore\nfn main() {}"));
}

#[test]
fn binary_content_is_ignored() {
    // PNG signature includes a NUL byte; body full of \n like a real compressed image would produce
    let mut png_like = b"\x89PNG\r\n\x1a\x00".to_vec();
    png_like.extend(std::iter::repeat_n(b'\n', 1000));
    let (_, ignored) = content_info(&png_like, false);
    assert!(ignored);
}

#[test]
fn text_content_is_not_ignored() {
    let (_, ignored) = content_info(b"hello\nworld\n", false);
    assert!(!ignored);
}

#[test]
fn content_info_respects_skip_whitespace() {
    let (lines, _) = content_info(b"a\n\nb\n", true);
    assert_eq!(lines, 2);
}

#[test]
fn non_blank_lines_agree_with_count_lines() {
    for data in [&b""[..], b"\n", b"a\n\nb\n", b"  \n\t\nx", b"x\n \r\n", b"\n\n\n"] {
        assert_eq!(count_non_blank_lines(data), count_lines(data, true));
        assert_eq!(content_info_with_options(data, true).0, count_lines(data, true));
        assert_eq!(content_info_with_options(data, false).0, count_newlines(data));
    }
}

#[test]
fn crlf_blank_lines_are_blank() {
    assert_eq!(count_lines(b"a\r\n\r\nb\r\n", true), 2);
    assert_eq!(count_newlines(b"a\r\n\r\nb\r\n"), 3);
}

#[test]
fn form_feed_is_whitespace_but_vertical_tab_is_not() {
    assert_eq!(count_lines(b"a\n\x0c\nb\n", true), 2);
    assert_eq!(count_lines(b"a\n\x0b\nb\n", true), 3);
}

#[test]
fn comment_lines_skipped_for_known_extension() {
    let data = b"// header\nfn main() {\n    // inner\n    let x = 1; // trailing\n}\n";
    assert_eq!(count_lines_skip_comments("src/main.rs", data), 3);
    assert_eq!(count_lines_skip_comments("script.py", b"# a\nprint(1)\n  # b\n"), 1);
}

#[test]
fn comment_lines_counted_for_unknown_extension() {
    let data = b"// header\nbody\n";
    assert_eq!(count_lines_skip_comments("notes.txt", data), 2);
    assert_eq!(count_lines_skip_comments("Makefile", b"# x\ny\n"), 2);
}

#[test]
fn hash_is_not_a_comment_in_rust() {
    assert_eq!(count_lines_skip_comments("a.rs", b"#[test]\nfn f() {}\n"), 2);
}

#[test]
fn marker_needs_the_colon() {
    assert!(!is_ignored(b"linecheck ignore\n"));
    assert!(is_ignored(b"xx linecheck\x3aignore"));
    assert!(!is_ignored(b"linecheck\x3aignor"));
}

#[test]
fn byte_order_mark_is_text_even_with_nul() {
    let mut data = vec![0xEF, 0xBB, 0xBF];
    data.extend_from_slice(b"a\x00b\n");
    assert!(!is_ignored(&data));
    assert!(is_ignored(b"a\x00b\n"));
    assert!(is_ignored(b"%PDF-1.4\nxx\n"));
}

#[test]
fn nul_after_first_kilobyte_is_text() {
    let mut data = vec![b'a'; 1024];
    data.push(0);
    assert!(!is_ignored(&data));
    data[1023] = 0;
    assert!(is_ignored(&data));
}

#[test]
fn concatenation_adds_line_counts() {
    let a = b"one\ntwo\n";
    let b = b"three\nfour";
    let mut ab = a.to_vec();
    ab.extend_from_slice(b);
    assert_eq!(count_newlines(&ab), count_newlines(a) + count_newlines(b));
}

#[test]
fn content_info_for_path_skips_comments() {
    let data = b"# c\nx = 1\n";
    assert_eq!(content_info_for_path("a.py", data, true), (1, false));
    assert_eq!(content_info_for_path("a.py", data, false), (2, false));
    assert_eq!(content_info_for_path("a.txt", data, true), (2, false));
}
