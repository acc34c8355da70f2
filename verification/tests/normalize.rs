use news_relay::normalize::normalize;

fn norm(s: &str) -> Vec<u8> {
    normalize(&s.as_bytes().to_vec())
}

#[test]
fn plain_text_is_only_trimmed() {
    assert_eq!(norm("  hello world  "), b"hello world".to_vec());
    assert_eq!(norm("hello world"), b"hello world".to_vec());
}

#[test]
fn empty_input_stays_empty() {
    assert_eq!(norm(""), b"".to_vec());
    assert_eq!(norm("  \n \t "), b"".to_vec());
}

#[test]
fn newline_after_closing_bracket_is_kept() {
    // The first newline follows `>` and is structural; the second follows
    // `o` and is an in-paragraph wrap, so it becomes a space.
    assert_eq!(norm("</div>\nfoo\nbar"), b"</div>\nfoo bar".to_vec());
}

#[test]
fn wrap_newline_becomes_space() {
    assert_eq!(norm("foo\nbar"), b"foo bar".to_vec());
}

#[test]
fn leading_newline_has_no_predecessor() {
    // Nothing stands before the first byte, so the newline is untouched by
    // the line-break pass and then trimmed away.
    assert_eq!(norm("\nfoo"), b"foo".to_vec());
}

#[test]
fn newline_scan_does_not_overlap() {
    // Matches are consumed left to right: after `a\n` is handled, the
    // second newline serves as the predecessor of the third.
    assert_eq!(norm("a\n\n\nb"), b"a \n b".to_vec());
}

#[test]
fn list_markup_flattens_to_bullets() {
    // The bullets end up without a separating newline; the spacing between
    // items is the content author's business, not the normalizer's.
    assert_eq!(norm("<ul>\n<li>a</li><li>b</li></ul>"), b"- a- b".to_vec());
}

#[test]
fn paragraphs_become_blank_lines() {
    assert_eq!(norm("<p>one</p>\n<p>two</p>"), b"one\n\ntwo".to_vec());
}

#[test]
fn explicit_breaks_are_removed() {
    assert_eq!(norm("a<br>b"), b"ab".to_vec());
}

#[test]
fn closed_preformatted_block_gets_blank_line() {
    assert_eq!(
        norm("<pre>code</pre>\nafter"),
        b"<pre>code</pre>\n\nafter".to_vec()
    );
}

#[test]
fn multibyte_text_is_preserved() {
    // Only single-byte newline positions are overwritten, so multi-byte
    // characters pass through byte for byte.
    assert_eq!(norm("caf\u{e9}\nl\u{e0}"), "caf\u{e9} l\u{e0}".as_bytes().to_vec());
}
