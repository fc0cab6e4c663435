use fdsearch::fmt::FormatTemplate;
use fdsearch::fmt::Token;
use fdsearch::fmt::token_from_pattern_id;

fn gen(fmt: &[u8], path: &[u8]) -> Vec<u8> {
    let t = FormatTemplate::parse(&fmt.to_vec());
    t.generate(&path.to_vec(), None)
}

fn gen_sep(fmt: &[u8], path: &[u8], sep: &[u8]) -> Vec<u8> {
    let t = FormatTemplate::parse(&fmt.to_vec());
    let s = sep.to_vec();
    t.generate(&path.to_vec(), Some(&s))
}

#[test]
fn full_path_roundtrip() {
    assert_eq!(gen(b"{}", b"/tmp/notes.txt"), b"/tmp/notes.txt".to_vec());
    assert_eq!(gen(b"{}", b"relative/p"), b"relative/p".to_vec());
    assert_eq!(gen(b"{}", b""), b"".to_vec());
}

#[test]
fn basename_no_ext_with_suffix() {
    assert_eq!(gen(b"{/.}.bak", b"/tmp/notes.txt"), b"notes.bak".to_vec());
}

#[test]
fn parent_placeholder() {
    assert_eq!(gen(b"{//}", b"/tmp/notes.txt"), b"/tmp".to_vec());
    assert_eq!(gen(b"{//}", b"notes.txt"), b".".to_vec());
}

#[test]
fn escaped_braces_render_literally() {
    assert_eq!(gen(b"{{}}", b"/tmp/notes.txt"), b"{}".to_vec());
    assert_eq!(gen(b"{{}}", b"other"), b"{}".to_vec());
}

#[test]
fn literal_template_ignores_path() {
    assert_eq!(gen(b"hello", b"/a/b"), b"hello".to_vec());
    assert_eq!(gen(b"hello", b"c"), b"hello".to_vec());
    assert_eq!(gen(b"", b"/a/b"), b"".to_vec());
}

#[test]
fn placeholder_with_stray_closing_brace_is_literal() {
    assert_eq!(gen(b"{}}", b"/a/b"), b"{}}".to_vec());
    assert_eq!(gen(b"{/}}x", b"/a/b"), b"{/}}x".to_vec());
}

#[test]
fn other_placeholders() {
    assert_eq!(gen(b"{.}", b"/tmp/notes.txt"), b"/tmp/notes".to_vec());
    assert_eq!(gen(b"{/}", b"/tmp/notes.txt"), b"notes.txt".to_vec());
    assert_eq!(gen(b"a {/} b", b"/tmp/notes.txt"), b"a notes.txt b".to_vec());
}

#[test]
fn separator_substitution_in_placeholders_only() {
    assert_eq!(gen_sep(b"{}", b"/tmp/x", b"#"), b"#tmp#x".to_vec());
    assert_eq!(gen_sep(b"a/b {}", b"c/d", b"#"), b"a/b c#d".to_vec());
}

#[test]
fn has_tokens_reports_placeholders() {
    assert!(FormatTemplate::parse(&b"{}".to_vec()).has_tokens());
    assert!(FormatTemplate::parse(&b"{/.}".to_vec()).has_tokens());
    assert!(!FormatTemplate::parse(&b"plain".to_vec()).has_tokens());
    assert!(!FormatTemplate::parse(&b"{{}}".to_vec()).has_tokens());
}

#[test]
fn token_marker_text() {
    assert_eq!(Token::Placeholder.marker_text(), b"{}".to_vec());
    assert_eq!(Token::Basename.marker_text(), b"{/}".to_vec());
    assert_eq!(Token::Parent.marker_text(), b"{//}".to_vec());
    assert_eq!(Token::NoExt.marker_text(), b"{.}".to_vec());
    assert_eq!(Token::BasenameNoExt.marker_text(), b"{/.}".to_vec());
    assert_eq!(Token::Text(b"abc".to_vec()).marker_text(), b"abc".to_vec());
}

#[test]
fn tokens_from_pattern_ids() {
    assert!(matches!(token_from_pattern_id(2), Token::Placeholder));
    assert!(matches!(token_from_pattern_id(3), Token::Basename));
    assert!(matches!(token_from_pattern_id(4), Token::Parent));
    assert!(matches!(token_from_pattern_id(5), Token::NoExt));
    assert!(matches!(token_from_pattern_id(6), Token::BasenameNoExt));
}
