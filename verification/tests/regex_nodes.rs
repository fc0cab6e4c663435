use fdsearch::regex_helper::hir_has_uppercase_char;
use fdsearch::regex_helper::hir_matches_strings_with_leading_dot;
use fdsearch::regex_helper::RegexNode;

#[test]
fn uppercase_in_literals() {
    assert!(hir_has_uppercase_char(&RegexNode::LiteralChars(vec!['a', 'B'])));
    assert!(!hir_has_uppercase_char(&RegexNode::LiteralChars(vec!['a', 'b'])));
    assert!(!hir_has_uppercase_char(&RegexNode::LiteralChars(Vec::new())));
    assert!(hir_has_uppercase_char(&RegexNode::LiteralBytes(vec![b'x', b'Z'])));
    assert!(!hir_has_uppercase_char(&RegexNode::LiteralBytes(vec![b'x', b'1'])));
}

#[test]
fn uppercase_in_classes() {
    assert!(hir_has_uppercase_char(&RegexNode::ClassChars(vec![('a', 'z'), ('A', 'f')])));
    assert!(!hir_has_uppercase_char(&RegexNode::ClassChars(vec![('a', 'z'), ('0', '9')])));
    assert!(hir_has_uppercase_char(&RegexNode::ClassBytes(vec![(b'a', b'Q')])));
    assert!(!hir_has_uppercase_char(&RegexNode::ClassBytes(vec![(b'a', b'z')])));
}

#[test]
fn uppercase_through_structure() {
    let upper = RegexNode::LiteralChars(vec!['U']);
    let lower = RegexNode::LiteralChars(vec!['u']);
    assert!(hir_has_uppercase_char(&RegexNode::Capture(Box::new(upper))));
    assert!(!hir_has_uppercase_char(&RegexNode::Repetition(Box::new(lower))));
    let mixed = RegexNode::Concat(vec![
        RegexNode::LiteralChars(vec!['a']),
        RegexNode::Alternation(vec![RegexNode::LiteralChars(vec!['B'])]),
    ]);
    assert!(hir_has_uppercase_char(&mixed));
    assert!(!hir_has_uppercase_char(&RegexNode::LookStart));
    assert!(!hir_has_uppercase_char(&RegexNode::Other));
}

#[test]
fn leading_dot_shapes() {
    let yes = RegexNode::Concat(vec![
        RegexNode::LookStart,
        RegexNode::LiteralChars(vec!['.', 'g', 'i', 't']),
    ]);
    assert!(hir_matches_strings_with_leading_dot(&yes));
    let yes_bytes = RegexNode::Concat(vec![
        RegexNode::LookStart,
        RegexNode::LiteralBytes(vec![46, 255]),
    ]);
    assert!(hir_matches_strings_with_leading_dot(&yes_bytes));
    let no_anchor = RegexNode::Concat(vec![
        RegexNode::LiteralChars(vec!['.', 'x']),
        RegexNode::LookStart,
    ]);
    assert!(!hir_matches_strings_with_leading_dot(&no_anchor));
    let no_dot = RegexNode::Concat(vec![
        RegexNode::LookStart,
        RegexNode::LiteralChars(vec!['g']),
    ]);
    assert!(!hir_matches_strings_with_leading_dot(&no_dot));
    let too_short = RegexNode::Concat(vec![RegexNode::LookStart]);
    assert!(!hir_matches_strings_with_leading_dot(&too_short));
    assert!(!hir_matches_strings_with_leading_dot(&RegexNode::LiteralChars(vec!['.'])));
}
