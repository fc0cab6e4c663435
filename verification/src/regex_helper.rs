//! Analyses over a parsed regular-expression tree.
//!
//! The surrounding tool parses a pattern into a syntax tree and hands the
//! parts this logic reads over as plain values: literals as their decoded
//! characters or raw bytes, character classes as their ranges, and the
//! grouping structure. The two analyses here decide whether a pattern
//! holds an uppercase character anywhere, and whether it can only match
//! strings that begin with a dot.

use vstd::prelude::*;

verus! {

/// Whether the character counts as uppercase. What `char::is_uppercase`
/// answers depends on the character alone.
pub uninterp spec fn char_uppercase(c: char) -> bool;

/// Relies on char::is_uppercase: the Unicode uppercase property of the
/// character.
#[verifier::external_body]
fn is_uppercase_char(c: char) -> (r: bool)
    ensures
        r == char_uppercase(c),
{
    c.is_uppercase()
}

/// What the analyses read of a parsed regular expression: literal runs,
/// class ranges, one-element wrappers, sequencing, alternation, the
/// start-of-text look, and everything else.
#[derive(Debug)]
pub enum RegexNode {
    LiteralChars(Vec<char>),
    LiteralBytes(Vec<u8>),
    ClassChars(Vec<(char, char)>),
    ClassBytes(Vec<(u8, u8)>),
    Capture(Box<RegexNode>),
    Repetition(Box<RegexNode>),
    Concat(Vec<RegexNode>),
    Alternation(Vec<RegexNode>),
    LookStart,
    Other,
}

/// Whether the tree holds an uppercase character: in a literal, in an
/// end of a class range, or anywhere below.
pub open spec fn has_upper_spec(n: RegexNode) -> bool
    decreases n,
{
    match n {
        RegexNode::LiteralChars(cs) => exists|i: int|
            0 <= i < cs@.len() && #[trigger] char_uppercase(cs@[i]),
        RegexNode::LiteralBytes(bs) => exists|i: int|
            0 <= i < bs@.len() && #[trigger] char_uppercase(bs@[i] as char),
        RegexNode::ClassChars(rs) => exists|i: int|
            0 <= i < rs@.len() && (#[trigger] char_uppercase(rs@[i].0) || char_uppercase(
                rs@[i].1,
            )),
        RegexNode::ClassBytes(rs) => exists|i: int|
            0 <= i < rs@.len() && (#[trigger] char_uppercase(rs@[i].0 as char) || char_uppercase(
                rs@[i].1 as char,
            )),
        RegexNode::Capture(sub) => has_upper_spec(*sub),
        RegexNode::Repetition(sub) => has_upper_spec(*sub),
        RegexNode::Concat(ns) => exists|i: int|
            0 <= i < ns@.len() && has_upper_spec(#[trigger] ns@[i]),
        RegexNode::Alternation(ns) => exists|i: int|
            0 <= i < ns@.len() && has_upper_spec(#[trigger] ns@[i]),
        RegexNode::LookStart => false,
        RegexNode::Other => false,
    }
}

/// Whether the tree can only match strings that begin with a dot: a
/// sequence whose first element is the start-of-text look and whose
/// second is a literal that begins with `.`.
pub open spec fn leading_dot_spec(n: RegexNode) -> bool {
    match n {
        RegexNode::Concat(ns) => ns@.len() >= 2 && (ns@[0] is LookStart) && (match ns@[1] {
            RegexNode::LiteralChars(cs) => cs@.len() > 0 && cs@[0] == '.',
            RegexNode::LiteralBytes(bs) => bs@.len() > 0 && bs@[0] == 46,
            _ => false,
        }),
        _ => false,
    }
}

/// Whether the parsed pattern holds an uppercase character anywhere.
pub fn hir_has_uppercase_char(hir: &RegexNode) -> (r: bool)
    ensures
        r == has_upper_spec(*hir),
    decreases *hir,
{
    match hir {
        RegexNode::LiteralChars(cs) => chars_have_uppercase(cs),
        RegexNode::LiteralBytes(bs) => bytes_have_uppercase(bs),
        RegexNode::ClassChars(rs) => char_ranges_have_uppercase(rs),
        RegexNode::ClassBytes(rs) => byte_ranges_have_uppercase(rs),
        RegexNode::Capture(sub) => hir_has_uppercase_char(sub),
        RegexNode::Repetition(sub) => hir_has_uppercase_char(sub),
        RegexNode::Concat(ns) => any_has_uppercase(ns),
        RegexNode::Alternation(ns) => any_has_uppercase(ns),
        RegexNode::LookStart => false,
        RegexNode::Other => false,
    }
}

/// Whether any of the characters is uppercase.
fn chars_have_uppercase(cs: &Vec<char>) -> (r: bool)
    ensures
        r == exists|i: int| 0 <= i < cs@.len() && #[trigger] char_uppercase(cs@[i]),
{
    let mut i: usize = 0;
    while i < cs.len()
        invariant
            i <= cs@.len(),
            forall|j: int| 0 <= j < i ==> !(#[trigger] char_uppercase(cs@[j])),
        decreases cs@.len() - i,
    {
        if is_uppercase_char(cs[i]) {
            return true;
        }
        i = i + 1;
    }
    false
}

/// Whether any of the bytes, read as a character, is uppercase.
fn bytes_have_uppercase(bs: &Vec<u8>) -> (r: bool)
    ensures
        r == exists|i: int| 0 <= i < bs@.len() && #[trigger] char_uppercase(bs@[i] as char),
{
    let mut i: usize = 0;
    while i < bs.len()
        invariant
            i <= bs@.len(),
            forall|j: int| 0 <= j < i ==> !(#[trigger] char_uppercase(bs@[j] as char)),
        decreases bs@.len() - i,
    {
        if is_uppercase_char(bs[i] as char) {
            return true;
        }
        i = i + 1;
    }
    false
}

/// Whether an end of any of the character ranges is uppercase.
fn char_ranges_have_uppercase(rs: &Vec<(char, char)>) -> (r: bool)
    ensures
        r == exists|i: int|
            0 <= i < rs@.len() && (#[trigger] char_uppercase(rs@[i].0) || char_uppercase(
                rs@[i].1,
            )),
{
    let mut i: usize = 0;
    while i < rs.len()
        invariant
            i <= rs@.len(),
            forall|j: int|
                0 <= j < i ==> (!char_uppercase((#[trigger] rs@[j]).0) && !char_uppercase(
                    rs@[j].1,
                )),
        decreases rs@.len() - i,
    {
        let lo = rs[i].0;
        let hi = rs[i].1;
        proof {
            assert(lo == rs@[i as int].0 && hi == rs@[i as int].1);
        }
        if is_uppercase_char(lo) || is_uppercase_char(hi) {
            return true;
        }
        proof {
            assert(!char_uppercase(rs@[i as int].0));
            assert(!char_uppercase(rs@[i as int].1));
        }
        i = i + 1;
    }
    false
}

/// Whether an end of any of the byte ranges, read as a character, is
/// uppercase.
fn byte_ranges_have_uppercase(rs: &Vec<(u8, u8)>) -> (r: bool)
    ensures
        r == exists|i: int|
            0 <= i < rs@.len() && (#[trigger] char_uppercase(rs@[i].0 as char) || char_uppercase(
                rs@[i].1 as char,
            )),
{
    let mut i: usize = 0;
    while i < rs.len()
        invariant
            i <= rs@.len(),
            forall|j: int|
                0 <= j < i ==> (!char_uppercase((#[trigger] rs@[j]).0 as char) && !char_uppercase(
                    rs@[j].1 as char,
                )),
        decreases rs@.len() - i,
    {
        let lo = rs[i].0;
        let hi = rs[i].1;
        proof {
            assert(lo == rs@[i as int].0 && hi == rs@[i as int].1);
        }
        if is_uppercase_char(lo as char) || is_uppercase_char(hi as char) {
            return true;
        }
        proof {
            assert(!char_uppercase(rs@[i as int].0 as char));
            assert(!char_uppercase(rs@[i as int].1 as char));
        }
        i = i + 1;
    }
    false
}

/// Whether any node of the list holds an uppercase character.
fn any_has_uppercase(ns: &Vec<RegexNode>) -> (r: bool)
    ensures
        r == exists|i: int| 0 <= i < ns@.len() && has_upper_spec(#[trigger] ns@[i]),
    decreases ns@,
{
    let mut i: usize = 0;
    while i < ns.len()
        invariant
            i <= ns@.len(),
            forall|j: int| 0 <= j < i ==> !has_upper_spec(#[trigger] ns@[j]),
        decreases ns@.len() - i,
    {
        if hir_has_uppercase_char(&ns[i]) {
            return true;
        }
        i = i + 1;
    }
    false
}

/// Whether the parsed pattern can only match strings that begin with a
/// dot.
pub fn hir_matches_strings_with_leading_dot(hir: &RegexNode) -> (r: bool)
    ensures
        r == leading_dot_spec(*hir),
{
    match hir {
        RegexNode::Concat(ns) => {
            if ns.len() < 2 {
                return false;
            }
            let first_is_start = matches!(&ns[0], RegexNode::LookStart);
            if !first_is_start {
                return false;
            }
            match &ns[1] {
                RegexNode::LiteralChars(cs) => cs.len() > 0 && cs[0] == '.',
                RegexNode::LiteralBytes(bs) => bs.len() > 0 && bs[0] == 46,
                _ => false,
            }
        },
        _ => false,
    }
}

} // verus!
