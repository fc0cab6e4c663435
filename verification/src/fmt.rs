//! The template mini-language.
//!
//! A format string is compiled once into either plain text or a sequence of
//! tokens. The scanner recognises, at each position, one of the fixed
//! patterns `{{`, `}}`, `{}`, `{/}`, `{//}`, `{.}`, `{/.}`: doubled braces
//! degrade to single literal braces, and a placeholder directly followed by
//! one more `}` is taken as literal text. Rendering substitutes each
//! placeholder with a projection of the subject path; literal text is never
//! touched by separator replacement.

use vstd::prelude::*;

use crate::paths::basename;
use crate::paths::basename_spec;
use crate::paths::dirname;
use crate::paths::dirname_spec;
use crate::paths::remove_extension;
use crate::paths::remove_extension_spec;
use crate::paths::replace_sep_spec;
use crate::paths::split_components;
use crate::paths::render_with_sep;
use crate::paths::append_bytes;
use crate::paths::subvec;
use crate::paths::SEP_BYTE;

verus! {

/// The `{` byte.
pub const OPEN_BYTE: u8 = 123;

/// The `}` byte.
pub const CLOSE_BYTE: u8 = 125;

/// Mathematical model of one token.
pub enum TokenSpec {
    Placeholder,
    Basename,
    Parent,
    NoExt,
    BasenameNoExt,
    Text(Seq<u8>),
}

/// Mathematical model of a compiled template.
pub enum TemplateSpec {
    Toekns(Seq<TokenSpec>),
    Text(Seq<u8>),
}

/// One piece of a compiled template: a path placeholder or literal text.
#[derive(Clone, Debug)]
pub enum Token {
    Placeholder,
    Basename,
    Parent,
    NoExt,
    BasenameNoExt,
    Text(Vec<u8>),
}

impl DeepView for Token {
    type V = TokenSpec;

    open spec fn deep_view(&self) -> TokenSpec {
        match self {
            Token::Placeholder => TokenSpec::Placeholder,
            Token::Basename => TokenSpec::Basename,
            Token::Parent => TokenSpec::Parent,
            Token::NoExt => TokenSpec::NoExt,
            Token::BasenameNoExt => TokenSpec::BasenameNoExt,
            Token::Text(t) => TokenSpec::Text(t@),
        }
    }
}

/// A compiled format template: plain text, or a token sequence. A template
/// that holds no placeholder compiles to `Text`.
#[derive(Clone, Debug)]
pub enum FormatTemplate {
    Toekns(Vec<Token>),
    Text(Vec<u8>),
}

impl View for FormatTemplate {
    type V = TemplateSpec;

    open spec fn view(&self) -> TemplateSpec {
        match self {
            FormatTemplate::Toekns(ts) => TemplateSpec::Toekns(ts.deep_view()),
            FormatTemplate::Text(t) => TemplateSpec::Text(t@),
        }
    }
}

/// What a token displays as: its own pattern, or its literal text.
pub open spec fn marker_spec(t: TokenSpec) -> Seq<u8> {
    match t {
        TokenSpec::Placeholder => seq![OPEN_BYTE, CLOSE_BYTE],
        TokenSpec::Basename => seq![OPEN_BYTE, SEP_BYTE, CLOSE_BYTE],
        TokenSpec::Parent => seq![OPEN_BYTE, SEP_BYTE, SEP_BYTE, CLOSE_BYTE],
        TokenSpec::NoExt => seq![OPEN_BYTE, crate::paths::DOT_BYTE, CLOSE_BYTE],
        TokenSpec::BasenameNoExt => seq![OPEN_BYTE, SEP_BYTE, crate::paths::DOT_BYTE, CLOSE_BYTE],
        TokenSpec::Text(t) => t,
    }
}

impl Token {
    /// The text the token displays as: the pattern it was read from, or
    /// its literal text.
    pub fn marker_text(&self) -> (r: Vec<u8>)
        ensures
            r@ == marker_spec(self.deep_view()),
    {
        let mut r: Vec<u8> = Vec::new();
        match self {
            Token::Placeholder => {
                r.push(OPEN_BYTE);
                r.push(CLOSE_BYTE);
                proof {
                    assert(r@ =~= seq![OPEN_BYTE, CLOSE_BYTE]);
                }
            },
            Token::Basename => {
                r.push(OPEN_BYTE);
                r.push(SEP_BYTE);
                r.push(CLOSE_BYTE);
                proof {
                    assert(r@ =~= seq![OPEN_BYTE, SEP_BYTE, CLOSE_BYTE]);
                }
            },
            Token::Parent => {
                r.push(OPEN_BYTE);
                r.push(SEP_BYTE);
                r.push(SEP_BYTE);
                r.push(CLOSE_BYTE);
                proof {
                    assert(r@ =~= seq![OPEN_BYTE, SEP_BYTE, SEP_BYTE, CLOSE_BYTE]);
                }
            },
            Token::NoExt => {
                r.push(OPEN_BYTE);
                r.push(crate::paths::DOT_BYTE);
                r.push(CLOSE_BYTE);
                proof {
                    assert(r@ =~= seq![OPEN_BYTE, crate::paths::DOT_BYTE, CLOSE_BYTE]);
                }
            },
            Token::BasenameNoExt => {
                r.push(OPEN_BYTE);
                r.push(SEP_BYTE);
                r.push(crate::paths::DOT_BYTE);
                r.push(CLOSE_BYTE);
                proof {
                    assert(r@ =~= seq![
                        OPEN_BYTE,
                        SEP_BYTE,
                        crate::paths::DOT_BYTE,
                        CLOSE_BYTE,
                    ]);
                }
            },
            Token::Text(t) => {
                proof {
                    assert(t@.subrange(0, t@.len() as int) =~= t@);
                }
                r = subvec(t, 0, t.len());
            },
        }
        r
    }
}

/// The pattern recognised at position `i`, or `-1`: `0` is `{{`, `1` is
/// `}}`, `2` is `{}`, `3` is `{/}`, `4` is `{//}`, `5` is `{.}`, `6` is
/// `{/.}`. At most one pattern can match at a position.
pub open spec fn pat_at(s: Seq<u8>, i: int) -> int {
    if i + 2 <= s.len() && s[i] == OPEN_BYTE && s[i + 1] == OPEN_BYTE {
        0
    } else if i + 2 <= s.len() && s[i] == CLOSE_BYTE && s[i + 1] == CLOSE_BYTE {
        1
    } else if i + 2 <= s.len() && s[i] == OPEN_BYTE && s[i + 1] == CLOSE_BYTE {
        2
    } else if i + 3 <= s.len() && s[i] == OPEN_BYTE && s[i + 1] == SEP_BYTE && s[i + 2]
        == CLOSE_BYTE {
        3
    } else if i + 4 <= s.len() && s[i] == OPEN_BYTE && s[i + 1] == SEP_BYTE && s[i + 2] == SEP_BYTE
        && s[i + 3] == CLOSE_BYTE {
        4
    } else if i + 3 <= s.len() && s[i] == OPEN_BYTE && s[i + 1] == crate::paths::DOT_BYTE && s[i
        + 2] == CLOSE_BYTE {
        5
    } else if i + 4 <= s.len() && s[i] == OPEN_BYTE && s[i + 1] == SEP_BYTE && s[i + 2]
        == crate::paths::DOT_BYTE && s[i + 3] == CLOSE_BYTE {
        6
    } else {
        -1
    }
}

/// Length of pattern `id`.
pub open spec fn pat_len(id: int) -> int {
    if id <= 2 {
        2
    } else if id == 3 || id == 5 {
        3
    } else {
        4
    }
}

/// The placeholder token of pattern `id`.
pub open spec fn token_of(id: int) -> TokenSpec {
    if id == 3 {
        TokenSpec::Basename
    } else if id == 4 {
        TokenSpec::Parent
    } else if id == 5 {
        TokenSpec::NoExt
    } else if id == 6 {
        TokenSpec::BasenameNoExt
    } else {
        TokenSpec::Placeholder
    }
}

/// Wraps up a scan: a template with no placeholder is plain text, and a
/// non-empty literal tail becomes a final text token.
pub open spec fn finish_parse(buf: Seq<u8>, toks: Seq<TokenSpec>) -> TemplateSpec {
    if toks.len() == 0 {
        TemplateSpec::Text(buf)
    } else if buf.len() == 0 {
        TemplateSpec::Toekns(toks)
    } else {
        TemplateSpec::Toekns(toks.push(TokenSpec::Text(buf)))
    }
}

/// One scan step at position `i` with the pending literal `buf` and the
/// tokens produced so far.
pub open spec fn parse_from(s: Seq<u8>, i: int, buf: Seq<u8>, toks: Seq<TokenSpec>) -> TemplateSpec
    decreases s.len() - i,
        when 0 <= i
{
    if i >= s.len() {
        finish_parse(buf, toks)
    } else {
        let id = pat_at(s, i);
        if id == -1 {
            parse_from(s, i + 1, buf.push(s[i]), toks)
        } else if id <= 1 {
            parse_from(s, i + 2, buf.push(s[i]), toks)
        } else {
            let e = i + pat_len(id);
            if !(e < s.len() && s[e] == CLOSE_BYTE) {
                let toks2 = if buf.len() > 0 {
                    toks.push(TokenSpec::Text(buf))
                } else {
                    toks
                };
                parse_from(s, e, Seq::empty(), toks2.push(token_of(id)))
            } else {
                parse_from(s, e + 1, buf + s.subrange(i, e + 1), toks)
            }
        }
    }
}

/// The compiled form of a format string.
pub open spec fn parse_spec(s: Seq<u8>) -> TemplateSpec {
    parse_from(s, 0, Seq::empty(), Seq::empty())
}

/// The pattern recognised at position `i` of `s`, or `-1`.
fn pat_at_exec(s: &Vec<u8>, i: usize) -> (id: i32)
    requires
        i <= s@.len(),
    ensures
        id as int == pat_at(s@, i as int),
        id != -1 ==> i + pat_len(id as int) <= s@.len(),
{
    let rem = s.len() - i;
    if rem >= 2 && s[i] == OPEN_BYTE && s[i + 1] == OPEN_BYTE {
        0
    } else if rem >= 2 && s[i] == CLOSE_BYTE && s[i + 1] == CLOSE_BYTE {
        1
    } else if rem >= 2 && s[i] == OPEN_BYTE && s[i + 1] == CLOSE_BYTE {
        2
    } else if rem >= 3 && s[i] == OPEN_BYTE && s[i + 1] == SEP_BYTE && s[i + 2] == CLOSE_BYTE {
        3
    } else if rem >= 4 && s[i] == OPEN_BYTE && s[i + 1] == SEP_BYTE && s[i + 2] == SEP_BYTE && s[i
        + 3] == CLOSE_BYTE {
        4
    } else if rem >= 3 && s[i] == OPEN_BYTE && s[i + 1] == crate::paths::DOT_BYTE && s[i + 2]
        == CLOSE_BYTE {
        5
    } else if rem >= 4 && s[i] == OPEN_BYTE && s[i + 1] == SEP_BYTE && s[i + 2]
        == crate::paths::DOT_BYTE && s[i + 3] == CLOSE_BYTE {
        6
    } else {
        -1
    }
}

/// The placeholder token that pattern `id` stands for.
pub fn token_from_pattern_id(id: u32) -> (t: Token)
    requires
        2 <= id <= 6,
    ensures
        t.deep_view() == token_of(id as int),
{
    if id == 3 {
        Token::Basename
    } else if id == 4 {
        Token::Parent
    } else if id == 5 {
        Token::NoExt
    } else if id == 6 {
        Token::BasenameNoExt
    } else {
        Token::Placeholder
    }
}

impl FormatTemplate {
    /// Whether the compiled template holds any placeholder token.
    pub fn has_tokens(&self) -> (b: bool)
        ensures
            b == (self@ is Toekns),
    {
        match self {
            FormatTemplate::Toekns(_) => true,
            FormatTemplate::Text(_) => false,
        }
    }

    /// Compiles a format string. Compilation is total: every input yields a
    /// template, and a string without placeholders compiles to its own text
    /// with doubled braces reduced to single ones.
    pub fn parse(fmt: &Vec<u8>) -> (t: FormatTemplate)
        ensures
            t@ == parse_spec(fmt@),
    {
        let mut buf: Vec<u8> = Vec::new();
        let mut toks: Vec<Token> = Vec::new();
        let mut i: usize = 0;
        proof {
            assert(toks.deep_view() =~~= Seq::<TokenSpec>::empty());
        }
        while i < fmt.len()
            invariant
                i <= fmt@.len(),
                parse_from(fmt@, i as int, buf@, toks.deep_view()) == parse_spec(fmt@),
            decreases fmt@.len() - i,
        {
            let id = pat_at_exec(fmt, i);
            if id == -1 {
                buf.push(fmt[i]);
                i = i + 1;
            } else if id <= 1 {
                buf.push(fmt[i]);
                i = i + 2;
            } else {
                let pl: usize = if id == 2 {
                    2
                } else if id == 3 || id == 5 {
                    3
                } else {
                    4
                };
                let e = i + pl;
                if !(e < fmt.len() && fmt[e] == CLOSE_BYTE) {
                    let ghost toks_old = toks.deep_view();
                    let ghost buf_old = buf@;
                    proof {
                        if buf@.len() == 0 {
                            assert(buf@ =~= Seq::<u8>::empty());
                        }
                    }
                    if buf.len() > 0 {
                        toks.push(Token::Text(buf));
                        buf = Vec::new();
                        proof {
                            assert(toks.deep_view() =~~= toks_old.push(TokenSpec::Text(buf_old)));
                        }
                    }
                    let ghost toks2 = toks.deep_view();
                    toks.push(token_from_pattern_id(id as u32));
                    proof {
                        assert(toks.deep_view() =~~= toks2.push(token_of(id as int)));
                    }
                    i = e;
                } else {
                    let ghost buf_old = buf@;
                    let piece = subvec(fmt, i, e + 1);
                    append_bytes(&mut buf, &piece);
                    proof {
                        assert(buf@ =~= buf_old + fmt@.subrange(i as int, e + 1 as int));
                    }
                    i = e + 1;
                }
            }
        }
        if toks.len() == 0 {
            FormatTemplate::Text(buf)
        } else if buf.len() == 0 {
            FormatTemplate::Toekns(toks)
        } else {
            let ghost toks_old = toks.deep_view();
            let ghost buf_old = buf@;
            toks.push(Token::Text(buf));
            proof {
                assert(toks.deep_view() =~~= toks_old.push(TokenSpec::Text(buf_old)));
            }
            FormatTemplate::Toekns(toks)
        }
    }

    /// Replaces the path's separators by `sep`; with no separator given the
    /// path is returned unchanged.
    pub fn replace_separator(path: &Vec<u8>, sep: Option<&Vec<u8>>) -> (r: Vec<u8>)
        ensures
            (match sep {
                None => r@ == path@,
                Some(sp) => r@ == replace_sep_spec(path@, sp@),
            }),
    {
        match sep {
            None => {
                proof {
                    assert(path@.subrange(0, path@.len() as int) =~= path@);
                }
                subvec(path, 0, path.len())
            },
            Some(sp) => {
                let comps = split_components(path);
                let root = path.len() > 0 && path[0] == SEP_BYTE;
                render_with_sep(root, &comps, sp)
            },
        }
    }

    /// What a single token renders to.
    pub open spec fn proj_spec(t: TokenSpec, path: Seq<u8>, sep: Option<Seq<u8>>) -> Seq<u8> {
        match t {
            TokenSpec::Placeholder => rs_spec(path, sep),
            TokenSpec::Basename => rs_spec(basename_spec(path), sep),
            TokenSpec::Parent => rs_spec(dirname_spec(path), sep),
            TokenSpec::NoExt => rs_spec(remove_extension_spec(path), sep),
            TokenSpec::BasenameNoExt => rs_spec(remove_extension_spec(basename_spec(path)), sep),
            TokenSpec::Text(x) => x,
        }
    }

    /// What the tokens from `k` on render to, concatenated.
    pub open spec fn gen_from(
        toks: Seq<TokenSpec>,
        path: Seq<u8>,
        sep: Option<Seq<u8>>,
        k: int,
    ) -> Seq<u8>
        decreases toks.len() - k,
    {
        if k >= toks.len() {
            Seq::empty()
        } else {
            Self::proj_spec(toks[k], path, sep) + Self::gen_from(toks, path, sep, k + 1)
        }
    }

    /// What a compiled template renders to for a subject path.
    pub open spec fn generate_spec(t: TemplateSpec, path: Seq<u8>, sep: Option<Seq<u8>>) -> Seq<
        u8,
    > {
        match t {
            TemplateSpec::Text(x) => x,
            TemplateSpec::Toekns(ts) => Self::gen_from(ts, path, sep, 0),
        }
    }

    /// Renders the template for `path`. Placeholders expand to projections
    /// of `path`, separator-replaced when `sep` is given; literal text is
    /// emitted unchanged.
    pub fn generate(&self, path: &Vec<u8>, sep: Option<&Vec<u8>>) -> (out: Vec<u8>)
        ensures
            out@ == Self::generate_spec(self@, path@, opt_bytes_view(sep)),
    {
        let ghost sv = opt_bytes_view(sep);
        match self {
            FormatTemplate::Text(t) => {
                proof {
                    assert(t@.subrange(0, t@.len() as int) =~= t@);
                }
                subvec(t, 0, t.len())
            },
            FormatTemplate::Toekns(ts) => {
                let mut out: Vec<u8> = Vec::new();
                let mut k: usize = 0;
                while k < ts.len()
                    invariant
                        k <= ts@.len(),
                        Self::gen_from(ts.deep_view(), path@, sv, 0) == out@ + Self::gen_from(
                            ts.deep_view(),
                            path@,
                            sv,
                            k as int,
                        ),
                        sv == opt_bytes_view(sep),
                    decreases ts@.len() - k,
                {
                    let piece: Vec<u8> = match &ts[k] {
                        Token::Placeholder => Self::replace_separator(path, sep),
                        Token::Basename => {
                            let b = basename(path);
                            Self::replace_separator(&b, sep)
                        },
                        Token::Parent => {
                            let d = dirname(path);
                            Self::replace_separator(&d, sep)
                        },
                        Token::NoExt => {
                            let ne = remove_extension(path);
                            Self::replace_separator(&ne, sep)
                        },
                        Token::BasenameNoExt => {
                            let b = basename(path);
                            let ne = remove_extension(&b);
                            Self::replace_separator(&ne, sep)
                        },
                        Token::Text(txt) => {
                            proof {
                                assert(txt@.subrange(0, txt@.len() as int) =~= txt@);
                            }
                            subvec(txt, 0, txt.len())
                        },
                    };
                    proof {
                        assert(ts.deep_view()[k as int] == ts@[k as int].deep_view());
                        assert(piece@ == Self::proj_spec(ts.deep_view()[k as int], path@, sv));
                    }
                    append_bytes(&mut out, &piece);
                    k = k + 1;
                }
                out
            },
        }
    }
}

proof fn lemma_parse_no_pattern(s: Seq<u8>, i: int, buf: Seq<u8>)
    requires
        0 <= i <= s.len(),
        forall|m: int| i <= m < s.len() ==> pat_at(s, m) == -1,
    ensures
        parse_from(s, i, buf, Seq::empty()) == TemplateSpec::Text(buf + s.subrange(i, s.len() as int)),
    decreases s.len() - i,
{
    if i >= s.len() {
        assert(buf + s.subrange(i, s.len() as int) =~= buf);
    } else {
        lemma_parse_no_pattern(s, i + 1, buf.push(s[i]));
        assert(buf.push(s[i]) + s.subrange(i + 1, s.len() as int) =~= buf + s.subrange(
            i,
            s.len() as int,
        ));
    }
}

/// A format string in which none of the patterns occurs compiles to its
/// own text, and renders to itself for every path and separator.
pub proof fn lemma_no_placeholder_literal(s: Seq<u8>, path: Seq<u8>, sep: Option<Seq<u8>>)
    requires
        forall|m: int| 0 <= m < s.len() ==> pat_at(s, m) == -1,
    ensures
        parse_spec(s) == TemplateSpec::Text(s),
        FormatTemplate::generate_spec(parse_spec(s), path, sep) == s,
{
    lemma_parse_no_pattern(s, 0, Seq::empty());
    assert(Seq::<u8>::empty() + s.subrange(0, s.len() as int) =~= s);
}

proof fn lemma_parse_from_nonempty(s: Seq<u8>, i: int, buf: Seq<u8>, toks: Seq<TokenSpec>)
    requires
        0 <= i,
    ensures
        (match parse_from(s, i, buf, toks) {
            TemplateSpec::Toekns(ts) => ts.len() >= toks.len() && ts.len() >= 1,
            TemplateSpec::Text(_) => true,
        }),
    decreases s.len() - i,
{
    if i >= s.len() {
    } else {
        let id = pat_at(s, i);
        if id == -1 {
            lemma_parse_from_nonempty(s, i + 1, buf.push(s[i]), toks);
        } else if id <= 1 {
            lemma_parse_from_nonempty(s, i + 2, buf.push(s[i]), toks);
        } else {
            let e = i + pat_len(id);
            if !(e < s.len() && s[e] == CLOSE_BYTE) {
                let toks2 = if buf.len() > 0 {
                    toks.push(TokenSpec::Text(buf))
                } else {
                    toks
                };
                lemma_parse_from_nonempty(s, e, Seq::empty(), toks2.push(token_of(id)));
            } else {
                lemma_parse_from_nonempty(s, e + 1, buf + s.subrange(i, e + 1), toks);
            }
        }
    }
}

/// A compiled template never holds an empty token sequence: a format
/// string without placeholders compiles to plain text instead.
pub proof fn lemma_token_sequence_nonempty(s: Seq<u8>)
    ensures
        (match parse_spec(s) {
            TemplateSpec::Toekns(ts) => ts.len() >= 1,
            TemplateSpec::Text(_) => true,
        }),
{
    lemma_parse_from_nonempty(s, 0, Seq::empty(), Seq::empty());
}

/// A template without placeholder tokens renders the same text for every
/// path and every separator.
pub proof fn lemma_text_template_path_independent(
    t: TemplateSpec,
    p1: Seq<u8>,
    p2: Seq<u8>,
    sep1: Option<Seq<u8>>,
    sep2: Option<Seq<u8>>,
)
    requires
        t is Text,
    ensures
        FormatTemplate::generate_spec(t, p1, sep1) == FormatTemplate::generate_spec(t, p2, sep2),
{
}

/// The template `{}` rendered without a separator gives back any path
/// unchanged.
pub proof fn lemma_full_path_roundtrip(p: Seq<u8>)
    ensures
        FormatTemplate::generate_spec(parse_spec(seq![123u8, 125u8]), p, None) == p,
{
    let f = seq![123u8, 125u8];
    assert(pat_at(f, 0) == 2);
    let toks = Seq::<TokenSpec>::empty().push(token_of(2));
    assert(parse_from(f, 0, Seq::empty(), Seq::empty()) == parse_from(f, 2, Seq::empty(), toks));
    assert(parse_from(f, 2, Seq::empty(), toks) == TemplateSpec::Toekns(toks));
    assert(FormatTemplate::gen_from(toks, p, None, 1) == Seq::<u8>::empty());
    assert(FormatTemplate::gen_from(toks, p, None, 0) =~= p);
}

/// The template `{{}}` compiles to the literal text `{}`: the doubled
/// braces are two escapes, never a placeholder. It renders to `{}` for
/// every path and separator.
pub proof fn lemma_escaped_braces(p: Seq<u8>, sep: Option<Seq<u8>>)
    ensures
        parse_spec(seq![123u8, 123u8, 125u8, 125u8]) == TemplateSpec::Text(seq![123u8, 125u8]),
        FormatTemplate::generate_spec(
            parse_spec(seq![123u8, 123u8, 125u8, 125u8]),
            p,
            sep,
        ) == seq![123u8, 125u8],
{
    let f = seq![123u8, 123u8, 125u8, 125u8];
    assert(pat_at(f, 0) == 0);
    let b1 = Seq::<u8>::empty().push(f[0]);
    assert(parse_from(f, 0, Seq::empty(), Seq::empty()) == parse_from(f, 2, b1, Seq::empty()));
    assert(pat_at(f, 2) == 1);
    let b2 = b1.push(f[2]);
    assert(parse_from(f, 2, b1, Seq::empty()) == parse_from(f, 4, b2, Seq::empty()));
    assert(parse_from(f, 4, b2, Seq::empty()) == TemplateSpec::Text(b2));
    assert(b2 =~= seq![123u8, 125u8]);
}

/// The view of an optional separator.
pub open spec fn rs_spec(x: Seq<u8>, sep: Option<Seq<u8>>) -> Seq<u8> {
    match sep {
        None => x,
        Some(sp) => replace_sep_spec(x, sp),
    }
}

/// The view of an optional borrowed byte string.
pub open spec fn opt_bytes_view(sep: Option<&Vec<u8>>) -> Option<Seq<u8>> {
    match sep {
        None => None,
        Some(v) => Some(v@),
    }
}

} // verus!
