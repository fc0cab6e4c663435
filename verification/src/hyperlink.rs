//! `file://` URLs for absolute paths, percent-encoded byte by byte.

use vstd::prelude::*;

use crate::filesystem::absolute_spec;
use crate::filesystem::absolute_path;
use crate::paths::append_bytes;
use crate::paths::has_root;

verus! {

/// The `%` byte.
pub const PERCENT_BYTE: u8 = 37;

/// A byte that passes through percent-encoding unchanged: a digit, a
/// letter, or one of `/ : - . _ ~`.
pub open spec fn is_unreserved(b: u8) -> bool {
    (48 <= b && b <= 57) || (65 <= b && b <= 90) || (97 <= b && b <= 122) || b == 47 || b == 58
        || b == 45 || b == 46 || b == 95 || b == 126
}

/// The uppercase hex digit of a value below 16.
pub open spec fn hex_digit(v: u8) -> u8 {
    if v < 10 {
        (48 + v) as u8
    } else {
        (55 + v) as u8
    }
}

/// What one byte encodes to: itself when unreserved, else `%` and two
/// uppercase hex digits.
pub open spec fn encode_byte_spec(b: u8) -> Seq<u8> {
    if is_unreserved(b) {
        seq![b]
    } else {
        seq![PERCENT_BYTE, hex_digit(b / 16), hex_digit(b % 16)]
    }
}

/// What the bytes from `k` on encode to, concatenated.
pub open spec fn encode_from(s: Seq<u8>, k: int) -> Seq<u8>
    decreases s.len() - k,
{
    if k >= s.len() {
        Seq::empty()
    } else {
        encode_byte_spec(s[k]) + encode_from(s, k + 1)
    }
}

/// The bytes of `file://`.
pub open spec fn file_scheme_spec() -> Seq<u8> {
    seq![102u8, 105u8, 108u8, 101u8, 58u8, 47u8, 47u8]
}

/// The whole URL: scheme, host, and the percent-encoded absolute path.
pub open spec fn url_spec(host: Seq<u8>, abs: Seq<u8>) -> Seq<u8> {
    file_scheme_spec() + host + encode_from(abs, 0)
}

/// An uppercase hexadecimal digit byte.
pub open spec fn is_upper_hex_digit(c: u8) -> bool {
    (48 <= c && c <= 57) || (65 <= c && c <= 70)
}

/// The value of an uppercase hexadecimal digit byte.
pub open spec fn hex_val(c: u8) -> int {
    if c < 58 {
        c - 48
    } else {
        c - 55
    }
}

/// Percent-encoding passes every unreserved byte through unchanged, and
/// turns every other byte into exactly `%` and two uppercase hexadecimal
/// digits that spell that byte.
pub proof fn lemma_percent_encoding(b: u8)
    ensures
        is_unreserved(b) ==> encode_byte_spec(b) == seq![b],
        !is_unreserved(b) ==> encode_byte_spec(b).len() == 3,
        !is_unreserved(b) ==> encode_byte_spec(b)[0] == PERCENT_BYTE,
        !is_unreserved(b) ==> is_upper_hex_digit(encode_byte_spec(b)[1]) && is_upper_hex_digit(
            encode_byte_spec(b)[2],
        ),
        !is_unreserved(b) ==> hex_val(encode_byte_spec(b)[1]) * 16 + hex_val(
            encode_byte_spec(b)[2],
        ) == b,
{
    assert(b / 16 < 16 && b % 16 < 16);
    assert(16 * (b / 16) + (b % 16) == b);
}

/// Appends the percent-encoding of one byte.
pub fn encode(out: &mut Vec<u8>, byte: u8)
    ensures
        final(out)@ == old(out)@ + encode_byte_spec(byte),
{
    if (48 <= byte && byte <= 57) || (65 <= byte && byte <= 90) || (97 <= byte && byte <= 122)
        || byte == 47 || byte == 58 || byte == 45 || byte == 46 || byte == 95 || byte == 126 {
        out.push(byte);
        proof {
            assert(out@ =~= old(out)@ + seq![byte]);
        }
    } else {
        let hi = byte / 16;
        let lo = byte % 16;
        out.push(PERCENT_BYTE);
        out.push(if hi < 10 { 48 + hi } else { 55 + hi });
        out.push(if lo < 10 { 48 + lo } else { 55 + lo });
        proof {
            assert(out@ =~= old(out)@ + seq![PERCENT_BYTE, hex_digit(byte / 16), hex_digit(
                byte % 16,
            )]);
        }
    }
}

/// An absolute path ready to be rendered as a `file://` URL.
pub struct PathUrl {
    abs: Vec<u8>,
}

impl PathUrl {
    /// The stored absolute path.
    pub closed spec fn abs_view(&self) -> Seq<u8> {
        self.abs@
    }

    /// Builds the URL subject for a path. An absolute path stands by
    /// itself; a relative one needs the working directory, and without one
    /// there is no URL.
    pub fn new(path: &Vec<u8>, cwd: Option<&Vec<u8>>) -> (r: Option<PathUrl>)
        ensures
            (match r {
                Some(u) => (has_root(path@) || cwd is Some) && u.abs_view() == (match cwd {
                    Some(c) => absolute_spec(path@, c@),
                    None => path@,
                }),
                None => !has_root(path@) && cwd is None,
            }),
    {
        match cwd {
            Some(c) => Some(PathUrl { abs: absolute_path(path, c) }),
            None => {
                if path.len() > 0 && path[0] == crate::paths::SEP_BYTE {
                    proof {
                        assert(path@.subrange(0, path@.len() as int) =~= path@);
                    }
                    Some(PathUrl { abs: crate::paths::subvec(path, 0, path.len()) })
                } else {
                    None
                }
            },
        }
    }

    /// Renders `file://<host><encoded path>`.
    pub fn url_bytes(&self, host: &Vec<u8>) -> (out: Vec<u8>)
        ensures
            out@ == url_spec(host@, self.abs_view()),
    {
        let mut out: Vec<u8> = Vec::new();
        out.push(102);
        out.push(105);
        out.push(108);
        out.push(101);
        out.push(58);
        out.push(47);
        out.push(47);
        proof {
            assert(out@ =~= file_scheme_spec());
        }
        append_bytes(&mut out, host);
        let ghost base = out@;
        let mut k: usize = 0;
        while k < self.abs.len()
            invariant
                k <= self.abs@.len(),
                base + encode_from(self.abs@, 0) == out@ + encode_from(self.abs@, k as int),
            decreases self.abs@.len() - k,
        {
            encode(&mut out, self.abs[k]);
            k = k + 1;
        }
        out
    }
}

} // verus!
