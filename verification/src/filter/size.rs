//! Size limits parsed from strings like `+10k`, `-2Mi` or `500b`.
//!
//! A limit is a sign, a decimal quantity and a unit: `b` for bytes, or one
//! of `k m g t` with decimal meaning, `ki mi gi ti` with binary meaning,
//! and an optional trailing `b`, all case-insensitive. A leading `+` makes
//! a lower bound, `-` an upper bound, no sign an exact size.

use vstd::prelude::*;

verus! {

pub const KILO: u64 = 1000;

pub const MEGA: u64 = KILO * 1000;

pub const GIGA: u64 = MEGA * 1000;

pub const TERA: u64 = GIGA * 1000;

pub const KIBI: u64 = 1024;

pub const MEBI: u64 = KIBI * 1024;

pub const GIBI: u64 = MEBI * 1024;

pub const TEBI: u64 = GIBI * 1024;

/// A file-size limit.
#[derive(Clone, Copy, Debug, PartialEq, Eq, Structural)]
pub enum SizeFilter {
    MAX(u64),
    Min(u64),
    Equals(u64),
}

/// A size string that does not parse.
#[derive(Clone, Copy, Debug)]
pub struct SizeParseError;

/// An ASCII decimal digit.
pub open spec fn is_digit_b(b: u8) -> bool {
    48 <= b && b <= 57
}

/// An ASCII byte lowered.
pub open spec fn lower_b(b: u8) -> u8 {
    if 65 <= b && b <= 90 {
        (b + 32) as u8
    } else {
        b
    }
}

/// First index at or after `i` that holds no digit.
pub open spec fn digits_end(s: Seq<u8>, i: int) -> int
    decreases s.len() - i,
{
    if i < s.len() && is_digit_b(s[i]) {
        digits_end(s, i + 1)
    } else {
        i
    }
}

pub proof fn lemma_digits_end_bounds(s: Seq<u8>, i: int)
    requires
        0 <= i <= s.len(),
    ensures
        i <= digits_end(s, i) <= s.len(),
        forall|m: int| i <= m < digits_end(s, i) ==> is_digit_b(s[m]),
    decreases s.len() - i,
{
    if i < s.len() && is_digit_b(s[i]) {
        lemma_digits_end_bounds(s, i + 1);
    }
}

/// Value of the decimal digits `s[i..j]`.
pub open spec fn dec_int(s: Seq<u8>, i: int, j: int) -> int
    decreases j - i,
{
    if j <= i {
        0
    } else {
        dec_int(s, i, j - 1) * 10 + (s[j - 1] - 48)
    }
}

pub proof fn lemma_dec_int_nonneg(s: Seq<u8>, i: int, j: int)
    requires
        forall|m: int| i <= m < j ==> is_digit_b(s[m]),
    ensures
        dec_int(s, i, j) >= 0,
    decreases j - i,
{
    if j > i {
        lemma_dec_int_nonneg(s, i, j - 1);
    }
}

pub proof fn lemma_dec_int_mono(s: Seq<u8>, i: int, k: int, j: int)
    requires
        i <= k <= j,
        forall|m: int| i <= m < j ==> is_digit_b(s[m]),
    ensures
        dec_int(s, i, j) >= dec_int(s, i, k),
    decreases j - k,
{
    if j > k {
        lemma_dec_int_mono(s, i, k, j - 1);
        lemma_dec_int_nonneg(s, i, j - 1);
    }
}

/// Multiplier of a unit letter: decimal or binary.
pub open spec fn unit_mult(c: u8, binary: bool) -> Option<u64> {
    if c == 107 {
        Some(
            if binary {
                KIBI
            } else {
                KILO
            },
        )
    } else if c == 109 {
        Some(
            if binary {
                MEBI
            } else {
                MEGA
            },
        )
    } else if c == 103 {
        Some(
            if binary {
                GIBI
            } else {
                GIGA
            },
        )
    } else if c == 116 {
        Some(
            if binary {
                TEBI
            } else {
                TERA
            },
        )
    } else {
        None
    }
}

/// Multiplier of the unit suffix `s[j..]`: `b` is one byte; a unit letter
/// may be followed by `i`, `b` or `ib`.
pub open spec fn suffix_mult(s: Seq<u8>, j: int) -> Option<u64> {
    let n = s.len() - j;
    if n == 1 && lower_b(s[j]) == 98 {
        Some(1)
    } else if n == 1 {
        unit_mult(lower_b(s[j]), false)
    } else if n == 2 && lower_b(s[j + 1]) == 105 {
        unit_mult(lower_b(s[j]), true)
    } else if n == 2 && lower_b(s[j + 1]) == 98 {
        unit_mult(lower_b(s[j]), false)
    } else if n == 3 && lower_b(s[j + 1]) == 105 && lower_b(s[j + 2]) == 98 {
        unit_mult(lower_b(s[j]), true)
    } else {
        None
    }
}

/// What a size string parses to: sign, digits and unit, or nothing when
/// the shape is wrong or a value does not fit in 64 bits.
pub open spec fn parse_size_spec(s: Seq<u8>) -> Option<SizeFilter> {
    let has_sign = s.len() > 0 && (s[0] == 43 || s[0] == 45);
    let i0: int = if has_sign {
        1
    } else {
        0
    };
    let j = digits_end(s, i0);
    if j == i0 {
        None
    } else {
        match suffix_mult(s, j) {
            None => None,
            Some(mult) => {
                let q = dec_int(s, i0, j);
                if q > u64::MAX {
                    None
                } else if q * mult > u64::MAX {
                    None
                } else {
                    let size = (q * mult) as u64;
                    if !has_sign {
                        Some(SizeFilter::Equals(size))
                    } else if s[0] == 43 {
                        Some(SizeFilter::Min(size))
                    } else {
                        Some(SizeFilter::MAX(size))
                    }
                }
            },
        }
    }
}

/// Whether a size passes the limit.
pub open spec fn is_within_spec(f: SizeFilter, size: u64) -> bool {
    match f {
        SizeFilter::MAX(limit) => size <= limit,
        SizeFilter::Min(limit) => size >= limit,
        SizeFilter::Equals(limit) => size == limit,
    }
}

/// An ASCII byte lowered.
fn low(b: u8) -> (r: u8)
    ensures
        r == lower_b(b),
{
    if 65 <= b && b <= 90 {
        b + 32
    } else {
        b
    }
}

/// Multiplier of a unit letter, executable.
fn unit_mult_exec(c: u8, binary: bool) -> (r: Option<u64>)
    ensures
        r == unit_mult(c, binary),
{
    if c == 107 {
        Some(
            if binary {
                KIBI
            } else {
                KILO
            },
        )
    } else if c == 109 {
        Some(
            if binary {
                MEBI
            } else {
                MEGA
            },
        )
    } else if c == 103 {
        Some(
            if binary {
                GIBI
            } else {
                GIGA
            },
        )
    } else if c == 116 {
        Some(
            if binary {
                TEBI
            } else {
                TERA
            },
        )
    } else {
        None
    }
}

impl SizeFilter {
    /// Parses a size limit string, or says why not.
    pub fn from_string(s: &Vec<u8>) -> (r: Result<SizeFilter, SizeParseError>)
        ensures
            (match r {
                Ok(f) => parse_size_spec(s@) == Some(f),
                Err(_) => parse_size_spec(s@) is None,
            }),
    {
        match Self::parse_opt(s) {
            Some(f) => Ok(f),
            None => Err(SizeParseError),
        }
    }

    /// Parses a size limit string.
    pub fn parse_opt(s: &Vec<u8>) -> (r: Option<SizeFilter>)
        ensures
            r == parse_size_spec(s@),
    {
        let len = s.len();
        let has_sign = len > 0 && (s[0] == 43 || s[0] == 45);
        let i0: usize = if has_sign {
            1
        } else {
            0
        };
        proof {
            lemma_digits_end_bounds(s@, i0 as int);
        }
        let mut j: usize = i0;
        while j < len && 48 <= s[j] && s[j] <= 57
            invariant
                i0 <= j <= len == s@.len(),
                digits_end(s@, i0 as int) == digits_end(s@, j as int),
            decreases len - j,
        {
            j = j + 1;
        }
        if j == i0 {
            return None;
        }
        let ghost jj = j as int;
        proof {
            lemma_digits_end_bounds(s@, i0 as int);
        }
        let mut acc: u64 = 0;
        let mut k: usize = i0;
        while k < j
            invariant
                i0 <= k <= j <= s@.len(),
                jj == j as int,
                jj == digits_end(s@, i0 as int),
                has_sign == (s@.len() > 0 && (s@[0] == 43 || s@[0] == 45)),
                i0 == (if has_sign {
                    1usize
                } else {
                    0usize
                }),
                forall|m: int| i0 <= m < jj ==> is_digit_b(s@[m]),
                acc as int == dec_int(s@, i0 as int, k as int),
            decreases j - k,
        {
            let d = s[k] - 48;
            let step = match acc.checked_mul(10) {
                Some(x) => x.checked_add(d as u64),
                None => None,
            };
            match step {
                Some(x) => {
                    acc = x;
                },
                None => {
                    proof {
                        lemma_dec_int_mono(s@, i0 as int, k + 1, jj);
                    }
                    return None;
                },
            }
            k = k + 1;
        }
        let quantity = acc;
        let n = len - j;
        let mult_opt: Option<u64> = if n == 1 && low(s[j]) == 98 {
            Some(1)
        } else if n == 1 {
            unit_mult_exec(low(s[j]), false)
        } else if n == 2 && low(s[j + 1]) == 105 {
            unit_mult_exec(low(s[j]), true)
        } else if n == 2 && low(s[j + 1]) == 98 {
            unit_mult_exec(low(s[j]), false)
        } else if n == 3 && low(s[j + 1]) == 105 && low(s[j + 2]) == 98 {
            unit_mult_exec(low(s[j]), true)
        } else {
            None
        };
        let mult = match mult_opt {
            Some(m) => m,
            None => {
                return None;
            },
        };
        let size = match quantity.checked_mul(mult) {
            Some(x) => x,
            None => {
                return None;
            },
        };
        if !has_sign {
            Some(SizeFilter::Equals(size))
        } else if s[0] == 43 {
            Some(SizeFilter::Min(size))
        } else {
            Some(SizeFilter::MAX(size))
        }
    }

    /// Whether a size passes this limit.
    pub fn is_within(&self, size: u64) -> (r: bool)
        ensures
            r == is_within_spec(*self, size),
    {
        match *self {
            SizeFilter::MAX(limit) => size <= limit,
            SizeFilter::Min(limit) => size >= limit,
            SizeFilter::Equals(limit) => size == limit,
        }
    }
}

} // verus!
