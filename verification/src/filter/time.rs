//! Modification-time limits parsed from strings.
//!
//! A limit string is one of: a duration back from a reference time
//! (`10min`, `2 days`), an RFC 3339 time, a local date (`2015-05-15`), a
//! local date and time (`2015-05-15 12:00:00`), or `@` and a number of
//! seconds since the epoch. Times are carried as whole seconds and
//! sub-second nanoseconds since the epoch.
//!
//! The duration reading of the string is handed in by the caller as plain
//! seconds and nanoseconds: the surrounding tool's duration parser does
//! not return normally on some extreme inputs, so its call stays outside
//! the library, and the library is verified for every value it may hand
//! over. The remaining forms are read here, through trusted calls.

use vstd::prelude::*;
use vstd::string::StringSliceAdditionalSpecFns;

verus! {

pub const NANOS_PER_SEC: u32 = 1000000000;

/// A point in time: seconds since the epoch, and nanoseconds below one
/// second.
#[derive(Clone, Copy, Debug, PartialEq, Eq, Structural)]
pub struct Timestamp {
    pub secs: i64,
    pub nanos: u32,
}

impl Timestamp {
    /// A timestamp is well formed when its nanosecond part is below one
    /// second.
    pub open spec fn wf(&self) -> bool {
        self.nanos < NANOS_PER_SEC
    }

    /// The timestamp as one number of nanoseconds.
    pub open spec fn total_nanos(&self) -> int {
        self.secs * (NANOS_PER_SEC as int) + self.nanos
    }
}

/// What RFC 3339 parsing makes of a string, as seconds and sub-second
/// nanoseconds since the epoch. The result depends on the string alone.
pub uninterp spec fn rfc3339_unix_of(s: Seq<char>) -> Option<(i64, u32)>;

/// Whether `chrono::NaiveDate::parse_from_str` with the `%F` format
/// accepts the string. Acceptance depends on the string alone; the
/// resulting instant does not, since the local time zone enters later.
pub uninterp spec fn date_shape(s: Seq<char>) -> bool;

/// Whether `chrono::NaiveDateTime::parse_from_str` with the `%F %T`
/// format accepts the string, as `date_shape` for a date.
pub uninterp spec fn datetime_shape(s: Seq<char>) -> bool;

/// Whether a number of epoch seconds lies in the range that
/// `chrono::DateTime::from_timestamp` represents. A function of the
/// seconds alone.
pub uninterp spec fn timestamp_secs_in_range(secs: i64) -> bool;

/// Relies on chrono::DateTime::parse_from_rfc3339 and on its timestamp
/// accessors; the nanosecond part stays below two seconds (a leap second
/// may push it past one).
#[verifier::external_body]
fn parse_rfc3339_wrapper(s: &str) -> (r: Option<(i64, u32)>)
    ensures
        r == rfc3339_unix_of(s@),
        (match r {
            Some(t) => t.1 < 2000000000,
            None => true,
        }),
{
    chrono::DateTime::parse_from_rfc3339(s).ok().map(
        |dt| (dt.timestamp(), dt.timestamp_subsec_nanos()),
    )
}

/// Relies on chrono::NaiveDate::parse_from_str and the machine's local
/// time zone: the given date at local midnight. A result can only come
/// from a string of date shape, and a string of another shape gives
/// nothing; whether a date-shaped string yields a result depends on the
/// zone (a zone may skip midnight), so no more is claimed.
#[verifier::external_body]
fn parse_local_date_wrapper(s: &str) -> (r: Option<(i64, u32)>)
    ensures
        r is Some ==> date_shape(s@),
        !date_shape(s@) ==> r is None,
        (match r {
            Some(t) => t.1 < 2000000000,
            None => true,
        }),
{
    chrono::NaiveDate::parse_from_str(s, "%F").ok().and_then(|d| d.and_hms_opt(0, 0, 0)).and_then(
        |dt| dt.and_local_timezone(chrono::Local).latest(),
    ).map(|dt| (dt.timestamp(), dt.timestamp_subsec_nanos()))
}

/// Relies on chrono::NaiveDateTime::parse_from_str and the machine's
/// local time zone, as the date wrapper does.
#[verifier::external_body]
fn parse_local_datetime_wrapper(s: &str) -> (r: Option<(i64, u32)>)
    ensures
        r is Some ==> datetime_shape(s@),
        !datetime_shape(s@) ==> r is None,
        (match r {
            Some(t) => t.1 < 2000000000,
            None => true,
        }),
{
    chrono::NaiveDateTime::parse_from_str(s, "%F %T").ok().and_then(
        |dt| dt.and_local_timezone(chrono::Local).latest(),
    ).map(|dt| (dt.timestamp(), dt.timestamp_subsec_nanos()))
}

/// Relies on chrono::DateTime::from_timestamp: a number of seconds in
/// chrono's representable range comes back unchanged (the documented
/// round trip), and exactly the out-of-range ones give nothing.
#[verifier::external_body]
fn timestamp_from_secs(secs: i64) -> (r: Option<i64>)
    ensures
        r is Some <==> timestamp_secs_in_range(secs),
        (match r {
            Some(x) => x == secs,
            None => true,
        }),
{
    chrono::DateTime::from_timestamp(secs, 0).map(|dt| dt.timestamp())
}

/// Carries a possible leap-second overhang into the seconds.
fn normalize_ts(secs: i64, nanos: u32) -> (r: Option<Timestamp>)
    requires
        nanos < 2000000000,
    ensures
        (match r {
            Some(t) => t.wf() && t.total_nanos() == secs * (NANOS_PER_SEC as int) + nanos,
            None => secs == i64::MAX && nanos >= NANOS_PER_SEC,
        }),
{
    if nanos >= NANOS_PER_SEC {
        if secs == i64::MAX {
            None
        } else {
            Some(Timestamp { secs: secs + 1, nanos: nanos - NANOS_PER_SEC })
        }
    } else {
        Some(Timestamp { secs, nanos })
    }
}

/// The reference time minus a duration; nothing when the result falls
/// below what a timestamp can carry.
fn sub_duration(t: &Timestamp, dsecs: u64, dnanos: u32) -> (r: Option<Timestamp>)
    requires
        t.wf(),
        dnanos < NANOS_PER_SEC,
    ensures
        (match r {
            Some(rt) => rt.wf() && rt.total_nanos() == t.total_nanos() - (dsecs * (
            NANOS_PER_SEC as int) + dnanos),
            None => t.total_nanos() - (dsecs * (NANOS_PER_SEC as int) + dnanos) < i64::MIN * (
            NANOS_PER_SEC as int),
        }),
{
    let carry: u64 = if t.nanos >= dnanos {
        0
    } else {
        1
    };
    let nn: u32 = if t.nanos >= dnanos {
        t.nanos - dnanos
    } else {
        t.nanos + NANOS_PER_SEC - dnanos
    };
    let s128: i128 = t.secs as i128 - dsecs as i128 - carry as i128;
    if s128 < i64::MIN as i128 {
        None
    } else {
        Some(Timestamp { secs: s128 as i64, nanos: nn })
    }
}

/// A modification-time limit: strictly before, or strictly after, a point
/// in time.
#[derive(Clone, Copy, Debug, PartialEq, Eq, Structural)]
pub enum TimeFilter {
    Before(Timestamp),
    After(Timestamp),
}

/// What the `@` form of a time string parses to: `@`, then an optionally
/// signed decimal number of epoch seconds in chrono's range; anything
/// else is nothing.
pub open spec fn at_branch_spec(s: &str) -> Option<Timestamp> {
    let b = s.spec_bytes();
    if b.len() > 0 && b[0] == 64 {
        match parse_i64_spec(b.subrange(1, b.len() as int)) {
            Some(n) => if timestamp_secs_in_range(n) {
                Some(Timestamp { secs: n, nanos: 0 })
            } else {
                None
            },
            None => None,
        }
    } else {
        None
    }
}

/// What `from_str` promises. A result is always well formed. With a
/// duration given, the result is the reference time moved back, or
/// nothing when that underflows. Otherwise: an RFC 3339 string gives
/// exactly that time; failing that, a string of date or date-time shape
/// goes through the local time zone, so only well-formedness is claimed
/// for it; and a string of neither shape is read exactly as the `@`
/// form — in particular, one that no form accepts gives nothing.
pub open spec fn from_str_post(
    refv: Timestamp,
    s: &str,
    dur: Option<(u64, u32)>,
    r: Option<Timestamp>,
) -> bool {
    &&& (match r {
        Some(t) => t.wf(),
        None => true,
    })
    &&& (match dur {
        Some(d) => (match r {
            Some(t) => t.total_nanos() == refv.total_nanos() - (d.0 * (NANOS_PER_SEC as int)
                + d.1),
            None => refv.total_nanos() - (d.0 * (NANOS_PER_SEC as int) + d.1) < i64::MIN * (
            NANOS_PER_SEC as int),
        }),
        None => (match rfc3339_unix_of(s@) {
            Some(u) => (match r {
                Some(t) => t.total_nanos() == u.0 * (NANOS_PER_SEC as int) + u.1,
                None => u.0 == i64::MAX && u.1 >= NANOS_PER_SEC,
            }),
            None => (!date_shape(s@) && !datetime_shape(s@)) ==> r == at_branch_spec(s),
        }),
    })
}

impl TimeFilter {
    /// Parses a time string against a reference time: the handed-in
    /// duration first, then RFC 3339, a local date, a local date and
    /// time, and `@` with epoch seconds.
    fn from_str(ref_time: &Timestamp, s: &str, duration: Option<(u64, u32)>) -> (r: Option<
        Timestamp,
    >)
        requires
            ref_time.wf(),
            (match duration {
                Some(d) => d.1 < NANOS_PER_SEC,
                None => true,
            }),
        ensures
            from_str_post(*ref_time, s, duration, r),
    {
        match duration {
            Some(d) => sub_duration(ref_time, d.0, d.1),
            None => {
                match parse_rfc3339_wrapper(s) {
                    Some(u) => normalize_ts(u.0, u.1),
                    None => {
                        match parse_local_date_wrapper(s) {
                            Some(u) => normalize_ts(u.0, u.1),
                            None => {
                                match parse_local_datetime_wrapper(s) {
                                    Some(u) => normalize_ts(u.0, u.1),
                                    None => Self::from_timestamp_str(s),
                                }
                            },
                        }
                    },
                }
            },
        }
    }

    /// The `@` form: epoch seconds checked against chrono's range.
    fn from_timestamp_str(s: &str) -> (r: Option<Timestamp>)
        ensures
            r == at_branch_spec(s),
            (match r {
                Some(t) => t.wf(),
                None => true,
            }),
    {
        let b = s.as_bytes_vec();
        if b.len() == 0 || b[0] != 64 {
            return None;
        }
        let digits = crate::paths::subvec(&b, 1, b.len());
        match parse_i64_dec(&digits) {
            Some(secs) => match timestamp_from_secs(secs) {
                Some(x) => Some(Timestamp { secs: x, nanos: 0 }),
                None => None,
            },
            None => None,
        }
    }

    /// A limit on times strictly before the parsed time. The caller hands
    /// in its duration parser's reading of the string, if any.
    pub fn before(ref_time: &Timestamp, s: &str, duration: Option<(u64, u32)>) -> (r: Option<
        TimeFilter,
    >)
        requires
            ref_time.wf(),
            (match duration {
                Some(d) => d.1 < NANOS_PER_SEC,
                None => true,
            }),
        ensures
            (match r {
                Some(TimeFilter::Before(t)) => from_str_post(*ref_time, s, duration, Some(t)),
                Some(TimeFilter::After(_)) => false,
                None => from_str_post(*ref_time, s, duration, None),
            }),
    {
        match Self::from_str(ref_time, s, duration) {
            Some(t) => Some(TimeFilter::Before(t)),
            None => None,
        }
    }

    /// A limit on times strictly after the parsed time, as `before`.
    pub fn after(ref_time: &Timestamp, s: &str, duration: Option<(u64, u32)>) -> (r: Option<
        TimeFilter,
    >)
        requires
            ref_time.wf(),
            (match duration {
                Some(d) => d.1 < NANOS_PER_SEC,
                None => true,
            }),
        ensures
            (match r {
                Some(TimeFilter::After(t)) => from_str_post(*ref_time, s, duration, Some(t)),
                Some(TimeFilter::Before(_)) => false,
                None => from_str_post(*ref_time, s, duration, None),
            }),
    {
        match Self::from_str(ref_time, s, duration) {
            Some(t) => Some(TimeFilter::After(t)),
            None => None,
        }
    }

    /// Whether the limit holds the time: strictly earlier than a `Before`
    /// limit, strictly later than an `After` one.
    pub fn applies_to(&self, t: &Timestamp) -> (r: bool)
        requires
            t.wf(),
            (match *self {
                TimeFilter::Before(limit) => limit.wf(),
                TimeFilter::After(limit) => limit.wf(),
            }),
        ensures
            r == (match *self {
                TimeFilter::Before(limit) => t.total_nanos() < limit.total_nanos(),
                TimeFilter::After(limit) => t.total_nanos() > limit.total_nanos(),
            }),
    {
        match self {
            TimeFilter::Before(limit) => {
                t.secs < limit.secs || (t.secs == limit.secs && t.nanos < limit.nanos)
            },
            TimeFilter::After(limit) => {
                t.secs > limit.secs || (t.secs == limit.secs && t.nanos > limit.nanos)
            },
        }
    }
}

/// Value of an optional sign and decimal digits, as `str::parse` for a
/// 64-bit signed number reads them: nothing on an empty digit run, a
/// stray byte, or a value out of range.
pub open spec fn parse_i64_spec(s: Seq<u8>) -> Option<i64> {
    let has_sign = s.len() > 0 && (s[0] == 43 || s[0] == 45);
    let i0: int = if has_sign {
        1
    } else {
        0
    };
    if crate::filter::size::digits_end(s, i0) != s.len() || s.len() == i0 {
        None
    } else {
        let q = crate::filter::size::dec_int(s, i0, s.len() as int);
        let v = if s.len() > 0 && s[0] == 45 {
            -q
        } else {
            q
        };
        if v < i64::MIN || i64::MAX < v {
            None
        } else {
            Some(v as i64)
        }
    }
}

/// Parses an optionally signed decimal 64-bit number.
fn parse_i64_dec(s: &Vec<u8>) -> (r: Option<i64>)
    ensures
        r == parse_i64_spec(s@),
{
    let len = s.len();
    let has_sign = len > 0 && (s[0] == 43 || s[0] == 45);
    let negative = len > 0 && s[0] == 45;
    let i0: usize = if has_sign {
        1
    } else {
        0
    };
    proof {
        crate::filter::size::lemma_digits_end_bounds(s@, i0 as int);
    }
    let mut j: usize = i0;
    while j < len && 48 <= s[j] && s[j] <= 57
        invariant
            i0 <= j <= len == s@.len(),
            crate::filter::size::digits_end(s@, i0 as int) == crate::filter::size::digits_end(
                s@,
                j as int,
            ),
        decreases len - j,
    {
        j = j + 1;
    }
    if j != len || len == i0 {
        return None;
    }
    let ghost jj = j as int;
    let mut acc: i64 = 0;
    let mut k: usize = i0;
    while k < j
        invariant
            i0 <= k <= j <= s@.len(),
            jj == j as int,
            jj == crate::filter::size::digits_end(s@, i0 as int),
            jj == s@.len(),
            has_sign == (s@.len() > 0 && (s@[0] == 43 || s@[0] == 45)),
            negative == (s@.len() > 0 && s@[0] == 45),
            i0 == (if has_sign {
                1usize
            } else {
                0usize
            }),
            forall|m: int| i0 <= m < jj ==> crate::filter::size::is_digit_b(s@[m]),
            (if negative {
                acc as int == -crate::filter::size::dec_int(s@, i0 as int, k as int)
            } else {
                acc as int == crate::filter::size::dec_int(s@, i0 as int, k as int)
            }),
        decreases j - k,
    {
        let d = s[k] - 48;
        let step = if negative {
            match acc.checked_mul(10) {
                Some(x) => x.checked_sub(d as i64),
                None => None,
            }
        } else {
            match acc.checked_mul(10) {
                Some(x) => x.checked_add(d as i64),
                None => None,
            }
        };
        match step {
            Some(x) => {
                acc = x;
            },
            None => {
                proof {
                    crate::filter::size::lemma_dec_int_nonneg(s@, i0 as int, k as int);
                    lemma_dec_out_of_range(s@, i0 as int, k as int, jj, acc as int, negative);
                }
                return None;
            },
        }
        k = k + 1;
    }
    Some(acc)
}

/// When one more digit pushes the running value past the 64-bit range,
/// the full digit run is past it too.
proof fn lemma_dec_out_of_range(s: Seq<u8>, i0: int, k: int, j: int, acc: int, negative: bool)
    requires
        i0 <= k < j,
        forall|m: int| i0 <= m < j ==> crate::filter::size::is_digit_b(s[m]),
        (if negative {
            acc == -crate::filter::size::dec_int(s, i0, k)
        } else {
            acc == crate::filter::size::dec_int(s, i0, k)
        }),
        (if negative {
            acc * 10 - (s[k] - 48) < i64::MIN
        } else {
            acc * 10 + (s[k] - 48) > i64::MAX
        }),
    ensures
        (if negative {
            -crate::filter::size::dec_int(s, i0, j) < i64::MIN
        } else {
            crate::filter::size::dec_int(s, i0, j) > i64::MAX
        }),
{
    crate::filter::size::lemma_dec_int_mono(s, i0, k + 1, j);
}

} // verus!
