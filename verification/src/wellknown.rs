//! The well-known scalar value types of the wire format: timestamps,
//! durations and field masks, with their canonical text forms.
//!
//! A timestamp's text form is RFC 3339 calendar text, which only the `wkt`
//! crate computes; both directions are trusted wrappers around it. A
//! duration's canonical text is fully specified here ([`duration_text`]);
//! rendering goes through `wkt` with that exact contract, while parsing is
//! this crate's own verified code, strict per the wire contract.

use crate::scalar::{all_digits, dec_rep, digit_val, digits_val, is_digit};
use vstd::prelude::*;

verus! {

/// Ten to the `k`.
pub open spec fn pow10(k: nat) -> nat
    decreases k,
{
    if k == 0 {
        1
    } else {
        10 * pow10((k - 1) as nat)
    }
}

/// `k` zero digits.
pub open spec fn zeros(k: int) -> Seq<char>
    decreases k,
{
    if k <= 0 {
        Seq::empty()
    } else {
        zeros(k - 1).push('0')
    }
}

/// `s` without its trailing zero digits.
pub open spec fn trim_zeros(s: Seq<char>) -> Seq<char>
    decreases s.len(),
{
    if s.len() > 0 && s.last() == '0' {
        trim_zeros(s.drop_last())
    } else {
        s
    }
}

/// The index of the first occurrence of `c` in `s`, or -1.
pub open spec fn find_char(s: Seq<char>, c: char) -> int
    decreases s.len(),
{
    if s.len() == 0 {
        -1
    } else if s[0] == c {
        0
    } else {
        let r = find_char(s.skip(1), c);
        if r < 0 {
            -1
        } else {
            1 + r
        }
    }
}

proof fn lemma_zeros_len(k: int)
    ensures
        zeros(k).len() == if k <= 0 {
            0
        } else {
            k
        },
        all_digits(zeros(k)),
    decreases k,
{
    if k > 0 {
        lemma_zeros_len(k - 1);
        assert(is_digit('0'));
    }
}

proof fn lemma_digits_val_zeros(k: int)
    ensures
        digits_val(zeros(k)) == 0,
    decreases k,
{
    if k <= 0 {
    } else {
        lemma_digits_val_zeros(k - 1);
        assert(zeros(k).drop_last() =~= zeros(k - 1));
        assert(digit_val('0') == 0);
    }
}

/// Leading zeros do not change the value of a digit string.
proof fn lemma_digits_val_leading_zeros(k: int, s: Seq<char>)
    ensures
        digits_val(zeros(k) + s) == digits_val(s),
    decreases s.len(),
{
    if s.len() == 0 {
        assert(zeros(k) + s =~= zeros(k));
        lemma_digits_val_zeros(k);
    } else {
        lemma_digits_val_leading_zeros(k, s.drop_last());
        assert((zeros(k) + s).drop_last() =~= zeros(k) + s.drop_last());
        assert((zeros(k) + s).last() == s.last());
    }
}

/// Trimming trailing zeros divides the value by the matching power of ten.
proof fn lemma_trim_zeros(s: Seq<char>)
    requires
        all_digits(s),
    ensures
        trim_zeros(s).len() <= s.len(),
        all_digits(trim_zeros(s)),
        digits_val(trim_zeros(s)) * pow10((s.len() - trim_zeros(s).len()) as nat) == digits_val(s),
        trim_zeros(s).len() > 0 ==> trim_zeros(s).last() != '0',
        forall|i: int| 0 <= i < trim_zeros(s).len() ==> trim_zeros(s)[i] == s[i],
    decreases s.len(),
{
    if s.len() > 0 && s.last() == '0' {
        assert(all_digits(s.drop_last()));
        lemma_trim_zeros(s.drop_last());
        let t = trim_zeros(s.drop_last());
        let k = (s.len() - 1 - t.len()) as nat;
        assert(digit_val('0') == 0);
        assert(digits_val(s) == digits_val(s.drop_last()) * 10);
        assert(digits_val(t) * pow10(k) == digits_val(s.drop_last()));
        assert(pow10(k + 1) == 10 * pow10(k));
        assert(digits_val(t) * pow10(k + 1) == digits_val(t) * pow10(k) * 10) by (nonlinear_arith)
            requires
                pow10(k + 1) == 10 * pow10(k),
        ;
        assert((s.len() - trim_zeros(s).len()) as nat == k + 1);
        assert(digits_val(trim_zeros(s)) * pow10(k + 1) == digits_val(s));
        assert forall|i: int| 0 <= i < trim_zeros(s).len() implies trim_zeros(s)[i] == s[i] by {
            assert(trim_zeros(s)[i] == s.drop_last()[i]);
        }
    } else {
        assert(trim_zeros(s) == s);
        assert(pow10(0) == 1);
        assert(digits_val(s) * pow10(0) == digits_val(s)) by (nonlinear_arith)
            requires
                pow10(0) == 1,
        ;
    }
}

proof fn lemma_find_char_none(s: Seq<char>, c: char)
    requires
        forall|i: int| 0 <= i < s.len() ==> s[i] != c,
    ensures
        find_char(s, c) == -1,
    decreases s.len(),
{
    if s.len() > 0 {
        lemma_find_char_none(s.skip(1), c);
    }
}

proof fn lemma_find_char_at(s: Seq<char>, c: char, i: int)
    requires
        0 <= i < s.len(),
        s[i] == c,
        forall|j: int| 0 <= j < i ==> s[j] != c,
    ensures
        find_char(s, c) == i,
    decreases i,
{
    if i == 0 {
    } else {
        lemma_find_char_at(s.skip(1), c, i - 1);
    }
}

} // verus!

verus! {

/// The absolute value of a 64-bit integer, as a natural number.
pub open spec fn abs64(v: i64) -> nat {
    if v < 0 {
        (-(v as int)) as nat
    } else {
        v as nat
    }
}

/// The absolute value of a 32-bit integer, as a natural number.
pub open spec fn abs32(v: i32) -> nat {
    if v < 0 {
        (-(v as int)) as nat
    } else {
        v as nat
    }
}

/// Whether the pair is a representable timestamp: within the years 1 to
/// 9999, with non-negative nanoseconds below one second.
pub open spec fn valid_timestamp(seconds: i64, nanos: i32) -> bool {
    -62135596800 <= seconds <= 253402300799 && 0 <= nanos <= 999_999_999
}

/// A point in UTC time: seconds since the Unix epoch plus non-negative
/// nanoseconds, restricted to the range that has an RFC 3339 text form.
#[derive(Clone, Copy, Debug, PartialEq, Eq, Structural)]
pub struct Timestamp {
    /// Seconds of UTC time since the Unix epoch.
    pub seconds: i64,
    /// Non-negative fractions of a second at nanosecond resolution.
    pub nanos: i32,
}

impl Timestamp {
    /// Whether the components are in range.
    pub open spec fn wf(self) -> bool {
        valid_timestamp(self.seconds, self.nanos)
    }

    /// Creates a timestamp; `None` when a component is out of range.
    pub fn new(seconds: i64, nanos: i32) -> (r: Option<Timestamp>)
        ensures
            valid_timestamp(seconds, nanos) ==> r == Some(Timestamp { seconds, nanos }),
            !valid_timestamp(seconds, nanos) ==> r is None,
    {
        if -62135596800i64 <= seconds && seconds <= 253402300799i64 && 0 <= nanos && nanos
            <= 999_999_999 {
            Some(Timestamp { seconds, nanos })
        } else {
            None
        }
    }
}

/// The RFC 3339 text that the `wkt` crate renders an in-range timestamp as.
/// Calendar arithmetic is left to that crate, so the text is named, not
/// spelled out; what the codec relies on is stated where the name is used.
pub uninterp spec fn timestamp_text(seconds: i64, nanos: i32) -> Seq<char>;

/// The timestamp that the `wkt` crate parses a string as, or `None` when the
/// string is not in-range RFC 3339 text.
pub uninterp spec fn timestamp_of_text(s: Seq<char>) -> Option<(i64, i32)>;

/// Relies on google_cloud_wkt::Timestamp: `String::from` renders an in-range
/// timestamp as RFC 3339 UTC text, which always ends in 'Z', and its
/// `TryFrom<&str>` parses that text back to the same pair.
#[verifier::external_body]
pub(crate) fn timestamp_render(seconds: i64, nanos: i32) -> (r: String)
    requires
        valid_timestamp(seconds, nanos),
    ensures
        r@ == timestamp_text(seconds, nanos),
        timestamp_of_text(r@) == Some((seconds, nanos)),
        r@.len() > 0,
        r@.last() == 'Z',
{
    match google_cloud_wkt::Timestamp::new(seconds, nanos) {
        Ok(ts) => String::from(ts),
        Err(_) => String::new(),  // not reached: the range above is the range `new` checks
    }
}

/// Relies on google_cloud_wkt::Timestamp: `TryFrom<&str>` accepts exactly
/// RFC 3339 text denoting an in-range timestamp. Such text ends in 'Z',
/// 'z', or an offset digit, never in 's', which is what distinguishes a
/// timestamp from a duration in an untagged union.
#[verifier::external_body]
pub(crate) fn timestamp_parse_text(s: &str) -> (r: Option<(i64, i32)>)
    ensures
        r == timestamp_of_text(s@),
        match r {
            Some(p) => valid_timestamp(p.0, p.1) && s@.len() > 0 && s@.last() != 's',
            None => true,
        },
{
    match google_cloud_wkt::Timestamp::try_from(s) {
        Ok(t) => Some((t.seconds(), t.nanos())),
        Err(_) => None,
    }
}

/// Whether the pair is a representable duration: at most ten thousand years
/// in magnitude either way, nanoseconds below one second, and, when both
/// components are nonzero, agreeing in sign.
pub open spec fn valid_duration(seconds: i64, nanos: i32) -> bool {
    &&& -315_576_000_000 <= seconds <= 315_576_000_000
    &&& -999_999_999 <= nanos <= 999_999_999
    &&& (seconds != 0 && nanos != 0 ==> ((seconds < 0) <==> (nanos < 0)))
}

/// A signed span of time: seconds plus nanoseconds, the two agreeing in
/// sign.
#[derive(Clone, Copy, Debug, PartialEq, Eq, Structural)]
pub struct Duration {
    /// Signed seconds of the span.
    pub seconds: i64,
    /// Signed fractions of a second at nanosecond resolution, counting the
    /// same way as `seconds`.
    pub nanos: i32,
}

impl Duration {
    /// Whether the components are in range and agree in sign.
    pub open spec fn wf(self) -> bool {
        valid_duration(self.seconds, self.nanos)
    }

    /// Creates a duration; `None` when a component is out of range or the
    /// signs disagree.
    pub fn new(seconds: i64, nanos: i32) -> (r: Option<Duration>)
        ensures
            valid_duration(seconds, nanos) ==> r == Some(Duration { seconds, nanos }),
            !valid_duration(seconds, nanos) ==> r is None,
    {
        if -315_576_000_000i64 <= seconds && seconds <= 315_576_000_000i64 && -999_999_999 <= nanos
            && nanos <= 999_999_999 && !(seconds != 0 && nanos != 0 && ((seconds < 0) != (nanos
            < 0))) {
            Some(Duration { seconds, nanos })
        } else {
            None
        }
    }
}

/// The canonical text of a duration: an optional minus sign, the decimal
/// seconds magnitude, an optional fraction with trailing zeros trimmed, and
/// the suffix 's'.
pub open spec fn duration_text(seconds: i64, nanos: i32) -> Seq<char> {
    let sign: Seq<char> = if seconds < 0 || nanos < 0 {
        seq!['-']
    } else {
        Seq::empty()
    };
    let secs = dec_rep(abs64(seconds));
    if nanos == 0 {
        sign + secs + seq!['s']
    } else {
        let digits = dec_rep(abs32(nanos));
        let frac = trim_zeros(zeros(9 - digits.len()) + digits);
        sign + secs + seq!['.'] + frac + seq!['s']
    }
}

/// The duration denoted by a text token: exactly the forms
/// `-?[0-9]+(\.[0-9]{1,9})?s` with the seconds magnitude in range, and the
/// sign applying to both components. Anything else is `None`.
pub open spec fn duration_of_text(s: Seq<char>) -> Option<(i64, i32)> {
    if s.len() == 0 || s.last() != 's' {
        None
    } else {
        let body = s.drop_last();
        let neg = body.len() > 0 && body[0] == '-';
        let mag = if neg {
            body.skip(1)
        } else {
            body
        };
        let dot = find_char(mag, '.');
        if dot < 0 {
            if mag.len() > 0 && all_digits(mag) && digits_val(mag) <= 315_576_000_000 {
                if neg {
                    Some(((-digits_val(mag)) as i64, 0))
                } else {
                    Some((digits_val(mag) as i64, 0))
                }
            } else {
                None
            }
        } else {
            let secs = mag.take(dot);
            let frac = mag.skip(dot + 1);
            if secs.len() > 0 && all_digits(secs) && digits_val(secs) <= 315_576_000_000 && 1
                <= frac.len() <= 9 && all_digits(frac) {
                let nval = digits_val(frac) * pow10((9 - frac.len()) as nat);
                if neg {
                    Some(((-digits_val(secs)) as i64, (-nval) as i32))
                } else {
                    Some((digits_val(secs) as i64, nval as i32))
                }
            } else {
                None
            }
        }
    }
}

} // verus!

verus! {

/// A number below `pow10(k)` has at most `k` decimal digits.
proof fn lemma_dec_rep_len_le(n: nat, k: nat)
    requires
        1 <= k,
        n < pow10(k),
    ensures
        dec_rep(n).len() <= k,
    decreases n,
{
    if n < 10 {
    } else {
        assert(pow10(k) == 10 * pow10((k - 1) as nat));
        assert(k >= 2) by {
            if k == 1 {
                assert(pow10(1nat) == 10);
            }
        }
        assert(n / 10 < pow10((k - 1) as nat)) by (nonlinear_arith)
            requires
                n < pow10(k),
                pow10(k) == 10 * pow10((k - 1) as nat),
        ;
        lemma_dec_rep_len_le(n / 10, (k - 1) as nat);
    }
}

/// A digit string of length `k` denotes a value below `pow10(k)`.
proof fn lemma_digits_val_upper(s: Seq<char>)
    requires
        all_digits(s),
    ensures
        0 <= digits_val(s) < pow10(s.len()),
    decreases s.len(),
{
    if s.len() == 0 {
        assert(pow10(0) == 1);
    } else {
        assert(all_digits(s.drop_last()));
        lemma_digits_val_upper(s.drop_last());
        let l = (s.len() - 1) as nat;
        assert(pow10(s.len()) == 10 * pow10(l));
        assert(digit_val(s.last()) <= 9);
        assert(digits_val(s.drop_last()) * 10 + 9 < 10 * pow10(l)) by (nonlinear_arith)
            requires
                digits_val(s.drop_last()) < pow10(l),
        ;
    }
}

/// Law: the canonical duration text decodes to the duration it encodes:
/// `duration_of_text(duration_text(seconds, nanos)) == Some((seconds,
/// nanos))` for every representable duration.
pub proof fn lemma_duration_text_round_trip(seconds: i64, nanos: i32)
    requires
        valid_duration(seconds, nanos),
    ensures
        duration_of_text(duration_text(seconds, nanos)) == Some((seconds, nanos)),
{
    let neg = seconds < 0 || nanos < 0;
    let sign: Seq<char> = if neg {
        seq!['-']
    } else {
        Seq::empty()
    };
    let smag = abs64(seconds);
    crate::scalar::lemma_dec_rep_digits(smag);
    crate::scalar::lemma_dec_rep_first_digit(smag);
    crate::scalar::lemma_digits_val_dec_rep(smag);
    let secs = dec_rep(smag);
    assert(forall|i: int| 0 <= i < secs.len() ==> secs[i] != '.' && secs[i] != '-');
    if nanos == 0 {
        let t = sign + secs + seq!['s'];
        assert(duration_text(seconds, nanos) == t);
        assert(t.last() == 's');
        assert(t.len() > 0);
        let body = t.drop_last();
        assert(body =~= sign + secs);
        if neg {
            assert(body[0] == '-');
            assert(body.skip(1) =~= secs);
            lemma_find_char_none(secs, '.');
            assert(duration_of_text(t) == Some(((-digits_val(secs)) as i64, 0i32)));
            assert(-digits_val(secs) == seconds);
        } else {
            assert(body =~= secs);
            assert(body[0] != '-');
            lemma_find_char_none(secs, '.');
            assert(duration_of_text(t) == Some((digits_val(secs) as i64, 0i32)));
        }
    } else {
        let nmag = abs32(nanos);
        assert(1 <= nmag <= 999_999_999);
        crate::scalar::lemma_dec_rep_digits(nmag);
        crate::scalar::lemma_digits_val_dec_rep(nmag);
        let digits = dec_rep(nmag);
        assert(nmag < pow10(9)) by {
            reveal_with_fuel(pow10, 10);
        }
        lemma_dec_rep_len_le(nmag, 9);
        lemma_zeros_len(9 - digits.len());
        let frac9 = zeros(9 - digits.len()) + digits;
        assert(frac9.len() == 9);
        assert(all_digits(frac9)) by {
            assert forall|i: int| 0 <= i < frac9.len() implies is_digit(frac9[i]) by {
                if i < zeros(9 - digits.len()).len() {
                    assert(frac9[i] == zeros(9 - digits.len())[i]);
                } else {
                    assert(frac9[i] == digits[i - zeros(9 - digits.len()).len()]);
                }
            }
        }
        lemma_digits_val_leading_zeros(9 - digits.len(), digits);
        assert(digits_val(frac9) == nmag);
        lemma_trim_zeros(frac9);
        let frac = trim_zeros(frac9);
        if frac.len() == 0 {
            assert(digits_val(frac) == 0);
            assert(pow10(0) == 1);
            assert(0 * pow10((frac9.len() - 0) as nat) == 0) by (nonlinear_arith);
            assert(false);
        }
        assert(1 <= frac.len() <= 9);
        assert(digits_val(frac) * pow10((9 - frac.len()) as nat) == nmag);
        let t = sign + secs + seq!['.'] + frac + seq!['s'];
        assert(duration_text(seconds, nanos) == t);
        assert(t.last() == 's');
        let body = t.drop_last();
        assert(body =~= sign + secs + seq!['.'] + frac);
        let mag = if neg {
            body.skip(1)
        } else {
            body
        };
        assert(mag =~= secs + seq!['.'] + frac);
        if neg {
            assert(body[0] == '-');
        } else {
            assert(body[0] == secs[0]);
            assert(body[0] != '-');
        }
        let dot = secs.len() as int;
        assert(mag[dot] == '.');
        assert(forall|j: int| 0 <= j < dot ==> mag[j] == secs[j]);
        lemma_find_char_at(mag, '.', dot);
        assert(mag.take(dot) =~= secs);
        assert(mag.skip(dot + 1) =~= frac);
        let nval = digits_val(frac) * pow10((9 - frac.len()) as nat);
        assert(nval == nmag);
        if neg {
            assert(nanos <= 0 || seconds <= 0);
            assert(nanos != 0);
            assert(nanos < 0 || (seconds < 0 && nanos > 0));
            assert(nanos < 0) by {
                if seconds < 0 && nanos > 0 {
                    assert(!valid_duration(seconds, nanos));
                }
            }
            assert((-digits_val(secs)) as i64 == seconds);
            assert((-nval) as i32 == nanos);
            assert(duration_of_text(t) == Some((seconds, nanos)));
        } else {
            assert(seconds >= 0 && nanos > 0);
            assert(digits_val(secs) as i64 == seconds);
            assert(nval as i32 == nanos);
            assert(duration_of_text(t) == Some((seconds, nanos)));
        }
    }
}

} // verus!

verus! {

/// Relies on google_cloud_wkt::Duration: `String::from` renders a duration
/// as its canonical text, which is exactly [`duration_text`]: the sign, the
/// decimal seconds magnitude, the 9-digit zero-padded nanosecond magnitude
/// with trailing zeros trimmed when it is nonzero, and the suffix 's'. Such
/// text always ends in 's', so google_cloud_wkt::Timestamp's RFC 3339
/// parser, which accepts only text ending in 'Z', 'z', or an offset digit,
/// never accepts it; that is what keeps an untagged union of the two
/// unambiguous.
#[verifier::external_body]
pub(crate) fn duration_render(seconds: i64, nanos: i32) -> (r: String)
    requires
        valid_duration(seconds, nanos),
    ensures
        r@ == duration_text(seconds, nanos),
        timestamp_of_text(r@) is None,
{
    match google_cloud_wkt::Duration::new(seconds, nanos) {
        Ok(d) => String::from(d),
        Err(_) => String::new(),  // not reached: the range above is the range `new` checks
    }
}

/// Exponentiation by table, for the fraction scale.
fn pow10_exec(k: usize) -> (r: u64)
    requires
        k <= 9,
    ensures
        r == pow10(k as nat),
{
    proof {
        reveal_with_fuel(pow10, 10);
    }
    if k == 0 {
        1
    } else if k == 1 {
        10
    } else if k == 2 {
        100
    } else if k == 3 {
        1_000
    } else if k == 4 {
        10_000
    } else if k == 5 {
        100_000
    } else if k == 6 {
        1_000_000
    } else if k == 7 {
        10_000_000
    } else if k == 8 {
        100_000_000
    } else {
        1_000_000_000
    }
}

/// Reads the character range `[from, to)` of `s` as a decimal digit run:
/// `Some` exactly when the range is nonempty, all digits, and denotes at
/// most `limit`.
fn parse_digit_run(s: &str, from: usize, to: usize, limit: u64) -> (r: Option<u64>)
    requires
        from <= to <= s@.len(),
        9 <= limit,
    ensures
        match r {
            Some(v) => {
                let sub = s@.subrange(from as int, to as int);
                &&& to - from >= 1
                &&& all_digits(sub)
                &&& digits_val(sub) == v
                &&& v <= limit
            },
            None => {
                let sub = s@.subrange(from as int, to as int);
                !(to - from >= 1 && all_digits(sub) && digits_val(sub) <= limit)
            },
        },
{
    let ghost sub = s@.subrange(from as int, to as int);
    if from == to {
        return None;
    }
    let mut acc: u64 = 0;
    let mut i: usize = from;
    proof {
        assert(sub.take(0) =~= Seq::<char>::empty());
    }
    while i < to
        invariant
            from <= i <= to,
            to <= s@.len(),
            9 <= limit,
            sub == s@.subrange(from as int, to as int),
            sub.len() == to - from,
            forall|j: int| 0 <= j < i - from ==> is_digit(sub[j]),
            forall|j: int| 0 <= j < sub.len() ==> sub[j] == s@[j + from],
            acc == digits_val(sub.take(i - from)),
            acc <= limit,
        decreases to - i,
    {
        let c = s.get_char(i);
        let u = c as u32;
        proof {
            assert(sub[i - from] == s@[i as int]);
        }
        if u < 48 || u > 57 {
            proof {
                assert(!is_digit(sub[i - from]));
            }
            return None;
        }
        let d: u64 = (u - 48) as u64;
        proof {
            assert(is_digit(c));
            assert(d == digit_val(c));
        }
        if acc > (limit - d) / 10 {
            proof {
                assert(sub.take(i - from + 1).drop_last() =~= sub.take(i - from));
                assert(sub.take(i - from + 1).last() == sub[i - from]);
                assert(digits_val(sub.take(i - from + 1)) == acc * 10 + d);
                assert(acc * 10 + d > limit) by (nonlinear_arith)
                    requires
                        acc > (limit - d) / 10,
                        d <= 9,
                        limit >= 9,
                ;
                if all_digits(sub) {
                    crate::scalar::lemma_digits_val_prefix_le(sub, i - from + 1);
                    assert(digits_val(sub) > limit);
                }
            }
            return None;
        }
        proof {
            assert(acc * 10 + d <= limit) by (nonlinear_arith)
                requires
                    acc <= (limit - d) / 10,
                    d <= 9,
                    d <= limit,
            ;
            assert(sub.take(i - from + 1).drop_last() =~= sub.take(i - from));
            assert(sub.take(i - from + 1).last() == sub[i - from]);
        }
        acc = acc * 10 + d;
        i += 1;
    }
    proof {
        assert(sub.take(to - from) =~= sub);
    }
    Some(acc)
}

/// Decodes canonical duration text, strictly per [`duration_of_text`]: an
/// optional minus sign, decimal seconds, an optional fraction of one to nine
/// digits, and the suffix 's'; the seconds magnitude must be in range.
pub fn duration_from_text(s: &str) -> (r: Option<(i64, i32)>)
    ensures
        r == duration_of_text(s@),
        match r {
            Some(p) => valid_duration(p.0, p.1),
            None => true,
        },
{
    let n = s.unicode_len();
    if n == 0 {
        return None;
    }
    if s.get_char(n - 1) != 's' {
        return None;
    }
    let m = n - 1;
    let ghost body = s@.drop_last();
    proof {
        assert(body.len() == m);
        assert(forall|i: int| 0 <= i < m ==> body[i] == s@[i]);
    }
    let neg = if m > 0 {
        s.get_char(0) == '-'
    } else {
        false
    };
    let start: usize = if neg {
        1
    } else {
        0
    };
    let ghost mag = if neg {
        body.skip(1)
    } else {
        body
    };
    proof {
        assert(mag.len() == m - start);
        assert(forall|k: int| 0 <= k < mag.len() ==> mag[k] == s@[k + start]);
    }
    // find the first '.' in the magnitude, if any
    let mut dot: usize = m;
    let mut j: usize = start;
    while j < m
        invariant
            start <= j <= m,
            m < s@.len(),
            dot == m || (start <= dot && dot < j && s@[dot as int] == '.' && forall|k: int|
                start <= k < dot ==> s@[k] != '.'),
            dot == m ==> forall|k: int| start <= k < j ==> s@[k] != '.',
        decreases m - j,
    {
        if dot == m && s.get_char(j) == '.' {
            dot = j;
        }
        j += 1;
    }
    proof {
        if dot == m {
            lemma_find_char_none(mag, '.');
        } else {
            assert(mag[dot - start] == '.');
            lemma_find_char_at(mag, '.', dot - start);
        }
    }
    if dot == m {
        // no fraction
        match parse_digit_run(s, start, m, 315_576_000_000u64) {
            Some(sv) => {
                proof {
                    assert(mag =~= s@.subrange(start as int, m as int));
                }
                let sec: i64 = if neg {
                    -(sv as i64)
                } else {
                    sv as i64
                };
                proof {
                    if neg {
                        assert(sec == (-digits_val(mag)) as i64);
                    }
                }
                Some((sec, 0))
            },
            None => {
                proof {
                    assert(mag =~= s@.subrange(start as int, m as int));
                }
                None
            },
        }
    } else {
        let k = m - dot - 1;
        let ghost secs_g = mag.take(dot - start);
        let ghost frac_g = mag.skip(dot - start + 1);
        proof {
            assert(secs_g =~= s@.subrange(start as int, dot as int));
            assert(frac_g =~= s@.subrange(dot as int + 1, m as int));
            assert(frac_g.len() == k);
        }
        if k < 1 || k > 9 {
            return None;
        }
        let sv = match parse_digit_run(s, start, dot, 315_576_000_000u64) {
            Some(sv) => sv,
            None => {
                return None;
            },
        };
        let fv = match parse_digit_run(s, dot + 1, m, 999_999_999u64) {
            Some(fv) => fv,
            None => {
                proof {
                    if all_digits(frac_g) && frac_g.len() >= 1 {
                        lemma_digits_val_upper(frac_g);
                        assert(frac_g.len() <= 9);
                        assert(pow10(frac_g.len()) <= pow10(9)) by {
                            reveal_with_fuel(pow10, 10);
                            lemma_pow10_mono(frac_g.len(), 9);
                        }
                        assert(pow10(9) == 1_000_000_000) by {
                            reveal_with_fuel(pow10, 10);
                        }
                        assert(digits_val(frac_g) <= 999_999_999);
                        assert(false);
                    }
                }
                return None;
            },
        };
        let scale = pow10_exec(9 - k);
        proof {
            lemma_digits_val_upper(frac_g);
            assert(fv < pow10(k as nat));
            assert(pow10(9) == 1_000_000_000) by {
                reveal_with_fuel(pow10, 10);
            }
            assert(pow10(k as nat) * pow10((9 - k) as nat) == pow10(9)) by {
                lemma_pow10_add(k as nat, (9 - k) as nat);
            }
            assert(fv * scale < 1_000_000_000) by (nonlinear_arith)
                requires
                    fv < pow10(k as nat),
                    scale == pow10((9 - k) as nat),
                    pow10(k as nat) * pow10((9 - k) as nat) == 1_000_000_000,
                    scale >= 0,
            ;
        }
        let nv = fv * scale;
        let sec: i64 = if neg {
            -(sv as i64)
        } else {
            sv as i64
        };
        let nan: i32 = if neg {
            -(nv as i32)
        } else {
            nv as i32
        };
        proof {
            if neg {
                assert(sec == (-digits_val(secs_g)) as i64);
                assert(nan == (-(digits_val(frac_g) * pow10((9 - frac_g.len()) as nat))) as i32);
            } else {
                assert(sec == digits_val(secs_g) as i64);
                assert(nan == (digits_val(frac_g) * pow10((9 - frac_g.len()) as nat)) as i32);
            }
            assert(valid_duration(sec, nan));
        }
        Some((sec, nan))
    }
}

/// `pow10` is monotone in its exponent.
proof fn lemma_pow10_mono(a: nat, b: nat)
    requires
        a <= b,
    ensures
        pow10(a) <= pow10(b),
    decreases b,
{
    if a < b {
        lemma_pow10_mono(a, (b - 1) as nat);
        assert(pow10(b) == 10 * pow10((b - 1) as nat));
    }
}

/// `pow10` turns addition into multiplication.
proof fn lemma_pow10_add(a: nat, b: nat)
    ensures
        pow10(a) * pow10(b) == pow10(a + b),
    decreases a,
{
    if a == 0 {
        assert(pow10(0) == 1);
    } else {
        lemma_pow10_add((a - 1) as nat, b);
        assert(pow10(a) == 10 * pow10((a - 1) as nat));
        assert(pow10(a + b) == 10 * pow10((a + b - 1) as nat));
        assert((10 * pow10((a - 1) as nat)) * pow10(b) == 10 * (pow10((a - 1) as nat) * pow10(b)))
            by (nonlinear_arith);
    }
}

} // verus!

verus! {

/// The ASCII upper-case counterpart of a letter; other characters unchanged.
pub open spec fn upper_of(c: char) -> char {
    if 'a' <= c && c <= 'z' {
        ((c as u8) - 32) as char
    } else {
        c
    }
}

/// The ASCII lower-case counterpart of a letter; other characters unchanged.
pub open spec fn lower_of(c: char) -> char {
    if 'A' <= c && c <= 'Z' {
        ((c as u8) + 32) as char
    } else {
        c
    }
}

/// Lower-camel conversion of a snake-case path: underscores are dropped and
/// the following character is upper-cased. `cap` carries a pending
/// capitalization across the recursion.
pub open spec fn camel_rec(s: Seq<char>, cap: bool) -> Seq<char>
    decreases s.len(),
{
    if s.len() == 0 {
        Seq::empty()
    } else if s[0] == '_' {
        camel_rec(s.skip(1), true)
    } else if cap {
        seq![upper_of(s[0])] + camel_rec(s.skip(1), false)
    } else {
        seq![s[0]] + camel_rec(s.skip(1), false)
    }
}

/// Lower-camel conversion of a snake-case path.
pub open spec fn camel_of(s: Seq<char>) -> Seq<char> {
    camel_rec(s, false)
}

/// Snake-case conversion of a lower-camel path: each ASCII capital becomes
/// an underscore and its lower-case counterpart.
pub open spec fn snake_of(s: Seq<char>) -> Seq<char>
    decreases s.len(),
{
    if s.len() == 0 {
        Seq::empty()
    } else if 'A' <= s[0] && s[0] <= 'Z' {
        seq!['_', lower_of(s[0])] + snake_of(s.skip(1))
    } else {
        seq![s[0]] + snake_of(s.skip(1))
    }
}

/// The characters a snake-case field path may hold.
pub open spec fn path_char(c: char) -> bool {
    ('a' <= c && c <= 'z') || ('0' <= c && c <= '9') || c == '.' || c == '_'
}

/// The positional shape of a snake-case path suffix: only path characters,
/// every underscore followed by a lower-case letter.
pub open spec fn wf_path_suffix(p: Seq<char>) -> bool {
    forall|i: int|
        0 <= i < p.len() ==> path_char(#[trigger] p[i]) && (p[i] == '_' ==> i + 1 < p.len() && 'a'
            <= p[i + 1] && p[i + 1] <= 'z')
}

/// A well-formed snake-case field path: nonempty and of the right shape.
/// Only such paths round-trip through the wire form.
pub open spec fn wf_path(p: Seq<char>) -> bool {
    p.len() > 0 && wf_path_suffix(p)
}

/// Camel conversion of a well-formed path suffix keeps every character
/// outside `',', '_'`, and keeps the text nonempty when the suffix is.
proof fn lemma_camel_chars(s: Seq<char>, cap: bool)
    requires
        wf_path_suffix(s),
    ensures
        forall|i: int|
            0 <= i < camel_rec(s, cap).len() ==> #[trigger] camel_rec(s, cap)[i] != ','
                && camel_rec(s, cap)[i] != '_',
        s.len() > 0 ==> camel_rec(s, cap).len() > 0,
    decreases s.len(),
{
    if s.len() == 0 {
    } else if s[0] == '_' {
        assert(wf_path_suffix(s.skip(1)));
        assert(s.skip(1)[0] == s[1]);
        lemma_camel_chars(s.skip(1), true);
    } else {
        assert(wf_path_suffix(s.skip(1)));
        lemma_camel_chars(s.skip(1), false);
        let head = if cap {
            upper_of(s[0])
        } else {
            s[0]
        };
        assert(path_char(s[0]));
        assert(head != ',' && head != '_');
        assert forall|i: int| 0 <= i < camel_rec(s, cap).len() implies #[trigger] camel_rec(
            s,
            cap,
        )[i] != ',' && camel_rec(s, cap)[i] != '_' by {
            if i > 0 {
                assert(camel_rec(s, cap)[i] == camel_rec(s.skip(1), false)[i - 1]);
            }
        }
    }
}

/// Law: snake conversion undoes camel conversion on every well-formed path
/// suffix.
proof fn lemma_snake_camel(p: Seq<char>)
    requires
        wf_path_suffix(p),
    ensures
        snake_of(camel_of(p)) == p,
    decreases p.len(),
{
    if p.len() == 0 {
        assert(snake_of(camel_of(p)) =~= p);
    } else if p[0] == '_' {
        assert(path_char(p[0]));
        assert(p.len() >= 2 && 'a' <= p[1] && p[1] <= 'z');
        let rest2 = p.skip(2);
        assert(wf_path_suffix(rest2));
        lemma_snake_camel(rest2);
        assert(p.skip(1).skip(1) =~= rest2);
        assert(camel_of(p) == camel_rec(p.skip(1), true));
        assert(p.skip(1)[0] == p[1]);
        assert(p.skip(1)[0] != '_');
        let up = upper_of(p[1]);
        assert(camel_rec(p.skip(1), true) == seq![up] + camel_rec(rest2, false));
        let c = camel_of(p);
        assert(c[0] == up);
        assert('A' <= up && up <= 'Z');
        assert(lower_of(up) == p[1]);
        assert(c.skip(1) =~= camel_rec(rest2, false));
        assert(snake_of(c) == seq!['_', lower_of(up)] + snake_of(camel_rec(rest2, false)));
        assert(snake_of(c) =~= p);
    } else {
        assert(path_char(p[0]));
        assert(wf_path_suffix(p.skip(1)));
        lemma_snake_camel(p.skip(1));
        let c = camel_of(p);
        assert(c == seq![p[0]] + camel_rec(p.skip(1), false));
        assert(c[0] == p[0]);
        assert(!('A' <= c[0] && c[0] <= 'Z'));
        assert(c.skip(1) =~= camel_rec(p.skip(1), false));
        assert(snake_of(c) == seq![p[0]] + snake_of(camel_rec(p.skip(1), false)));
        assert(snake_of(c) =~= p);
    }
}

/// The comma-joined concatenation of a list of path texts.
pub open spec fn join_paths(ps: Seq<Seq<char>>) -> Seq<char>
    decreases ps.len(),
{
    if ps.len() == 0 {
        Seq::empty()
    } else if ps.len() == 1 {
        ps[0]
    } else {
        ps[0] + seq![','] + join_paths(ps.skip(1))
    }
}

/// The pieces of `s` between its commas, in order; always at least one
/// piece.
pub open spec fn split_commas(s: Seq<char>) -> Seq<Seq<char>>
    decreases s.len(),
{
    if s.len() == 0 {
        seq![Seq::empty()]
    } else if s[0] == ',' {
        seq![Seq::<char>::empty()] + split_commas(s.skip(1))
    } else {
        let r = split_commas(s.skip(1));
        seq![seq![s[0]] + r[0]] + r.skip(1)
    }
}

/// Splitting a comma-free text gives that text as the only piece.
proof fn lemma_split_nocomma(s: Seq<char>)
    requires
        forall|i: int| 0 <= i < s.len() ==> s[i] != ',',
    ensures
        split_commas(s) == seq![s],
    decreases s.len(),
{
    if s.len() == 0 {
        assert(split_commas(s) =~~= seq![s]);
    } else {
        lemma_split_nocomma(s.skip(1));
        assert(seq![s[0]] + s.skip(1) =~= s);
        assert(split_commas(s) =~~= seq![s]);
    }
}

/// Splitting starts over after the first comma.
proof fn lemma_split_prefix(p: Seq<char>, s: Seq<char>)
    requires
        forall|i: int| 0 <= i < p.len() ==> p[i] != ',',
    ensures
        split_commas(p + seq![','] + s) == seq![p] + split_commas(s),
    decreases p.len(),
{
    let whole = p + seq![','] + s;
    if p.len() == 0 {
        assert(whole[0] == ',');
        assert(whole.skip(1) =~= s);
        assert(split_commas(whole) =~~= seq![p] + split_commas(s));
    } else {
        lemma_split_prefix(p.skip(1), s);
        assert(whole[0] == p[0]);
        assert(whole[0] != ',');
        assert(whole.skip(1) =~= p.skip(1) + seq![','] + s);
        let r = split_commas(whole.skip(1));
        assert(r == seq![p.skip(1)] + split_commas(s));
        assert(r[0] == p.skip(1));
        assert(seq![p[0]] + r[0] =~= p);
        assert(r.skip(1) =~= split_commas(s));
        assert(split_commas(whole) =~~= seq![p] + split_commas(s));
    }
}

/// The wire text of a list of snake-case paths: each path camel-cased, the
/// results joined with commas. An empty list gives the empty string.
pub open spec fn fieldmask_text(ps: Seq<Seq<char>>) -> Seq<char> {
    join_paths(ps.map(|i: int, p: Seq<char>| camel_of(p)))
}

/// The paths denoted by a wire text: the empty string denotes no paths;
/// otherwise the text is split at commas and each piece snake-cased.
pub open spec fn fieldmask_paths_of_text(s: Seq<char>) -> Seq<Seq<char>> {
    if s.len() == 0 {
        Seq::empty()
    } else {
        split_commas(s).map(|i: int, q: Seq<char>| snake_of(q))
    }
}

/// Law: the wire text of well-formed paths decodes to the same paths:
/// `fieldmask_paths_of_text(fieldmask_text(ps)) == ps`, for any number of
/// paths, including none.
pub proof fn lemma_fieldmask_round_trip(ps: Seq<Seq<char>>)
    requires
        forall|i: int| 0 <= i < ps.len() ==> wf_path(#[trigger] ps[i]),
    ensures
        fieldmask_paths_of_text(fieldmask_text(ps)) == ps,
    decreases ps.len(),
{
    let cs = ps.map(|i: int, p: Seq<char>| camel_of(p));
    if ps.len() == 0 {
        assert(cs.len() == 0);
        assert(fieldmask_text(ps) =~= Seq::<char>::empty());
        assert(fieldmask_paths_of_text(fieldmask_text(ps)) =~~= ps);
    } else if ps.len() == 1 {
        lemma_camel_chars(ps[0], false);
        lemma_snake_camel(ps[0]);
        assert(cs[0] == camel_of(ps[0]));
        assert(join_paths(cs) == cs[0]);
        assert(cs[0].len() > 0);
        lemma_split_nocomma(cs[0]);
        assert(split_commas(cs[0]) == seq![cs[0]]);
        assert(fieldmask_paths_of_text(cs[0]) =~~= ps);
    } else {
        lemma_camel_chars(ps[0], false);
        lemma_snake_camel(ps[0]);
        lemma_fieldmask_round_trip(ps.skip(1));
        let tailcs = ps.skip(1).map(|i: int, p: Seq<char>| camel_of(p));
        assert(tailcs =~~= cs.skip(1));
        assert(join_paths(cs) == cs[0] + seq![','] + join_paths(cs.skip(1)));
        lemma_split_prefix(cs[0], join_paths(cs.skip(1)));
        let t = fieldmask_text(ps);
        assert(t.len() > 0) by {
            assert(cs[0].len() > 0);
            assert(t[0] == cs[0][0]);
        }
        let tail_t = join_paths(cs.skip(1));
        assert(split_commas(t) == seq![cs[0]] + split_commas(tail_t));
        let pieces = split_commas(t);
        let mapped = pieces.map(|i: int, q: Seq<char>| snake_of(q));
        assert(mapped[0] == snake_of(cs[0]));
        assert(mapped[0] == ps[0]);
        if tail_t.len() == 0 {
            // every tail path is nonempty after camel conversion, so the
            // joined tail is nonempty
            assert(ps.skip(1).len() >= 1);
            assert(wf_path(ps.skip(1)[0]));
            lemma_camel_chars(ps.skip(1)[0], false);
            assert(cs.skip(1)[0] == camel_of(ps.skip(1)[0]));
            assert(join_paths(cs.skip(1)).len() > 0) by {
                if cs.skip(1).len() == 1 {
                } else {
                    assert(join_paths(cs.skip(1))[0] == cs.skip(1)[0][0]);
                }
            }
            assert(false);
        }
        assert(fieldmask_paths_of_text(tail_t) == split_commas(tail_t).map(
            |i: int, q: Seq<char>| snake_of(q),
        ));
        assert(fieldmask_paths_of_text(tail_t) == ps.skip(1));
        assert forall|i: int| 0 <= i < mapped.len() implies mapped[i] == ps[i] by {
            if i > 0 {
                assert(pieces[i] == split_commas(tail_t)[i - 1]);
                assert(mapped[i] == snake_of(split_commas(tail_t)[i - 1]));
                assert(ps.skip(1)[i - 1] == ps[i]);
            }
        }
        assert(mapped =~~= ps);
    }
}

} // verus!

verus! {

/// A set of symbolic field paths, each in snake case, selecting the fields
/// an update applies to.
#[derive(Clone, Debug, Default, PartialEq)]
pub struct FieldMask {
    /// The field mask paths.
    pub paths: Vec<String>,
}

impl FieldMask {
    /// Whether every path is well-formed snake case, so that the mask
    /// round-trips through its wire form.
    pub open spec fn wf(self) -> bool {
        forall|i: int| 0 <= i < self.paths.deep_view().len() ==> wf_path(#[trigger] self.paths.deep_view()[i])
    }
}

/// Relies on google_cloud_wkt::FieldMask, serialized through serde_json: the
/// wire form is each path camel-cased, the results joined with commas, as
/// [`fieldmask_text`] spells out.
#[verifier::external_body]
pub(crate) fn fieldmask_render(paths: &Vec<String>) -> (r: String)
    ensures
        r@ == fieldmask_text(paths.deep_view()),
{
    let mask = google_cloud_wkt::FieldMask::default().set_paths(paths.clone());
    match serde_json::to_value(&mask) {
        Ok(serde_json::Value::String(s)) => s,
        _ => String::new(),  // not reached: a field mask serializes as a string
    }
}

/// Relies on google_cloud_wkt::FieldMask, deserialized through serde_json:
/// any string is accepted, split at commas, each piece snake-cased; the
/// empty string gives no paths, as [`fieldmask_paths_of_text`] spells out.
#[verifier::external_body]
pub(crate) fn fieldmask_parse_text(s: &str) -> (r: Vec<String>)
    ensures
        r.deep_view() == fieldmask_paths_of_text(s@),
{
    match serde_json::from_value::<google_cloud_wkt::FieldMask>(
        serde_json::Value::String(s.to_string()),
    ) {
        Ok(m) => m.paths,
        Err(_) => Vec::new(),  // not reached: every string deserializes
    }
}

} // verus!
