//! The scalar codec: primitive wire representations.
//!
//! 64-bit integers travel as decimal strings (`-?[0-9]+`), binary payloads as
//! standard base64 with padding, and 32-bit integers as bare JSON numbers.
//! Encoding is canonical; decoding accepts exactly the documented forms and
//! reports any deviation.

use crate::strutil::push_char;
use vstd::prelude::*;

verus! {

/// Whether `c` is a decimal digit.
pub open spec fn is_digit(c: char) -> bool {
    '0' <= c && c <= '9'
}

/// The numeric value of a decimal digit.
pub open spec fn digit_val(c: char) -> int {
    c as u32 - 48
}

/// The decimal digit with value `d`.
pub open spec fn char_of_digit(d: int) -> char {
    ((48 + d) as u8) as char
}

/// The canonical decimal representation of `n`: no sign, no leading zeros.
pub open spec fn dec_rep(n: nat) -> Seq<char>
    decreases n,
{
    if n < 10 {
        seq![char_of_digit(n as int)]
    } else {
        dec_rep(n / 10) + seq![char_of_digit((n % 10) as int)]
    }
}

/// The canonical decimal representation of `v`: a minus sign for negative
/// values, then the digits of the magnitude.
pub open spec fn i64_rep(v: i64) -> Seq<char> {
    if v < 0 {
        seq!['-'] + dec_rep((-(v as int)) as nat)
    } else {
        dec_rep(v as nat)
    }
}

/// Whether every character of `s` is a decimal digit.
pub open spec fn all_digits(s: Seq<char>) -> bool {
    forall|i: int| 0 <= i < s.len() ==> is_digit(s[i])
}

/// The value of a digit string, most significant digit first.
pub open spec fn digits_val(s: Seq<char>) -> int
    decreases s.len(),
{
    if s.len() == 0 {
        0
    } else {
        digits_val(s.drop_last()) * 10 + digit_val(s.last())
    }
}

/// The 64-bit integer denoted by `s`, when `s` matches `-?[0-9]+` and the
/// value fits; `None` otherwise. This is the exact set of string tokens the
/// wire contract accepts for a 64-bit field.
pub open spec fn parse_i64(s: Seq<char>) -> Option<i64> {
    if s.len() > 0 && s[0] == '-' {
        let ds = s.skip(1);
        if ds.len() > 0 && all_digits(ds) && -digits_val(ds) >= i64::MIN {
            Some((-digits_val(ds)) as i64)
        } else {
            None
        }
    } else {
        if s.len() > 0 && all_digits(s) && digits_val(s) <= i64::MAX {
            Some(digits_val(s) as i64)
        } else {
            None
        }
    }
}

/// Every character of a canonical decimal representation is a digit.
pub proof fn lemma_dec_rep_digits(n: nat)
    ensures
        dec_rep(n).len() >= 1,
        all_digits(dec_rep(n)),
    decreases n,
{
    if n < 10 {
        assert(is_digit(char_of_digit(n as int)));
    } else {
        lemma_dec_rep_digits(n / 10);
        assert(is_digit(char_of_digit((n % 10) as int)));
        assert forall|i: int| 0 <= i < dec_rep(n).len() implies is_digit(dec_rep(n)[i]) by {
            if i < dec_rep(n / 10).len() {
                assert(dec_rep(n)[i] == dec_rep(n / 10)[i]);
            }
        }
    }
}

/// The canonical decimal representation of `n` denotes `n`.
pub proof fn lemma_digits_val_dec_rep(n: nat)
    ensures
        digits_val(dec_rep(n)) == n,
    decreases n,
{
    if n < 10 {
        assert(dec_rep(n).drop_last() =~= Seq::<char>::empty());
        assert(digit_val(char_of_digit(n as int)) == n);
        assert(digits_val(Seq::<char>::empty()) == 0);
        assert(dec_rep(n).last() == char_of_digit(n as int));
    } else {
        lemma_digits_val_dec_rep(n / 10);
        let tail = seq![char_of_digit((n % 10) as int)];
        assert((dec_rep(n / 10) + tail).drop_last() =~= dec_rep(n / 10));
        assert((dec_rep(n / 10) + tail).last() == char_of_digit((n % 10) as int));
        assert(digit_val(char_of_digit((n % 10) as int)) == n % 10);
        assert(digits_val(dec_rep(n)) == digits_val(dec_rep(n / 10)) * 10 + (n % 10));
        assert((n / 10) * 10 + n % 10 == n) by (nonlinear_arith);
    }
}

/// The value of a digit string is never negative.
pub proof fn lemma_digits_val_nonneg(s: Seq<char>)
    requires
        all_digits(s),
    ensures
        digits_val(s) >= 0,
    decreases s.len(),
{
    if s.len() > 0 {
        assert(all_digits(s.drop_last()));
        lemma_digits_val_nonneg(s.drop_last());
    }
}

/// A prefix of a digit string never denotes more than the whole string.
pub proof fn lemma_digits_val_prefix_le(s: Seq<char>, i: int)
    requires
        all_digits(s),
        0 <= i <= s.len(),
    ensures
        digits_val(s.take(i)) <= digits_val(s),
    decreases s.len() - i,
{
    if i == s.len() {
        assert(s.take(i) =~= s);
    } else {
        assert(s.take(i + 1).drop_last() =~= s.take(i));
        assert(s.take(i + 1).last() == s[i]);
        assert(all_digits(s.take(i)));
        lemma_digits_val_nonneg(s.take(i));
        assert(digit_val(s[i]) >= 0);
        assert(digits_val(s.take(i + 1)) == digits_val(s.take(i)) * 10 + digit_val(s[i]));
        lemma_digits_val_prefix_le(s, i + 1);
    }
}

/// The first character of a canonical decimal representation is a digit, so
/// a canonical representation never starts with a minus sign.
pub proof fn lemma_dec_rep_first_digit(n: nat)
    ensures
        dec_rep(n).len() >= 1,
        is_digit(dec_rep(n)[0]),
        dec_rep(n)[0] != '-',
    decreases n,
{
    lemma_dec_rep_digits(n);
    assert(is_digit(dec_rep(n)[0]));
}

/// Law: decoding a canonically encoded 64-bit integer gives back the
/// integer: `parse_i64(i64_rep(v)) == Some(v)` for every `v`.
pub proof fn lemma_i64_dec_round_trip(v: i64)
    ensures
        parse_i64(i64_rep(v)) == Some(v),
{
    if v < 0 {
        let mag = (-(v as int)) as nat;
        lemma_dec_rep_digits(mag);
        lemma_dec_rep_first_digit(mag);
        lemma_digits_val_dec_rep(mag);
        let s = seq!['-'] + dec_rep(mag);
        assert(i64_rep(v) == s);
        assert(s.len() > 0);
        assert(s[0] == '-');
        assert(s.skip(1) =~= dec_rep(mag));
        assert(all_digits(s.skip(1)));
        assert(digits_val(s.skip(1)) == mag);
        assert(-digits_val(s.skip(1)) == v as int);
        assert(-digits_val(s.skip(1)) >= i64::MIN);
        assert((-digits_val(s.skip(1))) as i64 == v);
        assert(parse_i64(s) == Some(v));
    } else {
        let mag = v as nat;
        lemma_dec_rep_digits(mag);
        lemma_dec_rep_first_digit(mag);
        lemma_digits_val_dec_rep(mag);
        let s = dec_rep(mag);
        assert(i64_rep(v) == s);
        assert(s.len() > 0);
        assert(s[0] != '-');
        assert(digits_val(s) == mag);
        assert(digits_val(s) <= i64::MAX);
        assert(digits_val(s) as i64 == v);
        assert(parse_i64(s) == Some(v));
    }
}

/// Encodes `v` in its canonical decimal representation.
pub fn i64_to_dec(v: i64) -> (r: String)
    ensures
        r@ == i64_rep(v),
{
    let neg = v < 0;
    let mag: u64 = if v == i64::MIN {
        9223372036854775808u64
    } else if v < 0 {
        (-v) as u64
    } else {
        v as u64
    };
    assert(mag == if v < 0 {
        (-(v as int)) as nat
    } else {
        v as nat
    });
    let mut digits: Vec<char> = Vec::new();
    let mut m: u64 = mag;
    while m >= 10
        invariant
            dec_rep(mag as nat) =~= dec_rep(m as nat) + digits@.reverse(),
        decreases m,
    {
        let d: u8 = (m % 10) as u8;
        let c: char = (48 + d) as char;
        proof {
            assert(c == char_of_digit((m as nat % 10) as int));
            assert(dec_rep(m as nat) == dec_rep(m as nat / 10) + seq![c]);
            assert((digits@.push(c)).reverse() =~= seq![c] + digits@.reverse());
            assert(dec_rep(m as nat / 10) + (seq![c] + digits@.reverse()) =~= (dec_rep(
                m as nat / 10,
            ) + seq![c]) + digits@.reverse());
        }
        digits.push(c);
        m = m / 10;
    }
    let last: char = (48 + (m % 10) as u8) as char;
    proof {
        assert(dec_rep(m as nat) =~= seq![char_of_digit(m as int)]);
        assert(last == char_of_digit(m as int));
    }
    let mut r = String::new();
    if neg {
        push_char(&mut r, '-');
    }
    push_char(&mut r, last);
    let ghost head = if neg {
        seq!['-', last]
    } else {
        seq![last]
    };
    assert(r@ =~= head);
    let mut j: usize = digits.len();
    while j > 0
        invariant
            j <= digits@.len(),
            r@ =~= head + digits@.reverse().take(digits@.len() - j),
        decreases j,
    {
        j -= 1;
        push_char(&mut r, digits[j]);
        proof {
            assert(digits@.reverse()[digits@.len() - j - 1] == digits@[j as int]);
            assert(r@ =~= head + digits@.reverse().take(digits@.len() - j));
        }
    }
    proof {
        assert(digits@.reverse().take(digits@.len() as int) =~= digits@.reverse());
        assert(r@ =~= head + digits@.reverse());
        assert(seq![last] + digits@.reverse() =~= dec_rep(m as nat) + digits@.reverse());
        assert(dec_rep(mag as nat) =~= dec_rep(m as nat) + digits@.reverse());
        if neg {
            assert(r@ =~= seq!['-'] + dec_rep(mag as nat));
        } else {
            assert(r@ =~= dec_rep(mag as nat));
        }
    }
    r
}

} // verus!

verus! {

/// Decodes a decimal string token: accepts exactly `-?[0-9]+` with a value
/// in the 64-bit range, per [`parse_i64`].
pub fn dec_to_i64(s: &str) -> (r: Option<i64>)
    ensures
        r == parse_i64(s@),
{
    let n = s.unicode_len();
    if n == 0 {
        return None;
    }
    let neg = s.get_char(0) == '-';
    let start: usize = if neg {
        1
    } else {
        0
    };
    let ghost ds = if neg {
        s@.skip(1)
    } else {
        s@
    };
    if start == n {
        assert(ds.len() == 0);
        return None;
    }
    let limit: u64 = if neg {
        9223372036854775808u64
    } else {
        9223372036854775807u64
    };
    let mut acc: u64 = 0;
    let mut i: usize = start;
    proof {
        assert(ds.take(0) =~= Seq::<char>::empty());
    }
    while i < n
        invariant
            start <= i <= n,
            n == s@.len(),
            start == if neg {
                1int
            } else {
                0int
            },
            ds == if neg {
                s@.skip(1)
            } else {
                s@
            },
            ds.len() == n - start,
            neg <==> (s@.len() > 0 && s@[0] == '-'),
            limit == if neg {
                9223372036854775808u64
            } else {
                9223372036854775807u64
            },
            forall|j: int| 0 <= j < i - start ==> is_digit(ds[j]),
            forall|j: int| 0 <= j < i - start ==> ds[j] == s@[j + start],
            acc == digits_val(ds.take(i - start)),
            acc <= limit,
        decreases n - i,
    {
        let c = s.get_char(i);
        let u = c as u32;
        proof {
            assert(ds[i - start] == s@[i as int]);
        }
        if u < 48 || u > 57 {
            proof {
                assert(!is_digit(ds[i - start]));
                assert(!all_digits(ds));
            }
            return None;
        }
        assert(is_digit(c));
        let d: u64 = (u - 48) as u64;
        assert(d == digit_val(c));
        if acc > (limit - d) / 10 {
            proof {
                assert(ds.take(i - start + 1).drop_last() =~= ds.take(i - start));
                assert(ds.take(i - start + 1).last() == ds[i - start]);
                assert(digits_val(ds.take(i - start + 1)) == acc * 10 + d);
                assert(acc * 10 + d > limit) by (nonlinear_arith)
                    requires
                        acc > (limit - d) / 10,
                        d <= 9,
                        limit >= 9,
                ;
                if all_digits(ds) {
                    lemma_digits_val_prefix_le(ds, i - start + 1);
                    assert(digits_val(ds) > limit);
                }
            }
            return None;
        }
        proof {
            assert(acc * 10 + d <= limit) by (nonlinear_arith)
                requires
                    acc <= (limit - d) / 10,
                    d <= 9,
                    d <= limit,
            ;
            assert(ds.take(i - start + 1).drop_last() =~= ds.take(i - start));
            assert(ds.take(i - start + 1).last() == ds[i - start]);
        }
        acc = acc * 10 + d;
        i += 1;
    }
    proof {
        assert(ds.take(n - start) =~= ds);
        assert(acc == digits_val(ds));
        assert(all_digits(ds));
    }
    if neg {
        if acc == 9223372036854775808u64 {
            assert(-digits_val(ds) == i64::MIN);
            Some(i64::MIN)
        } else {
            let r = -(acc as i64);
            assert(r == -digits_val(ds));
            Some(r)
        }
    } else {
        let r = acc as i64;
        assert(r == digits_val(ds));
        Some(r)
    }
}

} // verus!

verus! {

/// The standard base64 alphabet character for a 6-bit value.
pub open spec fn b64_char(v: int) -> char {
    if v < 26 {
        ((65 + v) as u8) as char  // 'A'..='Z'
    } else if v < 52 {
        ((97 + v - 26) as u8) as char  // 'a'..='z'
    } else if v < 62 {
        ((48 + v - 52) as u8) as char  // '0'..='9'
    } else if v == 62 {
        '+'
    } else {
        '/'
    }
}

/// The 6-bit value of a standard base64 alphabet character, or -1 for any
/// character outside the alphabet (including the padding character).
pub open spec fn b64_val(c: char) -> int {
    let u = c as u32;
    if 65 <= u <= 90 {
        u - 65
    } else if 97 <= u <= 122 {
        u - 97 + 26
    } else if 48 <= u <= 57 {
        u - 48 + 52
    } else if c == '+' {
        62
    } else if c == '/' {
        63
    } else {
        -1
    }
}

/// The alphabet and its value function are inverse.
pub proof fn lemma_b64_char_val(v: int)
    requires
        0 <= v < 64,
    ensures
        b64_val(b64_char(v)) == v,
        b64_char(v) != '=',
{
}

/// Standard base64 with padding: each group of three bytes becomes four
/// alphabet characters; a final group of one or two bytes is padded with
/// `=` to four characters.
pub open spec fn b64_enc(bytes: Seq<u8>) -> Seq<char>
    decreases bytes.len(),
{
    if bytes.len() == 0 {
        Seq::empty()
    } else if bytes.len() == 1 {
        let b0 = bytes[0] as int;
        seq![b64_char(b0 / 4), b64_char((b0 % 4) * 16), '=', '=']
    } else if bytes.len() == 2 {
        let b0 = bytes[0] as int;
        let b1 = bytes[1] as int;
        seq![b64_char(b0 / 4), b64_char((b0 % 4) * 16 + b1 / 16), b64_char((b1 % 16) * 4), '=']
    } else {
        let b0 = bytes[0] as int;
        let b1 = bytes[1] as int;
        let b2 = bytes[2] as int;
        seq![
            b64_char(b0 / 4),
            b64_char((b0 % 4) * 16 + b1 / 16),
            b64_char((b1 % 16) * 4 + b2 / 64),
            b64_char(b2 % 64),
        ] + b64_enc(bytes.skip(3))
    }
}

/// Strict base64 decoding: `Some` exactly for the strings [`b64_enc`] can
/// produce (length a multiple of four, alphabet characters, canonical
/// padding with zeroed trailing bits), and then the decoded bytes.
pub open spec fn b64_dec(s: Seq<char>) -> Option<Seq<u8>>
    decreases s.len(),
{
    if s.len() == 0 {
        Some(Seq::empty())
    } else if s.len() < 4 {
        None
    } else if s.len() == 4 {
        let c0 = b64_val(s[0]);
        let c1 = b64_val(s[1]);
        if c0 < 0 || c1 < 0 {
            None
        } else if s[3] == '=' {
            if s[2] == '=' {
                if c1 % 16 == 0 {
                    Some(seq![(c0 * 4 + c1 / 16) as u8])
                } else {
                    None
                }
            } else {
                let c2 = b64_val(s[2]);
                if c2 >= 0 && c2 % 4 == 0 {
                    Some(seq![(c0 * 4 + c1 / 16) as u8, ((c1 % 16) * 16 + c2 / 4) as u8])
                } else {
                    None
                }
            }
        } else {
            let c2 = b64_val(s[2]);
            let c3 = b64_val(s[3]);
            if c2 >= 0 && c3 >= 0 {
                Some(
                    seq![
                        (c0 * 4 + c1 / 16) as u8,
                        ((c1 % 16) * 16 + c2 / 4) as u8,
                        ((c2 % 4) * 64 + c3) as u8,
                    ],
                )
            } else {
                None
            }
        }
    } else {
        let c0 = b64_val(s[0]);
        let c1 = b64_val(s[1]);
        let c2 = b64_val(s[2]);
        let c3 = b64_val(s[3]);
        if c0 >= 0 && c1 >= 0 && c2 >= 0 && c3 >= 0 {
            match b64_dec(s.skip(4)) {
                Some(rest) => Some(
                    seq![
                        (c0 * 4 + c1 / 16) as u8,
                        ((c1 % 16) * 16 + c2 / 4) as u8,
                        ((c2 % 4) * 64 + c3) as u8,
                    ] + rest,
                ),
                None => None,
            }
        } else {
            None
        }
    }
}

/// The length of an encoding: four characters for every started group of
/// three bytes.
pub proof fn lemma_b64_enc_len(bytes: Seq<u8>)
    ensures
        b64_enc(bytes).len() == ((bytes.len() + 2) / 3) * 4,
    decreases bytes.len(),
{
    if bytes.len() >= 3 {
        lemma_b64_enc_len(bytes.skip(3));
    }
}

/// Law: decoding an encoded byte string gives back the bytes:
/// `b64_dec(b64_enc(bytes)) == Some(bytes)`, for every byte string,
/// including the empty one (which encodes to the empty string).
pub proof fn lemma_b64_round_trip(bytes: Seq<u8>)
    ensures
        b64_dec(b64_enc(bytes)) == Some(bytes),
    decreases bytes.len(),
{
    if bytes.len() == 0 {
        assert(b64_enc(bytes) =~= Seq::<char>::empty());
        assert(b64_dec(b64_enc(bytes)) == Some(Seq::<u8>::empty()));
        assert(bytes =~= Seq::<u8>::empty());
    } else if bytes.len() == 1 {
        let b0 = bytes[0] as int;
        lemma_b64_char_val(b0 / 4);
        lemma_b64_char_val((b0 % 4) * 16);
        let s = b64_enc(bytes);
        assert(s.len() == 4);
        assert(((b0 % 4) * 16) % 16 == 0) by (nonlinear_arith);
        assert((b0 / 4) * 4 + ((b0 % 4) * 16) / 16 == b0) by (nonlinear_arith)
            requires 0 <= b0 < 256;
        assert(b64_dec(s) == Some(seq![bytes[0]]));
        assert(seq![bytes[0]] =~= bytes);
    } else if bytes.len() == 2 {
        let b0 = bytes[0] as int;
        let b1 = bytes[1] as int;
        lemma_b64_char_val(b0 / 4);
        lemma_b64_char_val((b0 % 4) * 16 + b1 / 16);
        lemma_b64_char_val((b1 % 16) * 4);
        let s = b64_enc(bytes);
        assert(s.len() == 4);
        assert(((b1 % 16) * 4) % 4 == 0) by (nonlinear_arith);
        assert((b0 / 4) * 4 + ((b0 % 4) * 16 + b1 / 16) / 16 == b0) by (nonlinear_arith)
            requires 0 <= b0 < 256 && 0 <= b1 < 256;
        assert((((b0 % 4) * 16 + b1 / 16) % 16) * 16 + ((b1 % 16) * 4) / 4 == b1)
            by (nonlinear_arith)
            requires 0 <= b0 < 256 && 0 <= b1 < 256;
        assert(b64_dec(s) == Some(seq![bytes[0], bytes[1]]));
        assert(seq![bytes[0], bytes[1]] =~= bytes);
    } else {
        let b0 = bytes[0] as int;
        let b1 = bytes[1] as int;
        let b2 = bytes[2] as int;
        lemma_b64_char_val(b0 / 4);
        lemma_b64_char_val((b0 % 4) * 16 + b1 / 16);
        lemma_b64_char_val((b1 % 16) * 4 + b2 / 64);
        lemma_b64_char_val(b2 % 64);
        lemma_b64_round_trip(bytes.skip(3));
        let s = b64_enc(bytes);
        let group = seq![
            b64_char(b0 / 4),
            b64_char((b0 % 4) * 16 + b1 / 16),
            b64_char((b1 % 16) * 4 + b2 / 64),
            b64_char(b2 % 64),
        ];
        assert(s =~= group + b64_enc(bytes.skip(3)));
        lemma_b64_enc_len(bytes.skip(3));
        assert(s.skip(4) =~= b64_enc(bytes.skip(3)));
        assert((b0 / 4) * 4 + ((b0 % 4) * 16 + b1 / 16) / 16 == b0) by (nonlinear_arith)
            requires 0 <= b0 < 256 && 0 <= b1 < 256;
        assert((((b0 % 4) * 16 + b1 / 16) % 16) * 16 + (((b1 % 16) * 4 + b2 / 64)) / 4 == b1)
            by (nonlinear_arith)
            requires 0 <= b0 < 256 && 0 <= b1 < 256 && 0 <= b2 < 256;
        assert(((((b1 % 16) * 4 + b2 / 64)) % 4) * 64 + (b2 % 64) == b2) by (nonlinear_arith)
            requires 0 <= b1 < 256 && 0 <= b2 < 256;
        if bytes.len() == 3 {
            assert(s.len() == 4);
            assert(s[3] != '=');
            assert(b64_dec(s) == Some(seq![bytes[0], bytes[1], bytes[2]]));
            assert(seq![bytes[0], bytes[1], bytes[2]] =~= bytes);
        } else {
            assert(s.len() > 4);
            assert(seq![bytes[0], bytes[1], bytes[2]] + bytes.skip(3) =~= bytes);
        }
    }
}

} // verus!

verus! {

/// The alphabet character for a 6-bit value, executably.
fn b64_char_exec(v: u8) -> (c: char)
    requires
        v < 64,
    ensures
        c == b64_char(v as int),
{
    if v < 26 {
        (65 + v) as char
    } else if v < 52 {
        (97 + v - 26) as char
    } else if v < 62 {
        (48 + v - 52) as char
    } else if v == 62 {
        '+'
    } else {
        '/'
    }
}

/// The 6-bit value of an alphabet character, or `None` outside the alphabet.
fn b64_val_exec(c: char) -> (r: Option<u8>)
    ensures
        match r {
            Some(v) => b64_val(c) == v as int && v < 64,
            None => b64_val(c) < 0,
        },
{
    let u = c as u32;
    if 65 <= u && u <= 90 {
        Some((u - 65) as u8)
    } else if 97 <= u && u <= 122 {
        Some((u - 97 + 26) as u8)
    } else if 48 <= u && u <= 57 {
        Some((u - 48 + 52) as u8)
    } else if c == '+' {
        Some(62)
    } else if c == '/' {
        Some(63)
    } else {
        None
    }
}

/// Encodes a byte string as standard base64 text with padding.
pub fn bytes_to_b64(bytes: &Vec<u8>) -> (r: String)
    ensures
        r@ == b64_enc(bytes@),
{
    let mut r = String::new();
    let mut i: usize = 0;
    proof {
        assert(bytes@.skip(0) =~= bytes@);
        assert(r@ =~= Seq::<char>::empty());
    }
    while bytes.len() - i >= 3
        invariant
            i <= bytes@.len(),
            b64_enc(bytes@) =~= r@ + b64_enc(bytes@.skip(i as int)),
        decreases bytes@.len() - i,
    {
        let b0 = bytes[i];
        let b1 = bytes[i + 1];
        let b2 = bytes[i + 2];
        let c0 = b64_char_exec(b0 / 4);
        let c1 = b64_char_exec((b0 % 4) * 16 + b1 / 16);
        let c2 = b64_char_exec((b1 % 16) * 4 + b2 / 64);
        let c3 = b64_char_exec(b2 % 64);
        proof {
            let rest = bytes@.skip(i as int);
            assert(rest[0] == bytes@[i as int]);
            assert(rest[1] == bytes@[i as int + 1]);
            assert(rest[2] == bytes@[i as int + 2]);
            assert(rest.skip(3) =~= bytes@.skip(i as int + 3));
            assert(b64_enc(rest) == seq![c0, c1, c2, c3] + b64_enc(bytes@.skip(i as int + 3)));
        }
        push_char(&mut r, c0);
        push_char(&mut r, c1);
        push_char(&mut r, c2);
        push_char(&mut r, c3);
        proof {
            assert(b64_enc(bytes@) =~= r@ + b64_enc(bytes@.skip(i as int + 3)));
        }
        i += 3;
    }
    let remaining = bytes.len() - i;
    if remaining == 0 {
        proof {
            assert(bytes@.skip(i as int).len() == 0);
            assert(b64_enc(bytes@) =~= r@);
        }
    } else if remaining == 1 {
        let b0 = bytes[i];
        let c0 = b64_char_exec(b0 / 4);
        let c1 = b64_char_exec((b0 % 4) * 16);
        proof {
            let rest = bytes@.skip(i as int);
            assert(rest[0] == bytes@[i as int]);
            assert(b64_enc(rest) == seq![c0, c1, '=', '=']);
        }
        push_char(&mut r, c0);
        push_char(&mut r, c1);
        push_char(&mut r, '=');
        push_char(&mut r, '=');
        proof {
            assert(b64_enc(bytes@) =~= r@);
        }
    } else {
        let b0 = bytes[i];
        let b1 = bytes[i + 1];
        let c0 = b64_char_exec(b0 / 4);
        let c1 = b64_char_exec((b0 % 4) * 16 + b1 / 16);
        let c2 = b64_char_exec((b1 % 16) * 4);
        proof {
            let rest = bytes@.skip(i as int);
            assert(rest[0] == bytes@[i as int]);
            assert(rest[1] == bytes@[i as int + 1]);
            assert(b64_enc(rest) == seq![c0, c1, c2, '=']);
        }
        push_char(&mut r, c0);
        push_char(&mut r, c1);
        push_char(&mut r, c2);
        push_char(&mut r, '=');
        proof {
            assert(b64_enc(bytes@) =~= r@);
        }
    }
    r
}

/// A string whose length is not a multiple of four never decodes.
proof fn lemma_b64_dec_len_mod(s: Seq<char>)
    requires
        s.len() % 4 != 0,
    ensures
        b64_dec(s) is None,
    decreases s.len(),
{
    if s.len() > 4 {
        lemma_b64_dec_len_mod(s.skip(4));
    }
}

/// Decodes standard base64 text with padding; rejects any character outside
/// the alphabet, any length that is not a multiple of four, and any
/// non-canonical padding.
pub fn b64_to_bytes(s: &str) -> (r: Option<Vec<u8>>)
    ensures
        match r {
            Some(v) => b64_dec(s@) == Some(v@),
            None => b64_dec(s@) is None,
        },
{
    let n = s.unicode_len();
    if n == 0 {
        let out: Vec<u8> = Vec::new();
        proof {
            assert(out@ =~= Seq::<u8>::empty());
        }
        return Some(out);
    }
    if n % 4 != 0 {
        proof {
            lemma_b64_dec_len_mod(s@);
        }
        return None;
    }
    let mut out: Vec<u8> = Vec::new();
    let mut i: usize = 0;
    proof {
        assert(s@.skip(0) =~= s@);
        assert(out@ + b64_dec(s@)->Some_0 =~= b64_dec(s@)->Some_0);
    }
    while n - i > 4
        invariant
            i < n,
            n == s@.len(),
            n % 4 == 0,
            i % 4 == 0,
            b64_dec(s@) == match b64_dec(s@.skip(i as int)) {
                Some(rest) => Some(out@ + rest),
                None => None::<Seq<u8>>,
            },
        decreases n - i,
    {
        let ghost rest = s@.skip(i as int);
        assert(rest.len() == n - i);
        assert(rest[0] == s@[i as int]);
        assert(rest[1] == s@[i as int + 1]);
        assert(rest[2] == s@[i as int + 2]);
        assert(rest[3] == s@[i as int + 3]);
        let v0 = b64_val_exec(s.get_char(i));
        let v1 = b64_val_exec(s.get_char(i + 1));
        let v2 = b64_val_exec(s.get_char(i + 2));
        let v3 = b64_val_exec(s.get_char(i + 3));
        match (v0, v1, v2, v3) {
            (Some(c0), Some(c1), Some(c2), Some(c3)) => {
                let ghost out0 = out@;
                out.push(c0 * 4 + c1 / 16);
                out.push((c1 % 16) * 16 + c2 / 4);
                out.push((c2 % 4) * 64 + c3);
                proof {
                    let group = seq![
                        (b64_val(rest[0]) * 4 + b64_val(rest[1]) / 16) as u8,
                        ((b64_val(rest[1]) % 16) * 16 + b64_val(rest[2]) / 4) as u8,
                        ((b64_val(rest[2]) % 4) * 64 + b64_val(rest[3])) as u8,
                    ];
                    assert(out@ =~= out0 + group);
                    assert(b64_dec(rest) == match b64_dec(rest.skip(4)) {
                        Some(r2) => Some(group + r2),
                        None => None::<Seq<u8>>,
                    });
                    assert(rest.skip(4) =~= s@.skip(i as int + 4));
                    match b64_dec(s@.skip(i as int + 4)) {
                        Some(r2) => {
                            assert((out0 + group) + r2 =~= out0 + (group + r2));
                        },
                        None => {},
                    }
                }
                i += 4;
            },
            _ => {
                proof {
                    assert(b64_dec(rest) is None);
                }
                return None;
            },
        }
    }
    // exactly one group is left; it may carry padding
    assert((n - i) % 4 == 0);
    assert(n - i == 4);
    let ghost rest = s@.skip(i as int);
    proof {
        assert(rest.len() == 4);
        assert(rest[0] == s@[i as int]);
        assert(rest[1] == s@[i as int + 1]);
        assert(rest[2] == s@[i as int + 2]);
        assert(rest[3] == s@[i as int + 3]);
    }
    let v0 = b64_val_exec(s.get_char(i));
    let v1 = b64_val_exec(s.get_char(i + 1));
    let (c0, c1) = match (v0, v1) {
        (Some(c0), Some(c1)) => (c0, c1),
        _ => {
            return None;
        },
    };
    let ch2 = s.get_char(i + 2);
    let ch3 = s.get_char(i + 3);
    if ch3 == '=' {
        if ch2 == '=' {
            if c1 % 16 == 0 {
                let ghost out0 = out@;
                out.push(c0 * 4 + c1 / 16);
                proof {
                    let group = seq![(b64_val(rest[0]) * 4 + b64_val(rest[1]) / 16) as u8];
                    assert(b64_dec(rest) == Some(group));
                    assert(out@ =~= out0 + group);
                }
                Some(out)
            } else {
                None
            }
        } else {
            match b64_val_exec(ch2) {
                Some(c2) if c2 % 4 == 0 => {
                    let ghost out0 = out@;
                    out.push(c0 * 4 + c1 / 16);
                    out.push((c1 % 16) * 16 + c2 / 4);
                    proof {
                        let group = seq![
                            (b64_val(rest[0]) * 4 + b64_val(rest[1]) / 16) as u8,
                            ((b64_val(rest[1]) % 16) * 16 + b64_val(rest[2]) / 4) as u8,
                        ];
                        assert(b64_dec(rest) == Some(group));
                        assert(out@ =~= out0 + group);
                    }
                    Some(out)
                },
                _ => None,
            }
        }
    } else {
        match (b64_val_exec(ch2), b64_val_exec(ch3)) {
            (Some(c2), Some(c3)) => {
                let ghost out0 = out@;
                out.push(c0 * 4 + c1 / 16);
                out.push((c1 % 16) * 16 + c2 / 4);
                out.push((c2 % 4) * 64 + c3);
                proof {
                    let group = seq![
                        (b64_val(rest[0]) * 4 + b64_val(rest[1]) / 16) as u8,
                        ((b64_val(rest[1]) % 16) * 16 + b64_val(rest[2]) / 4) as u8,
                        ((b64_val(rest[2]) % 4) * 64 + b64_val(rest[3])) as u8,
                    ];
                    assert(b64_dec(rest) == Some(group));
                    assert(out@ =~= out0 + group);
                }
                Some(out)
            },
            _ => None,
        }
    }
}

} // verus!
