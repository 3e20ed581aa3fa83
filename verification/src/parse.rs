//! Verified parsing of the numeric command arguments: repetition counts,
//! history lengths, and weights.
//!
//! A weight is written as a decimal number of pounds with at most two
//! fractional digits (the stored resolution is hundredths of a pound), or
//! with a `kg` suffix, in which case it is converted to pounds at 2.20
//! pounds per kilogram.

use vstd::prelude::*;
use vstd::arithmetic::div_mod::lemma_div_is_ordered;
use vstd::arithmetic::div_mod::lemma_div_by_multiple;
use crate::error::AppError;
use crate::text::digit_char;
use crate::text::dec_str;
use crate::text::pad2_str;
use crate::text::centi_str;

verus! {

pub open spec fn is_digit(c: char) -> bool {
    '0' <= c && c <= '9'
}

pub open spec fn digit_val(c: char) -> int {
    c as int - '0' as int
}

pub open spec fn all_digits(s: Seq<char>) -> bool {
    forall|i: int| 0 <= i < s.len() ==> is_digit(#[trigger] s[i])
}

/// The value of a sequence of decimal digits (0 for the empty sequence).
pub open spec fn dec_val(s: Seq<char>) -> int
    decreases s.len(),
{
    if s.len() == 0 {
        0
    } else {
        dec_val(s.drop_last()) * 10 + digit_val(s.last())
    }
}

/// The position of the first `.` in `s`, or -1 when there is none.
pub open spec fn dot_pos(s: Seq<char>) -> int
    decreases s.len(),
{
    if s.len() == 0 {
        -1
    } else if s[0] == '.' {
        0
    } else if dot_pos(s.drop_first()) < 0 {
        -1
    } else {
        dot_pos(s.drop_first()) + 1
    }
}

/// The value, in hundredths, of one or two fractional digits.
pub open spec fn frac_centi(fp: Seq<char>) -> int {
    if fp.len() == 1 {
        dec_val(fp) * 10
    } else {
        dec_val(fp)
    }
}

/// The weight, in hundredths of a pound, written by a plain decimal:
/// digits, optionally followed by `.` and one or two fractional digits.
/// `None` when the text is not of that shape.
pub open spec fn weight_plain_centi(s: Seq<char>) -> Option<int> {
    if dot_pos(s) < 0 {
        if s.len() > 0 && all_digits(s) {
            Some(dec_val(s) * 100)
        } else {
            None
        }
    } else {
        let p = dot_pos(s);
        let ip = s.take(p);
        let fp = s.skip(p + 1);
        if ip.len() > 0 && all_digits(ip) && 1 <= fp.len() <= 2 && all_digits(fp) {
            Some(dec_val(ip) * 100 + frac_centi(fp))
        } else {
            None
        }
    }
}

pub open spec fn has_kg_suffix(s: Seq<char>) -> bool {
    s.len() >= 2 && s[s.len() - 2] == 'k' && s[s.len() - 1] == 'g'
}

/// The weight, in hundredths of a pound, written by a weight argument:
/// a plain decimal in pounds, or a decimal with a `kg` suffix converted at
/// 2.20 pounds per kilogram (rounded down to the stored resolution).
pub open spec fn weight_centi(s: Seq<char>) -> Option<int> {
    if has_kg_suffix(s) {
        match weight_plain_centi(s.take(s.len() - 2)) {
            Some(c) => Some(c * 11 / 5),
            None => None,
        }
    } else {
        weight_plain_centi(s)
    }
}

/// A repetition count: decimal digits with a value up to 255.
pub open spec fn reps_spec(s: Seq<char>) -> Option<int> {
    if s.len() > 0 && all_digits(s) && dec_val(s) <= 255 {
        Some(dec_val(s))
    } else {
        None
    }
}

proof fn lemma_dec_val_nonneg(s: Seq<char>)
    requires
        all_digits(s),
    ensures
        dec_val(s) >= 0,
    decreases s.len(),
{
    if s.len() > 0 {
        lemma_dec_val_nonneg(s.drop_last());
    }
}

proof fn lemma_dec_val_prefix_le(s: Seq<char>, i: int)
    requires
        all_digits(s),
        0 <= i <= s.len(),
    ensures
        dec_val(s.take(i)) <= dec_val(s),
    decreases s.len() - i,
{
    if i == s.len() {
        assert(s.take(i) =~= s);
    } else {
        assert(s.take(i + 1).drop_last() =~= s.take(i));
        lemma_dec_val_nonneg(s.take(i));
        lemma_dec_val_prefix_le(s, i + 1);
    }
}

proof fn lemma_dot_pos_at(s: Seq<char>, k: int)
    requires
        0 <= k < s.len(),
        s[k] == '.',
        forall|j: int| 0 <= j < k ==> s[j] != '.',
    ensures
        dot_pos(s) == k,
    decreases k,
{
    if k > 0 {
        lemma_dot_pos_at(s.drop_first(), k - 1);
    }
}

proof fn lemma_dot_pos_none(s: Seq<char>)
    requires
        forall|j: int| 0 <= j < s.len() ==> s[j] != '.',
    ensures
        dot_pos(s) == -1,
    decreases s.len(),
{
    if s.len() > 0 {
        lemma_dot_pos_none(s.drop_first());
    }
}

/// Parses the decimal digits of `s` between `from` and `to`.
/// `Some(v)` exactly when that range is nonempty, all digits, and its value
/// is at most `max`.
fn parse_dec_range(s: &str, from: usize, to: usize, max: u64) -> (r: Option<u64>)
    requires
        from <= to <= s@.len(),
    ensures
        r matches Some(v) ==> {
            let sub = s@.subrange(from as int, to as int);
            &&& sub.len() > 0
            &&& all_digits(sub)
            &&& dec_val(sub) == v
            &&& v <= max
        },
        r is None ==> {
            let sub = s@.subrange(from as int, to as int);
            sub.len() == 0 || !all_digits(sub) || dec_val(sub) > max
        },
{
    let ghost sub = s@.subrange(from as int, to as int);
    if from == to {
        return None;
    }
    let mut acc: u64 = 0;
    let mut i: usize = from;
    while i < to
        invariant
            from <= i <= to <= s@.len(),
            sub == s@.subrange(from as int, to as int),
            all_digits(sub.take(i - from)),
            acc == dec_val(sub.take(i - from)),
            acc <= max,
        decreases to - i,
    {
        let c = s.get_char(i);
        proof {
            assert(sub[i - from] == s@[i as int]);
        }
        if c < '0' || c > '9' {
            proof {
                assert(!is_digit(sub[i - from]));
            }
            return None;
        }
        let d: u64 = (c as u32 - '0' as u32) as u64;
        proof {
            assert(sub.take(i - from + 1).drop_last() =~= sub.take(i - from));
            assert(sub.take(i - from + 1).last() == sub[i - from]);
        }
        if d > max || acc > (max - d) / 10 {
            proof {
                assert(dec_val(sub.take(i - from + 1)) > max);
                if all_digits(sub) {
                    lemma_dec_val_prefix_le(sub, i - from + 1);
                }
            }
            return None;
        }
        acc = acc * 10 + d;
        i = i + 1;
    }
    proof {
        assert(sub.take(to - from) =~= sub);
    }
    Some(acc)
}

/// Parses a repetition count (0 to 255).
pub fn parse_reps(s: &str) -> (r: Result<u8, AppError>)
    ensures
        r matches Ok(v) ==> reps_spec(s@) == Some(v as int),
        r matches Err(e) ==> reps_spec(s@) is None && e.kind is UserInput && e.message@
            == "Invalid repetition count"@,
{
    let len = s.unicode_len();
    proof {
        assert(s@.subrange(0, s@.len() as int) =~= s@);
    }
    match parse_dec_range(s, 0, len, 255) {
        Some(v) => Ok(v as u8),
        None => Err(AppError::user_input("Invalid repetition count")),
    }
}

/// Parses a history length for the `print` and `csv` commands.
pub fn parse_count(s: &str) -> (r: Result<usize, AppError>)
    ensures
        r matches Ok(v) ==> s@.len() > 0 && all_digits(s@) && dec_val(s@) == v,
        r matches Err(e) ==> (s@.len() == 0 || !all_digits(s@) || dec_val(s@) > usize::MAX)
            && e.kind is UserInput && e.message@ == "Invalid count"@,
{
    let len = s.unicode_len();
    proof {
        assert(s@.subrange(0, s@.len() as int) =~= s@);
    }
    match parse_dec_range(s, 0, len, usize::MAX as u64) {
        Some(v) => Ok(v as usize),
        None => Err(AppError::user_input("Invalid count")),
    }
}

/// Converting a nonnegative weight from kilograms never shrinks it.
proof fn lemma_kg_conversion_grows(c: int)
    requires
        c >= 0,
    ensures
        c * 11 / 5 >= c,
{
    assert(c * 5 <= c * 11) by (nonlinear_arith)
        requires
            c >= 0,
    ;
    lemma_div_is_ordered(c * 5, c * 11, 5);
    lemma_div_by_multiple(c, 5);
}

/// Parses a weight argument into hundredths of a pound.
pub fn parse_weight(s: &str) -> (r: Result<u32, AppError>)
    ensures
        r matches Ok(v) ==> weight_centi(s@) == Some(v as int),
        r matches Err(e) ==> e.kind is UserInput && e.message@ == "Invalid weight"@ && (
        weight_centi(s@) is None || weight_centi(s@)->Some_0 > u32::MAX),
{
    let len = s.unicode_len();
    let kg = len >= 2 && s.get_char(len - 2) == 'k' && s.get_char(len - 1) == 'g';
    let to = if kg {
        len - 2
    } else {
        len
    };
    let ghost plain = s@.subrange(0, to as int);
    proof {
        if kg {
            assert(s@.take(s@.len() - 2) =~= plain);
        } else {
            assert(plain =~= s@);
        }
    }
    let centi: u64 = match parse_weight_plain(s, to) {
        Some(c) => c,
        None => {
            proof {
                let w = weight_plain_centi(plain);
                if w is Some && w->Some_0 > u32::MAX {
                    lemma_kg_conversion_grows(w->Some_0);
                }
            }
            return Err(AppError::user_input("Invalid weight"));
        },
    };
    let converted: u64 = if kg {
        centi * 11 / 5
    } else {
        centi
    };
    if converted > u32::MAX as u64 {
        return Err(AppError::user_input("Invalid weight"));
    }
    Ok(converted as u32)
}

/// Parses the plain decimal part of a weight: the characters of `s` up to
/// `to`, as pounds in hundredths.  The result is bounded well below `u64`
/// overflow; values too large for a stored weight are reported as absent
/// (they exceed `u32::MAX` hundredths in any case).
/// The first position of `.` in `s` below `to`, if any.
fn find_dot(s: &str, to: usize) -> (r: Option<usize>)
    requires
        to <= s@.len(),
    ensures
        r matches Some(k) ==> k < to && s@[k as int] == '.' && (forall|j: int|
            0 <= j < k ==> s@[j] != '.'),
        r is None ==> forall|j: int| 0 <= j < to ==> s@[j] != '.',
{
    let mut i: usize = 0;
    while i < to
        invariant
            0 <= i <= to <= s@.len(),
            forall|j: int| 0 <= j < i ==> s@[j] != '.',
        decreases to - i,
    {
        if s.get_char(i) == '.' {
            return Some(i);
        }
        i = i + 1;
    }
    None
}

fn parse_weight_plain(s: &str, to: usize) -> (r: Option<u64>)
    requires
        to <= s@.len(),
    ensures
        r matches Some(c) ==> weight_plain_centi(s@.subrange(0, to as int)) == Some(c as int) && c
            <= 1_000_000_000_099,
        r is None ==> {
            let w = weight_plain_centi(s@.subrange(0, to as int));
            w is None || w->Some_0 > u32::MAX
        },
{
    let ghost sub = s@.subrange(0, to as int);
    let dot: usize = match find_dot(s, to) {
        Some(k) => k,
        None => to,
    };
    // The bound keeps every later product within u64 while still exceeding
    // any storable weight.
    let int_max: u64 = 10_000_000_000;
    if dot == to {
        proof {
            lemma_dot_pos_none(sub);
        }
        match parse_dec_range(s, 0, to, int_max) {
            Some(v) => {
                proof {
                    assert(s@.subrange(0, to as int) =~= sub);
                }
                Some(v * 100)
            },
            None => {
                proof {
                    if sub.len() > 0 && all_digits(sub) {
                        lemma_dec_val_nonneg(sub);
                    }
                }
                None
            },
        }
    } else {
        proof {
            lemma_dot_pos_at(sub, dot as int);
            assert(sub.take(dot as int) =~= s@.subrange(0, dot as int));
            assert(sub.skip(dot as int + 1) =~= s@.subrange(dot as int + 1, to as int));
        }
        let fplen = to - dot - 1;
        if fplen < 1 || fplen > 2 {
            return None;
        }
        let ip = match parse_dec_range(s, 0, dot, int_max) {
            Some(v) => v,
            None => {
                proof {
                    let ips = sub.take(dot as int);
                    if ips.len() > 0 && all_digits(ips) {
                        lemma_dec_val_nonneg(ips);
                        let fps = sub.skip(dot as int + 1);
                        if 1 <= fps.len() <= 2 && all_digits(fps) {
                            lemma_dec_val_nonneg(fps);
                        }
                    }
                }
                return None;
            },
        };
        let frac_max: u64 = if fplen == 1 {
            9
        } else {
            99
        };
        let fp = match parse_dec_range(s, dot + 1, to, frac_max) {
            Some(v) => v,
            None => {
                proof {
                    // One or two digits never exceed the bound, so the range
                    // parser can only have failed on a non-digit.
                    let fps = sub.skip(dot as int + 1);
                    if all_digits(fps) {
                        reveal_with_fuel(dec_val, 3);
                        if fps.len() == 1 {
                            assert(fps.drop_last() =~= Seq::<char>::empty());
                            assert(dec_val(fps) <= 9);
                        } else {
                            assert(fps.drop_last().drop_last() =~= Seq::<char>::empty());
                            assert(dec_val(fps) <= 99);
                        }
                    }
                }
                return None;
            },
        };
        let frac: u64 = if fplen == 1 {
            fp * 10
        } else {
            fp
        };
        Some(ip * 100 + frac)
    }
}

/// The decimal rendering of a nonnegative integer reads back as the same
/// integer: it is nonempty, all digits, and its value is the integer.
pub proof fn lemma_dec_str_value(n: int)
    requires
        n >= 0,
    ensures
        dec_str(n).len() >= 1,
        all_digits(dec_str(n)),
        dec_val(dec_str(n)) == n,
    decreases n,
{
    reveal_with_fuel(dec_val, 2);
    if n < 10 {
        assert(dec_str(n).drop_last() =~= Seq::<char>::empty());
        assert(is_digit(digit_char(n)));
        assert(digit_val(digit_char(n)) == n);
    } else {
        lemma_dec_str_value(n / 10);
        let s = dec_str(n);
        assert(s.drop_last() =~= dec_str(n / 10));
        assert(s.last() == digit_char(n % 10));
        assert forall|i: int| 0 <= i < s.len() implies is_digit(s[i]) by {
            if i < s.len() - 1 {
                assert(s[i] == dec_str(n / 10)[i]);
            } else {
                assert(s[i] == digit_char(n % 10));
            }
        }
        assert(dec_val(s) == dec_val(dec_str(n / 10)) * 10 + digit_val(digit_char(n % 10)));
    }
}

/// The two-digit zero-padded rendering of a value below 100 reads back as
/// the same value.
pub proof fn lemma_pad2_str_value(n: int)
    requires
        0 <= n < 100,
    ensures
        pad2_str(n).len() == 2,
        all_digits(pad2_str(n)),
        dec_val(pad2_str(n)) == n,
{
    reveal_with_fuel(dec_val, 3);
    lemma_dec_str_value(n);
    if n < 10 {
        let s = pad2_str(n);
        assert(s =~= seq!['0', digit_char(n)]);
        assert(s.drop_last() =~= seq!['0']);
        assert(s.drop_last().drop_last() =~= Seq::<char>::empty());
        assert(dec_val(s) == digit_val('0') * 10 + digit_val(digit_char(n)));
    } else {
        lemma_dec_str_value(n / 10);
        assert(dec_str(n).drop_last() =~= dec_str(n / 10));
    }
}

/// Round trip of a stored weight through its textual form: rendering a
/// weight in hundredths of a pound and parsing the text back yields the
/// same stored value.
pub proof fn lemma_weight_render_parse_round_trip(c: int)
    requires
        c >= 0,
    ensures
        weight_plain_centi(centi_str(c)) == Some(c),
{
    let ip = dec_str(c / 100);
    let fp = pad2_str(c % 100);
    let s = centi_str(c);
    lemma_dec_str_value(c / 100);
    lemma_pad2_str_value(c % 100);
    assert(s == ip + seq!['.'] + fp);
    assert(s.len() == ip.len() + 1 + fp.len());
    assert(s[ip.len() as int] == '.');
    assert forall|j: int| 0 <= j < ip.len() implies s[j] != '.' by {
        assert(s[j] == ip[j]);
        assert(is_digit(ip[j]));
    }
    lemma_dot_pos_at(s, ip.len() as int);
    assert(s.take(ip.len() as int) =~= ip);
    assert(s.skip(ip.len() as int + 1) =~= fp);
    assert(weight_plain_centi(s) == Some(dec_val(ip) * 100 + frac_centi(fp)));
    assert(dec_val(ip) * 100 + dec_val(fp) == c);
}

} // verus!
