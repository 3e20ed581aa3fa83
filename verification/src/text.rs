//! Small verified text utilities: string equality, decimal rendering of
//! integers, fixed-point weights, dates and times of day.

use vstd::prelude::*;
use crate::date::Date;
use crate::date::valid_date;

verus! {

/// The decimal digit character for `d` (0 to 9).
pub open spec fn digit_char(d: int) -> char {
    if d == 0 {
        '0'
    } else if d == 1 {
        '1'
    } else if d == 2 {
        '2'
    } else if d == 3 {
        '3'
    } else if d == 4 {
        '4'
    } else if d == 5 {
        '5'
    } else if d == 6 {
        '6'
    } else if d == 7 {
        '7'
    } else if d == 8 {
        '8'
    } else {
        '9'
    }
}

/// The decimal rendering of a nonnegative integer, without padding.
pub open spec fn dec_str(n: int) -> Seq<char>
    decreases n,
{
    if n < 10 {
        seq![digit_char(n)]
    } else {
        dec_str(n / 10) + seq![digit_char(n % 10)]
    }
}

/// The decimal rendering of `n`, left-padded with zeros to two characters.
pub open spec fn pad2_str(n: int) -> Seq<char> {
    if n < 10 {
        seq!['0'] + dec_str(n)
    } else {
        dec_str(n)
    }
}

/// A nonnegative year, left-padded with zeros to four characters.
pub open spec fn pad4_str(n: int) -> Seq<char> {
    if n < 10 {
        seq!['0', '0', '0'] + dec_str(n)
    } else if n < 100 {
        seq!['0', '0'] + dec_str(n)
    } else if n < 1000 {
        seq!['0'] + dec_str(n)
    } else {
        dec_str(n)
    }
}

/// A year with its sign, zero-padded to four digits as dates are usually
/// written.
pub open spec fn year_str(y: int) -> Seq<char> {
    if y < 0 {
        seq!['-'] + pad4_str(-y)
    } else {
        pad4_str(y)
    }
}

/// A date as `YYYY-MM-DD`.
pub open spec fn date_str(d: Date) -> Seq<char> {
    year_str(d.year as int) + seq!['-'] + pad2_str(d.month as int) + seq!['-'] + pad2_str(
        d.day as int,
    )
}

/// A time of day (seconds since midnight) as `HH:MM`.
pub open spec fn time_hm_str(secs: int) -> Seq<char> {
    pad2_str(secs / 3600) + seq![':'] + pad2_str((secs % 3600) / 60)
}

/// A weight in hundredths of a pound as a decimal with two fractional
/// digits, e.g. `110.00`.
pub open spec fn centi_str(c: int) -> Seq<char> {
    dec_str(c / 100) + seq!['.'] + pad2_str(c % 100)
}

/// Whether two string slices hold the same characters.
pub fn str_eq(a: &str, b: &str) -> (r: bool)
    ensures
        r == (a@ == b@),
{
    let la = a.unicode_len();
    let lb = b.unicode_len();
    if la != lb {
        return false;
    }
    let mut i: usize = 0;
    while i < la
        invariant
            la == a@.len(),
            lb == b@.len(),
            la == lb,
            i <= la,
            forall|j: int| 0 <= j < i ==> a@[j] == b@[j],
        decreases la - i,
    {
        if a.get_char(i) != b.get_char(i) {
            return false;
        }
        i = i + 1;
    }
    proof {
        assert(a@ =~= b@);
    }
    true
}

/// The one-character string for a decimal digit.
fn digit_str(d: u8) -> (r: &'static str)
    requires
        d < 10,
    ensures
        r@ == seq![digit_char(d as int)],
{
    match d {
        0 => {
            proof {
                reveal_strlit("0");
                assert("0"@ =~= seq!['0']);
            }
            "0"
        },
        1 => {
            proof {
                reveal_strlit("1");
                assert("1"@ =~= seq!['1']);
            }
            "1"
        },
        2 => {
            proof {
                reveal_strlit("2");
                assert("2"@ =~= seq!['2']);
            }
            "2"
        },
        3 => {
            proof {
                reveal_strlit("3");
                assert("3"@ =~= seq!['3']);
            }
            "3"
        },
        4 => {
            proof {
                reveal_strlit("4");
                assert("4"@ =~= seq!['4']);
            }
            "4"
        },
        5 => {
            proof {
                reveal_strlit("5");
                assert("5"@ =~= seq!['5']);
            }
            "5"
        },
        6 => {
            proof {
                reveal_strlit("6");
                assert("6"@ =~= seq!['6']);
            }
            "6"
        },
        7 => {
            proof {
                reveal_strlit("7");
                assert("7"@ =~= seq!['7']);
            }
            "7"
        },
        8 => {
            proof {
                reveal_strlit("8");
                assert("8"@ =~= seq!['8']);
            }
            "8"
        },
        _ => {
            proof {
                reveal_strlit("9");
                assert("9"@ =~= seq!['9']);
            }
            "9"
        },
    }
}

/// The decimal rendering of `n`.
pub fn u64_string(n: u64) -> (s: String)
    ensures
        s@ == dec_str(n as int),
    decreases n,
{
    if n < 10 {
        digit_str(n as u8).to_owned()
    } else {
        let mut s = u64_string(n / 10);
        s.append(digit_str((n % 10) as u8));
        s
    }
}

/// The decimal rendering of `n`, zero-padded to two characters.
pub fn pad2_string(n: u8) -> (s: String)
    requires
        n < 100,
    ensures
        s@ == pad2_str(n as int),
{
    if n < 10 {
        proof {
            reveal_strlit("0");
            assert("0"@ =~= seq!['0']);
        }
        let mut s = String::from_str("0");
        s.append(digit_str(n));
        s
    } else {
        u64_string(n as u64)
    }
}

/// The rendering of a year, zero-padded to four digits, with a sign for
/// years before year zero.
pub fn year_string(y: i32) -> (s: String)
    ensures
        s@ == year_str(y as int),
{
    let mag: u64 = if y < 0 {
        (-(y as i64)) as u64
    } else {
        y as u64
    };
    let digits = u64_string(mag);
    let prefix: &str = if mag < 10 {
        proof {
            reveal_strlit("000");
            assert("000"@ =~= seq!['0', '0', '0']);
        }
        "000"
    } else if mag < 100 {
        proof {
            reveal_strlit("00");
            assert("00"@ =~= seq!['0', '0']);
        }
        "00"
    } else if mag < 1000 {
        proof {
            reveal_strlit("0");
            assert("0"@ =~= seq!['0']);
        }
        "0"
    } else {
        proof {
            reveal_strlit("");
            assert(""@ =~= Seq::<char>::empty());
        }
        ""
    };
    let mut s = if y < 0 {
        proof {
            reveal_strlit("-");
            assert("-"@ =~= seq!['-']);
        }
        String::from_str("-")
    } else {
        String::new()
    };
    s.append(prefix);
    s.append(digits.as_str());
    s
}

/// A date as `YYYY-MM-DD`.
pub fn date_string(d: Date) -> (s: String)
    requires
        valid_date(d),
    ensures
        s@ == date_str(d),
{
    proof {
        reveal_strlit("-");
        assert("-"@ =~= seq!['-']);
    }
    let mut s = year_string(d.year);
    s.append("-");
    let m = pad2_string(d.month);
    s.append(m.as_str());
    s.append("-");
    let dd = pad2_string(d.day);
    s.append(dd.as_str());
    s
}

/// A time of day as `HH:MM`.
pub fn time_hm_string(secs: u32) -> (s: String)
    requires
        secs < 86400,
    ensures
        s@ == time_hm_str(secs as int),
{
    proof {
        reveal_strlit(":");
        assert(":"@ =~= seq![':']);
    }
    let h = (secs / 3600) as u8;
    let m = ((secs % 3600) / 60) as u8;
    let mut s = pad2_string(h);
    s.append(":");
    let ms = pad2_string(m);
    s.append(ms.as_str());
    s
}

/// A weight in hundredths of a pound, as a decimal with two fractional
/// digits.
pub fn centi_string(c: u32) -> (s: String)
    ensures
        s@ == centi_str(c as int),
{
    proof {
        reveal_strlit(".");
        assert("."@ =~= seq!['.']);
    }
    let mut s = u64_string((c / 100) as u64);
    s.append(".");
    let f = pad2_string((c % 100) as u8);
    s.append(f.as_str());
    s
}

} // verus!
