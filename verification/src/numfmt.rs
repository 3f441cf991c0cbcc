//! Decimal rendering of integer quantities: plain decimal numbers,
//! zero-padded fields, and millisecond values written as seconds with a
//! three-digit fraction.

use vstd::prelude::*;
use vstd::string::StrSliceExecFns;
use vstd::string::StringExecFns;

verus! {

/// The character for one decimal digit.
pub open spec fn digit_char(d: nat) -> char {
    if d == 0 {
        '0'
    } else if d == 1 {
        '1'
    } else if d == 2 {
        '2'
    } else if d == 3 {
        '3'
    } else if d == 4 {
        '4'
    } else if d == 5 {
        '5'
    } else if d == 6 {
        '6'
    } else if d == 7 {
        '7'
    } else if d == 8 {
        '8'
    } else {
        '9'
    }
}

/// The decimal numeral of `n`, most significant digit first, no leading
/// zeros (the numeral of zero is "0").
pub open spec fn spec_dec(n: nat) -> Seq<char>
    decreases n,
{
    if n < 10 {
        seq![digit_char(n)]
    } else {
        spec_dec(n / 10) + seq![digit_char(n % 10)]
    }
}

/// The numeral of `n` padded with one leading zero to at least two digits.
pub open spec fn spec_pad2(n: nat) -> Seq<char> {
    if n < 10 {
        seq!['0', digit_char(n)]
    } else {
        spec_dec(n)
    }
}

/// The numeral of `n < 1000` padded with leading zeros to exactly three
/// digits.
pub open spec fn spec_pad3(n: nat) -> Seq<char> {
    seq![digit_char(n / 100), digit_char((n / 10) % 10), digit_char(n % 10)]
}

/// A millisecond count written as seconds with a three-digit fraction,
/// for example 2500 as "2.500".
pub open spec fn spec_secs(ms: nat) -> Seq<char> {
    spec_dec(ms / 1000) + seq!['.'] + spec_pad3(ms % 1000)
}

/// A millisecond count written as a clock timestamp
/// "HH:MM:SS<sep>mmm"; hours are padded to at least two digits and grow
/// beyond two when needed.
pub open spec fn spec_clock(ms: nat, sep: char) -> Seq<char> {
    spec_pad2(ms / 3600000) + seq![':'] + spec_pad2((ms / 60000) % 60) + seq![':'] + spec_pad2(
        (ms / 1000) % 60,
    ) + seq![sep] + spec_pad3(ms % 1000)
}

/// The one-character string for the decimal digit `d`.
pub fn digit_str(d: u64) -> (s: &'static str)
    requires
        d < 10,
    ensures
        s@ == seq![digit_char(d as nat)],
{
    let s: &'static str = if d == 0 {
        "0"
    } else if d == 1 {
        "1"
    } else if d == 2 {
        "2"
    } else if d == 3 {
        "3"
    } else if d == 4 {
        "4"
    } else if d == 5 {
        "5"
    } else if d == 6 {
        "6"
    } else if d == 7 {
        "7"
    } else if d == 8 {
        "8"
    } else {
        "9"
    };
    proof {
        reveal_strlit("0");
        reveal_strlit("1");
        reveal_strlit("2");
        reveal_strlit("3");
        reveal_strlit("4");
        reveal_strlit("5");
        reveal_strlit("6");
        reveal_strlit("7");
        reveal_strlit("8");
        reveal_strlit("9");
        assert(s@ =~= seq![digit_char(d as nat)]);
    }
    s
}

/// Renders `n` in decimal.
pub fn u64_to_dec(n: u64) -> (s: String)
    ensures
        s@ == spec_dec(n as nat),
    decreases n,
{
    if n < 10 {
        let s = String::from_str(digit_str(n));
        s
    } else {
        let mut s = u64_to_dec(n / 10);
        s.append(digit_str(n % 10));
        proof {
            assert(s@ =~= spec_dec(n as nat));
        }
        s
    }
}

/// Renders `n` in decimal, padded with one leading zero to at least two
/// digits.
pub fn u64_to_pad2(n: u64) -> (s: String)
    ensures
        s@ == spec_pad2(n as nat),
{
    if n < 10 {
        let mut s = String::from_str("0");
        s.append(digit_str(n));
        proof {
            reveal_strlit("0");
            assert(s@ =~= spec_pad2(n as nat));
        }
        s
    } else {
        u64_to_dec(n)
    }
}

/// Renders `n < 1000` as exactly three digits.
pub fn u64_to_pad3(n: u64) -> (s: String)
    requires
        n < 1000,
    ensures
        s@ == spec_pad3(n as nat),
{
    let mut s = String::from_str(digit_str(n / 100));
    s.append(digit_str((n / 10) % 10));
    s.append(digit_str(n % 10));
    proof {
        assert(s@ =~= spec_pad3(n as nat));
    }
    s
}

/// Renders a millisecond count as seconds with a three-digit fraction.
pub fn ms_to_secs(ms: u64) -> (s: String)
    ensures
        s@ == spec_secs(ms as nat),
{
    let mut s = u64_to_dec(ms / 1000);
    s.append(".");
    let frac = u64_to_pad3(ms % 1000);
    s.append(frac.as_str());
    proof {
        reveal_strlit(".");
        assert(s@ =~= spec_secs(ms as nat));
    }
    s
}

/// A millisecond count written as seconds the way a plain number is: no
/// fraction when it is whole, otherwise the fraction with trailing zeros
/// removed (2000 as "2", 2500 as "2.5").
pub open spec fn spec_secs_trimmed(ms: nat) -> Seq<char> {
    let f = ms % 1000;
    if f == 0 {
        spec_dec(ms / 1000)
    } else if f % 100 == 0 {
        spec_dec(ms / 1000) + seq!['.', digit_char(f / 100)]
    } else if f % 10 == 0 {
        spec_dec(ms / 1000) + seq!['.', digit_char(f / 100), digit_char((f / 10) % 10)]
    } else {
        spec_dec(ms / 1000) + seq!['.'] + spec_pad3(f)
    }
}

/// Renders a millisecond count as a plain seconds number; see
/// [`spec_secs_trimmed`].
pub fn ms_to_secs_trimmed(ms: u64) -> (s: String)
    ensures
        s@ == spec_secs_trimmed(ms as nat),
{
    let f = ms % 1000;
    let mut s = u64_to_dec(ms / 1000);
    if f == 0 {
        return s;
    }
    s.append(".");
    proof {
        reveal_strlit(".");
    }
    if f % 100 == 0 {
        s.append(digit_str(f / 100));
        proof {
            assert(s@ =~= spec_secs_trimmed(ms as nat));
        }
        s
    } else if f % 10 == 0 {
        s.append(digit_str(f / 100));
        s.append(digit_str((f / 10) % 10));
        proof {
            assert(s@ =~= spec_secs_trimmed(ms as nat));
        }
        s
    } else {
        let frac = u64_to_pad3(f);
        s.append(frac.as_str());
        proof {
            assert(s@ =~= spec_secs_trimmed(ms as nat));
        }
        s
    }
}

/// Renders a millisecond count as "HH:MM:SS<sep>mmm", where `sep` is the
/// one-character string between seconds and milliseconds.
pub fn ms_to_clock(ms: u64, sep: &str) -> (s: String)
    requires
        sep@.len() == 1,
    ensures
        s@ == spec_clock(ms as nat, sep@[0]),
{
    let mut s = u64_to_pad2(ms / 3600000);
    s.append(":");
    let m = u64_to_pad2((ms / 60000) % 60);
    s.append(m.as_str());
    s.append(":");
    let sec = u64_to_pad2((ms / 1000) % 60);
    s.append(sec.as_str());
    s.append(sep);
    let frac = u64_to_pad3(ms % 1000);
    s.append(frac.as_str());
    proof {
        reveal_strlit(":");
        assert(sep@ =~= seq![sep@[0]]);
        assert(s@ =~= spec_clock(ms as nat, sep@[0]));
    }
    s
}

} // verus!
