//! Decimal rendering of the fixed-point quantities used throughout the
//! crate: times in microseconds, factors in millionths, volumes in
//! thousandths.  Each renderer is specified against a small recursive
//! spec function over character sequences.

use vstd::prelude::*;
use vstd::string::*;

verus! {

/// The decimal digit character for `d` (meaningful for `d < 10`).
pub open spec fn digit_char(d: nat) -> char {
    if d == 0 {
        '0'
    } else if d == 1 {
        '1'
    } else if d == 2 {
        '2'
    } else if d == 3 {
        '3'
    } else if d == 4 {
        '4'
    } else if d == 5 {
        '5'
    } else if d == 6 {
        '6'
    } else if d == 7 {
        '7'
    } else if d == 8 {
        '8'
    } else {
        '9'
    }
}

/// Decimal representation of `n`, most significant digit first, no sign,
/// no leading zeros (a single `'0'` for zero).
pub open spec fn spec_dec(n: nat) -> Seq<char>
    decreases n,
{
    if n < 10 {
        seq![digit_char(n)]
    } else {
        spec_dec(n / 10) + seq![digit_char(n % 10)]
    }
}

/// The last `width` decimal digits of `n`, zero padded on the left.
/// For `n < 10^width` this is the `width`-digit zero-padded rendering.
pub open spec fn spec_pad(n: nat, width: nat) -> Seq<char>
    decreases width,
{
    if width == 0 {
        Seq::<char>::empty()
    } else {
        spec_pad(n / 10, (width - 1) as nat) + seq![digit_char(n % 10)]
    }
}

/// Decimal representation of a signed number.
pub open spec fn spec_dec_i64(n: int) -> Seq<char> {
    if n >= 0 {
        spec_dec(n as nat)
    } else {
        "-"@ + spec_dec((-n) as nat)
    }
}

/// A count of microseconds rendered as seconds with exactly six decimal
/// places, as the engine's filter language expects.
pub open spec fn spec_micros6(us: nat) -> Seq<char> {
    spec_dec(us / 1000000) + "."@ + spec_pad(us % 1000000, 6)
}

/// A count of thousandths rendered with exactly three decimal places.
pub open spec fn spec_millis3(v: nat) -> Seq<char> {
    spec_dec(v / 1000) + "."@ + spec_pad(v % 1000, 3)
}

/// A signed count of thousandths rendered with three decimal places.
pub open spec fn spec_millis3_signed(v: int) -> Seq<char> {
    if v >= 0 {
        spec_millis3(v as nat)
    } else {
        "-"@ + spec_millis3((-v) as nat)
    }
}

/// A count of hundred-thousandths rendered with exactly five decimal
/// places (the tempo filter's residual factor).
pub open spec fn spec_fact5(v: nat) -> Seq<char> {
    spec_dec(v / 100000) + "."@ + spec_pad(v % 100000, 5)
}

/// A count of hundredths rendered with exactly two decimal places.
pub open spec fn spec_hundredths2(v: nat) -> Seq<char> {
    spec_dec(v / 100) + "."@ + spec_pad(v % 100, 2)
}

/// Two to the power `k`.
pub open spec fn pow2(k: nat) -> nat
    decreases k,
{
    if k == 0 {
        1
    } else {
        2 * pow2((k - 1) as nat)
    }
}

/// Ten to the power `w`.
pub open spec fn pow10(w: nat) -> nat
    decreases w,
{
    if w == 0 {
        1
    } else {
        10 * pow10((w - 1) as nat)
    }
}

/// The fractional digits `frac` (at most `width` of them), with trailing
/// zeros removed.
pub open spec fn spec_frac_trimmed(frac: nat, width: nat) -> Seq<char>
    decreases width,
{
    if width > 0 && frac % 10 == 0 {
        spec_frac_trimmed(frac / 10, (width - 1) as nat)
    } else {
        spec_pad(frac, width)
    }
}

/// A count of microseconds rendered the way the standard library displays
/// the equal floating-point number of seconds: no fraction when whole,
/// otherwise the fraction with trailing zeros removed.
pub open spec fn spec_display_micros(us: nat) -> Seq<char> {
    if us % 1000000 == 0 {
        spec_dec(us / 1000000)
    } else {
        spec_dec(us / 1000000) + "."@ + spec_frac_trimmed(us % 1000000, 6)
    }
}

/// A one-character string for the decimal digit `d`.
fn digit_str(d: u64) -> (s: &'static str)
    requires
        d < 10,
    ensures
        s@ == seq![digit_char(d as nat)],
{
    if d == 0 {
        proof { reveal_strlit("0"); }
        let s = "0";
        proof { assert(s@ =~= seq![digit_char(d as nat)]); }
        s
    } else if d == 1 {
        proof { reveal_strlit("1"); }
        let s = "1";
        proof { assert(s@ =~= seq![digit_char(d as nat)]); }
        s
    } else if d == 2 {
        proof { reveal_strlit("2"); }
        let s = "2";
        proof { assert(s@ =~= seq![digit_char(d as nat)]); }
        s
    } else if d == 3 {
        proof { reveal_strlit("3"); }
        let s = "3";
        proof { assert(s@ =~= seq![digit_char(d as nat)]); }
        s
    } else if d == 4 {
        proof { reveal_strlit("4"); }
        let s = "4";
        proof { assert(s@ =~= seq![digit_char(d as nat)]); }
        s
    } else if d == 5 {
        proof { reveal_strlit("5"); }
        let s = "5";
        proof { assert(s@ =~= seq![digit_char(d as nat)]); }
        s
    } else if d == 6 {
        proof { reveal_strlit("6"); }
        let s = "6";
        proof { assert(s@ =~= seq![digit_char(d as nat)]); }
        s
    } else if d == 7 {
        proof { reveal_strlit("7"); }
        let s = "7";
        proof { assert(s@ =~= seq![digit_char(d as nat)]); }
        s
    } else if d == 8 {
        proof { reveal_strlit("8"); }
        let s = "8";
        proof { assert(s@ =~= seq![digit_char(d as nat)]); }
        s
    } else {
        proof { reveal_strlit("9"); }
        let s = "9";
        proof { assert(s@ =~= seq![digit_char(d as nat)]); }
        s
    }
}

/// Renders `n` in decimal.
pub fn u64_to_string(n: u64) -> (s: String)
    ensures
        s@ == spec_dec(n as nat),
    decreases n,
{
    if n < 10 {
        String::from_str(digit_str(n))
    } else {
        let mut s = u64_to_string(n / 10);
        s.append(digit_str(n % 10));
        s
    }
}

/// Renders the last `width` decimal digits of `n`, zero padded.
pub fn u64_to_padded(n: u64, width: u64) -> (s: String)
    ensures
        s@ == spec_pad(n as nat, width as nat),
    decreases width,
{
    if width == 0 {
        String::new()
    } else {
        let mut s = u64_to_padded(n / 10, width - 1);
        s.append(digit_str(n % 10));
        s
    }
}

/// Renders a signed number in decimal.
pub fn i64_to_string(n: i64) -> (s: String)
    ensures
        s@ == spec_dec_i64(n as int),
{
    if n >= 0 {
        u64_to_string(n as u64)
    } else {
        let magnitude: u64 = ((-(n + 1)) as u64) + 1;
        let mut s = String::from_str("-");
        s.append(u64_to_string(magnitude).as_str());
        s
    }
}

/// Renders microseconds as seconds with six decimal places.
pub fn micros6(us: u64) -> (s: String)
    ensures
        s@ == spec_micros6(us as nat),
{
    let mut s = u64_to_string(us / 1000000);
    s.append(".");
    s.append(u64_to_padded(us % 1000000, 6).as_str());
    s
}

/// Renders thousandths with three decimal places.
pub fn millis3(v: u64) -> (s: String)
    ensures
        s@ == spec_millis3(v as nat),
{
    let mut s = u64_to_string(v / 1000);
    s.append(".");
    s.append(u64_to_padded(v % 1000, 3).as_str());
    s
}

/// Renders signed thousandths with three decimal places.
pub fn millis3_signed(v: i64) -> (s: String)
    ensures
        s@ == spec_millis3_signed(v as int),
{
    if v >= 0 {
        millis3(v as u64)
    } else {
        let magnitude: u64 = ((-(v + 1)) as u64) + 1;
        let mut s = String::from_str("-");
        s.append(millis3(magnitude).as_str());
        s
    }
}

/// Renders hundred-thousandths with five decimal places.
pub fn fact5(v: u64) -> (s: String)
    ensures
        s@ == spec_fact5(v as nat),
{
    let mut s = u64_to_string(v / 100000);
    s.append(".");
    s.append(u64_to_padded(v % 100000, 5).as_str());
    s
}

/// Renders hundredths with two decimal places.
pub fn hundredths2(v: u64) -> (s: String)
    ensures
        s@ == spec_hundredths2(v as nat),
{
    let mut s = u64_to_string(v / 100);
    s.append(".");
    s.append(u64_to_padded(v % 100, 2).as_str());
    s
}

/// Renders microseconds the way the standard library displays the equal
/// floating-point number of seconds.
pub fn display_micros(us: u64) -> (s: String)
    ensures
        s@ == spec_display_micros(us as nat),
{
    let whole: u64 = us / 1000000;
    let mut frac: u64 = us % 1000000;
    if frac == 0 {
        u64_to_string(whole)
    } else {
        proof {
            reveal_with_fuel(pow10, 7);
        }
        let mut width: u64 = 6;
        while frac % 10 == 0
            invariant
                frac > 0,
                width > 0,
                (frac as nat) < pow10(width as nat),
                spec_frac_trimmed(frac as nat, width as nat) == spec_frac_trimmed(
                    (us % 1000000) as nat,
                    6,
                ),
            decreases width,
        {
            proof {
                assert(frac == 10 * (frac / 10));
                assert(pow10(width as nat) == 10 * pow10((width - 1) as nat));
                assert(((frac / 10) as nat) < pow10((width - 1) as nat));
                assert(frac >= 10);
                if width == 1 {
                    assert(((frac / 10) as nat) < pow10(0));
                    assert(false);
                }
            }
            frac = frac / 10;
            width = width - 1;
        }
        let mut s = u64_to_string(whole);
        s.append(".");
        s.append(u64_to_padded(frac, width).as_str());
        s
    }
}

} // verus!
