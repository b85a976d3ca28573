//! Parsing of the external media engine's textual output: probe results
//! (dimensions, durations) and progress lines.  Numbers are parsed into
//! the crate's fixed-point scales; plain decimal notation is accepted,
//! and magnitudes beyond the microsecond scale are rejected.

use vstd::prelude::*;
use vstd::string::*;
use crate::error::AppError;
use crate::numtext::pow10;
use crate::text::{
    spec_trim, str_trim, spec_to_lower, to_ascii_lower, spec_is_whitespace, is_whitespace_char,
    spec_find, str_find, str_eq,
};

verus! {

/// Whether `c` is a decimal digit.
pub open spec fn spec_is_digit(c: char) -> bool {
    48 <= c as u32 <= 57
}

/// Whether every character of `s` is a decimal digit.
pub open spec fn spec_all_digits(s: Seq<char>) -> bool {
    forall|i: int| 0 <= i < s.len() ==> spec_is_digit(#[trigger] s[i])
}

/// The numeric value of a digit string, most significant first.
pub open spec fn spec_digits_val(s: Seq<char>) -> nat
    decreases s.len(),
{
    if s.len() == 0 {
        0
    } else {
        (spec_digits_val(s.drop_last()) * 10 + (s.last() as u32 - 48)) as nat
    }
}

/// A longer digit prefix never has a smaller value.
proof fn lemma_digits_prefix_le(s: Seq<char>, i: int)
    requires
        0 <= i <= s.len(),
        spec_all_digits(s),
    ensures
        spec_digits_val(s.take(i)) <= spec_digits_val(s),
    decreases s.len(),
{
    if i < s.len() {
        let prefix = s.drop_last();
        assert(spec_all_digits(prefix));
        assert(prefix.take(i) =~= s.take(i));
        lemma_digits_prefix_le(prefix, i);
        assert(spec_digits_val(s) == spec_digits_val(prefix) * 10 + (s.last() as u32 - 48));
    } else {
        assert(s.take(i) =~= s);
    }
}

/// The index of the first occurrence of `c` in `s`, if any.
pub open spec fn spec_index_of(s: Seq<char>, c: char) -> Option<nat>
    decreases s.len(),
{
    if s.len() == 0 {
        None
    } else if s[0] == c {
        Some(0nat)
    } else {
        match spec_index_of(s.drop_first(), c) {
            None => None,
            Some(k) => Some(k + 1),
        }
    }
}

/// The first occurrence of `c` in `s` (exec mirror of
/// [`spec_index_of`]).
fn index_of(s: &str, c: char) -> (r: Option<usize>)
    ensures
        match r {
            Some(i) => spec_index_of(s@, c) == Some(i as nat) && i < s@.len() && s@[i as int] == c,
            None => spec_index_of(s@, c) is None,
        },
{
    let n = s.unicode_len();
    let mut i: usize = 0;
    proof {
        assert(s@.skip(0) =~= s@);
    }
    while i < n
        invariant
            n == s@.len(),
            i <= n,
            spec_index_of(s@, c) matches Some(k) ==> spec_index_of(s@.skip(i as int), c) == Some(
                (k - i) as nat,
            ),
            spec_index_of(s@.skip(i as int), c) matches Some(k) ==> spec_index_of(s@, c) == Some(
                (k + i) as nat,
            ),
            spec_index_of(s@.skip(i as int), c) is None ==> spec_index_of(s@, c) is None,
        decreases n - i,
    {
        proof {
            assert(s@.skip(i as int)[0] == s@[i as int]);
            assert(s@.skip(i as int).drop_first() =~= s@.skip(i + 1));
        }
        if s.get_char(i) == c {
            return Some(i);
        }
        i = i + 1;
    }
    None
}

/// The whole-number bound the microsecond scale can hold.
pub open spec fn spec_micros_whole_limit() -> nat {
    18446744073708
}

/// The fractional digits (at most the first six) scaled to millionths.
pub open spec fn spec_frac_micros(f: Seq<char>) -> nat {
    if f.len() >= 6 {
        spec_digits_val(f.take(6))
    } else {
        spec_digits_val(f) * pow10((6 - f.len()) as nat)
    }
}

/// A plain decimal number parsed into millionths: an optional plus
/// sign, a whole part, and an optional fraction; `None` when the text
/// is not of that shape or the whole part exceeds the scale's bound.
pub open spec fn spec_parse_micros(s: Seq<char>) -> Option<nat> {
    let body = if s.len() > 0 && s[0] == '+' {
        s.drop_first()
    } else {
        s
    };
    let parts = match spec_index_of(body, '.') {
        None => (body, Seq::<char>::empty()),
        Some(i) => (body.take(i as int), body.skip(i as int + 1)),
    };
    if parts.0.len() > 0 && spec_all_digits(parts.0) && spec_all_digits(parts.1)
        && spec_digits_val(parts.0) <= spec_micros_whole_limit() {
        Some(spec_digits_val(parts.0) * 1000000 + spec_frac_micros(parts.1))
    } else {
        None
    }
}

/// Parses a digit run, accumulating its value; fails on a non-digit or
/// past the given bound.
fn parse_digits(s: &str, from: usize, to: usize, limit: u64) -> (r: Option<u64>)
    requires
        from <= to <= s@.len(),
        limit >= 9,
    ensures
        r matches Some(v) ==> spec_all_digits(s@.subrange(from as int, to as int)) && v
            == spec_digits_val(s@.subrange(from as int, to as int)) && v <= limit,
        r is None ==> !spec_all_digits(s@.subrange(from as int, to as int)) || spec_digits_val(
            s@.subrange(from as int, to as int),
        ) > limit,
{
    let ghost digits = s@.subrange(from as int, to as int);
    let mut acc: u64 = 0;
    let mut i: usize = from;
    while i < to
        invariant
            from <= i <= to <= s@.len(),
            digits == s@.subrange(from as int, to as int),
            spec_all_digits(digits.take(i - from)),
            acc == spec_digits_val(digits.take(i - from)),
            acc <= limit,
            9 <= limit,
        decreases to - i,
    {
        proof {
            assert(digits.take(i - from + 1).drop_last() =~= digits.take(i - from));
            assert(digits.take(i - from + 1).last() == s@[i as int]);
        }
        let c = s.get_char(i);
        let u = c as u32;
        if u < 48 || u > 57 {
            proof {
                assert(digits[i - from] == c);
                assert(!spec_is_digit(digits[i - from]));
            }
            return None;
        }
        let d = (u - 48) as u64;
        if acc > (limit - d) / 10 || acc * 10 > limit - d {
            proof {
                assert(spec_all_digits(digits.take(i - from + 1)));
                assert(spec_digits_val(digits.take(i - from + 1)) > limit);
                if spec_all_digits(digits) {
                    lemma_digits_prefix_le(digits, i - from + 1);
                    assert(spec_digits_val(digits) > limit);
                }
            }
            return None;
        }
        acc = acc * 10 + d;
        i = i + 1;
    }
    proof {
        assert(digits.take(to - from) =~= digits);
    }
    Some(acc)
}

/// Ten-to-the-power distributes over addition of exponents.
proof fn lemma_pow10_add(a: nat, b: nat)
    ensures
        pow10(a + b) == pow10(a) * pow10(b),
    decreases a,
{
    if a == 0 {
        assert(pow10(0nat) == 1);
    } else {
        lemma_pow10_add((a - 1) as nat, b);
        assert(pow10(a) == 10 * pow10((a - 1) as nat));
        assert(pow10(a + b) == 10 * pow10(((a + b) - 1) as nat));
        assert(pow10(((a + b) - 1) as nat) == pow10((a - 1) as nat) * pow10(b));
        assert(10 * (pow10((a - 1) as nat) * pow10(b)) == (10 * pow10((a - 1) as nat)) * pow10(b))
            by (nonlinear_arith);
    }
}

/// Ten-to-the-power grows with the exponent.
proof fn lemma_pow10_mono(a: nat, b: nat)
    requires
        a <= b,
    ensures
        pow10(a) <= pow10(b),
    decreases b,
{
    if a < b {
        lemma_pow10_mono(a, (b - 1) as nat);
        assert(pow10(b) == 10 * pow10((b - 1) as nat));
        lemma_pow10_pos((b - 1) as nat);
    }
}

proof fn lemma_pow10_pos(a: nat)
    ensures
        pow10(a) >= 1,
    decreases a,
{
    if a > 0 {
        lemma_pow10_pos((a - 1) as nat);
    }
}

/// The value of a digit string stays below ten to its length.
proof fn lemma_digits_val_bound(s: Seq<char>)
    requires
        spec_all_digits(s),
    ensures
        spec_digits_val(s) < pow10(s.len()),
    decreases s.len(),
{
    reveal_with_fuel(pow10, 2);
    if s.len() > 0 {
        let prefix = s.drop_last();
        assert(spec_all_digits(prefix));
        lemma_digits_val_bound(prefix);
        assert(pow10(s.len()) == 10 * pow10(prefix.len()));
        assert(s.last() as u32 - 48 <= 9);
    }
}

/// Parses a plain decimal number into millionths (exec mirror of
/// [`spec_parse_micros`]).
#[verifier::rlimit(100)]
pub fn parse_micros(s: &str) -> (r: Option<u64>)
    ensures
        r matches Some(v) ==> spec_parse_micros(s@) == Some(v as nat),
        r is None ==> spec_parse_micros(s@) is None,
{
    let n = s.unicode_len();
    let from: usize = if n > 0 && s.get_char(0) == '+' {
        1
    } else {
        0
    };
    let body = s.substring_char(from, n);
    proof {
        if s@.len() > 0 && s@[0] == '+' {
            assert(body@ =~= s@.drop_first());
        } else {
            assert(body@ =~= s@);
        }
    }
    let bn = body.unicode_len();
    let ghost parts = match spec_index_of(body@, '.') {
        None => (body@, Seq::<char>::empty()),
        Some(i) => (body@.take(i as int), body@.skip(i as int + 1)),
    };
    let dot = index_of(body, '.');
    let whole_end: usize = match dot {
        Some(i) => i,
        None => bn,
    };
    proof {
        assert(parts.0 =~= body@.subrange(0, whole_end as int));
    }
    if whole_end == 0 {
        return None;
    }
    let whole = match parse_digits(body, 0, whole_end, 18446744073708) {
        Some(v) => v,
        None => {
            return None;
        },
    };
    let mut frac: u64 = 0;
    match dot {
        Some(i) => {
            let fstart = i + 1;
            let fend: usize = if bn - fstart >= 6 {
                fstart + 6
            } else {
                bn
            };
            proof {
                assert(parts.1 =~= body@.subrange(fstart as int, bn as int));
                if parts.1.len() >= 6 {
                    assert(parts.1.take(6) =~= body@.subrange(fstart as int, fend as int));
                } else {
                    assert(parts.1 =~= body@.subrange(fstart as int, fend as int));
                }
            }
            match parse_digits(body, fstart, fend, 999999) {
                Some(v) => {
                    // every fractional digit past the sixth must still be a digit
                    let mut j: usize = fend;
                    let mut tail_ok = true;
                    while j < bn && tail_ok
                        invariant
                            fend <= j <= bn,
                            bn == body@.len(),
                            fstart <= fend,
                            tail_ok ==> forall|k: int|
                                fend <= k < j ==> spec_is_digit(#[trigger] body@[k]),
                            !tail_ok ==> j < bn && !spec_is_digit(body@[j as int]),
                        decreases bn - j + (if tail_ok { 1int } else { 0int }),
                    {
                        let c = body.get_char(j);
                        let u = c as u32;
                        if u < 48 || u > 57 {
                            tail_ok = false;
                        } else {
                            j = j + 1;
                        }
                    }
                    if !tail_ok {
                        proof {
                            assert(parts.1[j - fstart] == body@[j as int]);
                            assert(!spec_all_digits(parts.1));
                        }
                        return None;
                    }
                    proof {
                        assert forall|k: int| 0 <= k < parts.1.len() implies spec_is_digit(
                            #[trigger] parts.1[k],
                        ) by {
                            assert(parts.1[k] == body@[fstart + k]);
                            if fstart + k < fend {
                                assert(spec_is_digit(body@.subrange(fstart as int, fend as int)[k]));
                            }
                        }
                        assert(spec_all_digits(parts.1));
                    }
                    let width: usize = 6 - (fend - fstart);
                    proof {
                        lemma_digits_val_bound(body@.subrange(fstart as int, fend as int));
                        assert((v as nat) < pow10((6 - width) as nat));
                        assert(pow10(0nat) == 1);
                    }
                    let mut scaled: u64 = v;
                    let mut w: usize = 0;
                    proof {
                        assert(v * pow10(0nat) == v) by (nonlinear_arith)
                            requires pow10(0nat) == 1;
                    }
                    while w < width
                        invariant
                            w <= width,
                            width <= 6,
                            (v as nat) < pow10((6 - width) as nat),
                            scaled == v * pow10(w as nat),
                        decreases width - w,
                    {
                        proof {
                            assert(pow10((w + 1) as nat) == 10 * pow10(w as nat));
                            assert(v * pow10((w + 1) as nat) == 10 * (v * pow10(w as nat)))
                                by (nonlinear_arith)
                                requires pow10((w + 1) as nat) == 10 * pow10(w as nat);
                            lemma_pow10_add((6 - width) as nat, w as nat);
                            lemma_pow10_pos(w as nat);
                            assert((v as nat) * pow10(w as nat) < pow10((6 - width) as nat)
                                * pow10(w as nat)) by (nonlinear_arith)
                                requires (v as nat) < pow10((6 - width) as nat) && pow10(w as nat)
                                    >= 1;
                            lemma_pow10_mono(((6 - width) + w) as nat, 6);
                            assert(pow10(6nat) == 1000000) by {
                                reveal_with_fuel(pow10, 7);
                            }
                            assert(scaled < 1000000);
                        }
                        scaled = scaled * 10;
                        w = w + 1;
                    }
                    frac = scaled;
                    proof {
                        lemma_pow10_add((6 - width) as nat, width as nat);
                        lemma_pow10_pos(width as nat);
                        assert((v as nat) * pow10(width as nat) < pow10((6 - width) as nat)
                            * pow10(width as nat)) by (nonlinear_arith)
                            requires (v as nat) < pow10((6 - width) as nat) && pow10(width as nat)
                                >= 1;
                        assert(pow10(6nat) == 1000000) by {
                            reveal_with_fuel(pow10, 7);
                        }
                        assert(frac < 1000000);
                        if parts.1.len() >= 6 {
                            assert(width == 0);
                            assert(pow10(0nat) == 1);
                            assert(v * pow10(0nat) == v) by (nonlinear_arith)
                                requires pow10(0nat) == 1;
                            assert(frac == spec_frac_micros(parts.1));
                        } else {
                            assert(width == 6 - parts.1.len());
                            assert(frac == spec_frac_micros(parts.1));
                        }
                    }
                },
                None => {
                    proof {
                        let sub = body@.subrange(fstart as int, fend as int);
                        assert(!spec_all_digits(sub) || spec_digits_val(sub) > 999999);
                        if spec_all_digits(sub) {
                            lemma_digits_val_bound(sub);
                            assert(pow10(6) == 1000000) by {
                                reveal_with_fuel(pow10, 7);
                            }
                            assert(pow10(sub.len()) <= 1000000) by {
                                reveal_with_fuel(pow10, 7);
                                assert(sub.len() <= 6);
                            }
                        }
                        assert(!spec_all_digits(sub));
                        let k = choose|k: int| 0 <= k < sub.len() && !spec_is_digit(sub[k]);
                        assert(parts.1[k] == sub[k]);
                        assert(!spec_all_digits(parts.1));
                    }
                    return None;
                },
            }
        },
        None => {
            proof {
                assert(spec_digits_val(parts.1) == 0);
                assert(spec_frac_micros(parts.1) == 0);
            }
        },
    }
    proof {
        assert(spec_all_digits(Seq::<char>::empty()));
        assert(spec_parse_micros(s@) == Some((whole * 1000000 + frac) as nat));
    }
    Some(whole * 1000000 + frac)
}

/// Mirrors the standard integer parser: scans left to right, failing on
/// the first non-digit or on overflow past the 32-bit range.
pub open spec fn spec_parse_u32_loop(s: Seq<char>, acc: nat) -> Result<nat, Seq<char>>
    decreases s.len(),
{
    if s.len() == 0 {
        Ok(acc)
    } else if !spec_is_digit(s[0]) {
        Err("invalid digit found in string"@)
    } else if acc * 10 + (s[0] as u32 - 48) > 0xFFFFFFFF {
        Err("number too large to fit in target type"@)
    } else {
        spec_parse_u32_loop(s.drop_first(), (acc * 10 + (s[0] as u32 - 48)) as nat)
    }
}

/// A 32-bit unsigned integer parsed as the standard library parses it:
/// an optional plus sign and decimal digits, with the library's error
/// messages.
pub open spec fn spec_parse_u32(s: Seq<char>) -> Result<nat, Seq<char>> {
    let body = if s.len() > 0 && s[0] == '+' {
        s.drop_first()
    } else {
        s
    };
    if body.len() == 0 {
        Err("cannot parse integer from empty string"@)
    } else {
        spec_parse_u32_loop(body, 0)
    }
}

/// Parses a 32-bit unsigned integer (exec mirror of
/// [`spec_parse_u32`]).
pub fn parse_u32(s: &str) -> (r: Result<u32, &'static str>)
    ensures
        spec_parse_u32(s@) matches Ok(v) ==> r matches Ok(x) && x as nat == v,
        spec_parse_u32(s@) matches Err(m) ==> r matches Err(e) && e@ == m,
{
    let n = s.unicode_len();
    let from: usize = if n > 0 && s.get_char(0) == '+' {
        1
    } else {
        0
    };
    let body = s.substring_char(from, n);
    proof {
        if s@.len() > 0 && s@[0] == '+' {
            assert(body@ =~= s@.drop_first());
        } else {
            assert(body@ =~= s@);
        }
    }
    let bn = body.unicode_len();
    if bn == 0 {
        return Err("cannot parse integer from empty string");
    }
    let mut acc: u32 = 0;
    let mut i: usize = 0;
    proof {
        assert(body@.skip(0) =~= body@);
    }
    while i < bn
        invariant
            bn == body@.len(),
            bn > 0,
            i <= bn,
            body@ == (if s@.len() > 0 && s@[0] == '+' {
                s@.drop_first()
            } else {
                s@
            }),
            spec_parse_u32_loop(body@, 0) == spec_parse_u32_loop(body@.skip(i as int), acc as nat),
        decreases bn - i,
    {
        proof {
            assert(body@.skip(i as int)[0] == body@[i as int]);
            assert(body@.skip(i as int).drop_first() =~= body@.skip(i + 1));
        }
        let c = body.get_char(i);
        let u = c as u32;
        if u < 48 || u > 57 {
            return Err("invalid digit found in string");
        }
        let d = u - 48;
        if acc > (0xFFFFFFFFu32 - d) / 10 || acc * 10 > 0xFFFFFFFFu32 - d {
            proof {
                assert((acc as nat) * 10 + d > 0xFFFFFFFF);
            }
            return Err("number too large to fit in target type");
        }
        acc = acc * 10 + d;
        i = i + 1;
    }
    proof {
        assert(body@.skip(bn as int).len() == 0);
    }
    Ok(acc)
}

/// The probe's dimension line parsed as `WIDTHxHEIGHT`: the error
/// message for each way the text can fail, or the two positive sizes.
pub open spec fn spec_parse_dimensions(raw: Seq<char>) -> Result<(u32, u32), Seq<char>> {
    let t = spec_trim(raw);
    let wpart = match spec_index_of(t, 'x') {
        None => t,
        Some(i) => t.take(i as int),
    };
    let rest = match spec_index_of(t, 'x') {
        None => None,
        Some(i) => Some(t.skip(i as int + 1)),
    };
    match spec_parse_u32(spec_trim(wpart)) {
        Err(m) => Err("Invalid ffprobe width value: "@ + m),
        Ok(w) => match rest {
            None => Err("ffprobe did not return a video height"@),
            Some(r2) => {
                let hpart = match spec_index_of(r2, 'x') {
                    None => r2,
                    Some(j) => r2.take(j as int),
                };
                let extra = spec_index_of(r2, 'x') is Some;
                match spec_parse_u32(spec_trim(hpart)) {
                    Err(m) => Err("Invalid ffprobe height value: "@ + m),
                    Ok(h) => {
                        if extra {
                            Err("Invalid ffprobe dimensions format; expected WIDTHxHEIGHT"@)
                        } else if w == 0 || h == 0 {
                            Err("ffprobe returned non-positive video dimensions"@)
                        } else {
                            Ok((w as u32, h as u32))
                        }
                    },
                }
            },
        },
    }
}

/// Parses the probe's `WIDTHxHEIGHT` output (exec mirror of
/// [`spec_parse_dimensions`]).
pub fn parse_ffprobe_dimensions_output(raw: &str) -> (r: Result<(u32, u32), AppError>)
    ensures
        spec_parse_dimensions(raw@) matches Ok(d) ==> r matches Ok(x) && x == d,
        spec_parse_dimensions(raw@) matches Err(m) ==> (r matches Err(e) && e matches
            AppError::Message(em) && em@ == m),
{
    let t = str_trim(raw);
    let tn = t.unicode_len();
    let x1 = index_of(t, 'x');
    let wpart = match x1 {
        None => t,
        Some(i) => t.substring_char(0, i),
    };
    proof {
        if spec_index_of(t@, 'x') is Some {
            let i = spec_index_of(t@, 'x').unwrap();
            assert(t@.subrange(0, i as int) =~= t@.take(i as int));
        }
    }
    let w = match parse_u32(str_trim(wpart)) {
        Ok(v) => v,
        Err(e) => {
            let mut m = String::from_str("Invalid ffprobe width value: ");
            m.append(e);
            return Err(AppError::Message(m));
        },
    };
    let rest = match x1 {
        None => {
            return Err(
                AppError::Message(String::from_str("ffprobe did not return a video height")),
            );
        },
        Some(i) => t.substring_char(i + 1, tn),
    };
    proof {
        let i = spec_index_of(t@, 'x').unwrap();
        assert(t@.subrange(i as int + 1, tn as int) =~= t@.skip(i as int + 1));
    }
    let rn = rest.unicode_len();
    let x2 = index_of(rest, 'x');
    let hpart = match x2 {
        None => rest,
        Some(j) => rest.substring_char(0, j),
    };
    proof {
        if spec_index_of(rest@, 'x') is Some {
            let j = spec_index_of(rest@, 'x').unwrap();
            assert(rest@.subrange(0, j as int) =~= rest@.take(j as int));
        }
    }
    let h = match parse_u32(str_trim(hpart)) {
        Ok(v) => v,
        Err(e) => {
            let mut m = String::from_str("Invalid ffprobe height value: ");
            m.append(e);
            return Err(AppError::Message(m));
        },
    };
    if x2.is_some() {
        return Err(
            AppError::Message(
                String::from_str("Invalid ffprobe dimensions format; expected WIDTHxHEIGHT"),
            ),
        );
    }
    if w == 0 || h == 0 {
        return Err(
            AppError::Message(String::from_str("ffprobe returned non-positive video dimensions")),
        );
    }
    Ok((w, h))
}

/// The probe's duration output parsed into microseconds: empty or `N/A`
/// text, unparsable text, and a zero duration each fail with their own
/// message.
pub open spec fn spec_parse_duration_micros(raw: Seq<char>) -> Result<nat, Seq<char>> {
    let t = spec_trim(raw);
    if t.len() == 0 || spec_to_lower(t) == "n/a"@ {
        Err("ffprobe did not return a valid duration"@)
    } else {
        match spec_parse_micros(t) {
            None => Err("Invalid ffprobe duration value: invalid float literal"@),
            Some(v) => {
                if v == 0 {
                    Err("ffprobe returned a non-positive duration"@)
                } else {
                    Ok(v)
                }
            },
        }
    }
}

/// Parses the probe's duration output into microseconds (exec mirror of
/// [`spec_parse_duration_micros`]).
pub fn parse_ffprobe_duration_output(raw: &str) -> (r: Result<u64, AppError>)
    ensures
        spec_parse_duration_micros(raw@) matches Ok(v) ==> r matches Ok(x) && x as nat == v,
        spec_parse_duration_micros(raw@) matches Err(m) ==> (r matches Err(e) && e matches
            AppError::Message(em) && em@ == m),
{
    let t = str_trim(raw);
    let lowered = to_ascii_lower(t);
    if t.unicode_len() == 0 || str_eq(lowered.as_str(), "n/a") {
        return Err(AppError::Message(String::from_str("ffprobe did not return a valid duration")));
    }
    match parse_micros(t) {
        None => Err(
            AppError::Message(
                String::from_str("Invalid ffprobe duration value: invalid float literal"),
            ),
        ),
        Some(v) => {
            if v == 0 {
                Err(AppError::Message(String::from_str("ffprobe returned a non-positive duration")))
            } else {
                Ok(v)
            }
        },
    }
}

/// The recorder-side duration probe: `None` for empty, `N/A` or
/// unparsable text, otherwise the microseconds (zero allowed).
pub open spec fn spec_parse_duration_seconds(raw: Seq<char>) -> Option<nat> {
    let t = spec_trim(raw);
    if t.len() == 0 || spec_to_lower(t) == "n/a"@ {
        None
    } else {
        spec_parse_micros(t)
    }
}

/// Parses a duration probe leniently (exec mirror of
/// [`spec_parse_duration_seconds`]).
pub fn parse_ffprobe_duration_seconds(raw: &str) -> (r: Option<u64>)
    ensures
        spec_parse_duration_seconds(raw@) matches Some(v) ==> r matches Some(x) && x as nat == v,
        spec_parse_duration_seconds(raw@) is None ==> r is None,
{
    let t = str_trim(raw);
    let lowered = to_ascii_lower(t);
    if t.unicode_len() == 0 || str_eq(lowered.as_str(), "n/a") {
        return None;
    }
    parse_micros(t)
}

/// Whether the audio-stream probe's result names a stream: the probe
/// must have succeeded and printed a non-blank stream index.
pub fn probe_reports_audio_stream(probe_succeeded: bool, stdout: &str) -> (r: bool)
    ensures
        r == (probe_succeeded && spec_trim(stdout@).len() > 0),
{
    probe_succeeded && str_trim(stdout).unicode_len() > 0
}

// ---------------------------------------------------------------------
// Progress lines.
// ---------------------------------------------------------------------

/// How many leading non-whitespace characters `s` has.
pub open spec fn spec_token_len(s: Seq<char>) -> nat
    decreases s.len(),
{
    if s.len() > 0 && !spec_is_whitespace(s[0]) {
        1 + spec_token_len(s.drop_first())
    } else {
        0
    }
}

/// The first whitespace-delimited token of `s` (empty when none).
pub open spec fn spec_first_token(s: Seq<char>) -> Seq<char> {
    let t = crate::text::spec_trim_front(s);
    t.take(spec_token_len(t) as int)
}

/// The first whitespace-delimited token after position `from` (exec
/// mirror of [`spec_first_token`] on the tail).
fn first_token_from(line: &str, from: usize) -> (r: String)
    requires
        from <= line@.len(),
    ensures
        r@ == spec_first_token(line@.skip(from as int)),
{
    let n = line.unicode_len();
    let mut start: usize = from;
    proof {
        assert(line@.skip(from as int).skip(0) =~= line@.skip(from as int));
    }
    while start < n && is_whitespace_char(line.get_char(start))
        invariant
            n == line@.len(),
            from <= start <= n,
            crate::text::spec_trim_front(line@.skip(from as int)) == crate::text::spec_trim_front(
                line@.skip(start as int),
            ),
        decreases n - start,
    {
        proof {
            assert(line@.skip(start as int)[0] == line@[start as int]);
            assert(line@.skip(start as int).drop_first() =~= line@.skip(start + 1));
        }
        start = start + 1;
    }
    proof {
        if start < n {
            assert(line@.skip(start as int)[0] == line@[start as int]);
        }
        assert(crate::text::spec_trim_front(line@.skip(from as int)) == line@.skip(start as int));
    }
    let ghost t = line@.skip(start as int);
    let mut end: usize = start;
    proof {
        assert(t.skip(0) =~= t);
    }
    while end < n && !is_whitespace_char(line.get_char(end))
        invariant
            n == line@.len(),
            start <= end <= n,
            t == line@.skip(start as int),
            spec_token_len(t) == (end - start) + spec_token_len(t.skip((end - start) as int)),
        decreases n - end,
    {
        proof {
            assert(t.skip((end - start) as int)[0] == line@[end as int]);
            assert(t.skip((end - start) as int).drop_first() =~= t.skip((end + 1 - start) as int));
        }
        end = end + 1;
    }
    proof {
        if end < n {
            assert(t.skip((end - start) as int)[0] == line@[end as int]);
        }
        assert(spec_token_len(t.skip((end - start) as int)) == 0);
        assert(spec_token_len(t) == end - start);
        assert(line@.subrange(start as int, end as int) =~= t.take((end - start) as int));
    }
    String::from_str(line.substring_char(start, end))
}

/// A microsecond count taken from a `<key>=<number>` occurrence: the
/// number is a count of microseconds, its sub-microsecond fraction
/// dropped.
pub open spec fn spec_keyed_micros(line: Seq<char>, key: Seq<char>) -> Option<nat> {
    match spec_find(line, key) {
        None => None,
        Some(pos) => {
            match spec_parse_micros(spec_first_token(line.skip(pos as int + key.len()))) {
                None => None,
                Some(v) => Some(v / 1000000),
            }
        },
    }
}

/// The `HH:MM:SS[.frac]` shape parsed into microseconds; `None` unless
/// there are exactly three parseable parts (or the sum overflows the
/// scale).
pub open spec fn spec_hhmmss_micros(tok: Seq<char>) -> Option<nat> {
    match spec_index_of(tok, ':') {
        None => None,
        Some(i1) => {
            let hpart = tok.take(i1 as int);
            let r1 = tok.skip(i1 as int + 1);
            match spec_index_of(r1, ':') {
                None => None,
                Some(i2) => {
                    let mpart = r1.take(i2 as int);
                    let spart = r1.skip(i2 as int + 1);
                    if spec_index_of(spart, ':') is Some {
                        None
                    } else {
                        match (spec_parse_micros(hpart), spec_parse_micros(mpart),
                        spec_parse_micros(spart)) {
                            (Some(h), Some(m), Some(sec)) => {
                                if h * 3600 + m * 60 + sec <= 0xFFFFFFFFFFFFFFFF {
                                    Some(h * 3600 + m * 60 + sec)
                                } else {
                                    None
                                }
                            },
                            _ => None,
                        }
                    }
                },
            }
        },
    }
}

/// A microsecond count taken from a `<key>=<HH:MM:SS>` occurrence.
pub open spec fn spec_keyed_hhmmss(line: Seq<char>, key: Seq<char>) -> Option<nat> {
    match spec_find(line, key) {
        None => None,
        Some(pos) => spec_hhmmss_micros(spec_first_token(line.skip(pos as int + key.len()))),
    }
}

/// The progress the engine reports on one line, in microseconds: the
/// machine-readable `out_time_us=`/`out_time_ms=` keys (both counts of
/// microseconds), the `out_time=` clock, or the legacy `time=` clock of
/// the human status line, in that order.
pub open spec fn spec_parse_ffmpeg_progress(line: Seq<char>) -> Option<nat> {
    if spec_keyed_micros(line, "out_time_us="@) is Some {
        spec_keyed_micros(line, "out_time_us="@)
    } else if spec_keyed_micros(line, "out_time_ms="@) is Some {
        spec_keyed_micros(line, "out_time_ms="@)
    } else if spec_keyed_hhmmss(line, "out_time="@) is Some {
        spec_keyed_hhmmss(line, "out_time="@)
    } else {
        spec_keyed_hhmmss(line, "time="@)
    }
}

/// Parses the `HH:MM:SS[.frac]` clock into microseconds (exec mirror of
/// [`spec_hhmmss_micros`]).
fn parse_hhmmss(tok: &str) -> (r: Option<u64>)
    ensures
        spec_hhmmss_micros(tok@) matches Some(v) ==> r matches Some(x) && x as nat == v,
        spec_hhmmss_micros(tok@) is None ==> r is None,
{
    let n = tok.unicode_len();
    let i1 = match index_of(tok, ':') {
        Some(i) => i,
        None => {
            return None;
        },
    };
    let hpart = tok.substring_char(0, i1);
    let r1 = tok.substring_char(i1 + 1, n);
    proof {
        let gi1 = spec_index_of(tok@, ':').unwrap();
        assert(tok@.subrange(0, gi1 as int) =~= tok@.take(gi1 as int));
        assert(tok@.subrange(gi1 as int + 1, n as int) =~= tok@.skip(gi1 as int + 1));
    }
    let rn = r1.unicode_len();
    let i2 = match index_of(r1, ':') {
        Some(i) => i,
        None => {
            return None;
        },
    };
    let mpart = r1.substring_char(0, i2);
    let spart = r1.substring_char(i2 + 1, rn);
    proof {
        let gi2 = spec_index_of(r1@, ':').unwrap();
        assert(r1@.subrange(0, gi2 as int) =~= r1@.take(gi2 as int));
        assert(r1@.subrange(gi2 as int + 1, rn as int) =~= r1@.skip(gi2 as int + 1));
    }
    if index_of(spart, ':').is_some() {
        return None;
    }
    let h = match parse_micros(hpart) {
        Some(v) => v,
        None => {
            return None;
        },
    };
    let m = match parse_micros(mpart) {
        Some(v) => v,
        None => {
            return None;
        },
    };
    let sec = match parse_micros(spart) {
        Some(v) => v,
        None => {
            return None;
        },
    };
    let total: u128 = (h as u128) * 3600 + (m as u128) * 60 + (sec as u128);
    if total > 0xFFFFFFFFFFFFFFFFu128 {
        return None;
    }
    Some(total as u64)
}

/// A keyed microsecond count (exec mirror of [`spec_keyed_micros`]).
fn keyed_micros(line: &str, key: &str) -> (r: Option<u64>)
    ensures
        spec_keyed_micros(line@, key@) matches Some(v) ==> r matches Some(x) && x as nat == v,
        spec_keyed_micros(line@, key@) is None ==> r is None,
{
    let pos = match str_find(line, key) {
        Some(p) => p,
        None => {
            return None;
        },
    };
    let klen = key.unicode_len();
    let n = line.unicode_len();
    proof {
        lemma_find_in_range(line@, key@, pos as nat);
    }
    let tok = first_token_from(line, pos + klen);
    match parse_micros(tok.as_str()) {
        Some(v) => Some(v / 1000000),
        None => None,
    }
}

/// A keyed clock value (exec mirror of [`spec_keyed_hhmmss`]).
fn keyed_hhmmss(line: &str, key: &str) -> (r: Option<u64>)
    ensures
        spec_keyed_hhmmss(line@, key@) matches Some(v) ==> r matches Some(x) && x as nat == v,
        spec_keyed_hhmmss(line@, key@) is None ==> r is None,
{
    let pos = match str_find(line, key) {
        Some(p) => p,
        None => {
            return None;
        },
    };
    let klen = key.unicode_len();
    let n = line.unicode_len();
    proof {
        lemma_find_in_range(line@, key@, pos as nat);
    }
    let tok = first_token_from(line, pos + klen);
    parse_hhmmss(tok.as_str())
}

/// A found needle fits inside the haystack.
proof fn lemma_find_in_range(hay: Seq<char>, needle: Seq<char>, pos: nat)
    requires
        spec_find(hay, needle) == Some(pos),
    ensures
        pos + needle.len() <= hay.len(),
    decreases hay.len(),
{
    if needle.len() == 0 {
        assert(pos == 0);
    } else if hay.len() < needle.len() {
    } else if hay.take(needle.len() as int) == needle {
    } else {
        lemma_find_in_range(hay.drop_first(), needle, (pos - 1) as nat);
    }
}

/// Parse ffmpeg progress from a status line (exec mirror of
/// [`spec_parse_ffmpeg_progress`]).
pub fn parse_ffmpeg_progress(line: &str) -> (r: Option<u64>)
    ensures
        spec_parse_ffmpeg_progress(line@) matches Some(v) ==> r matches Some(x) && x as nat == v,
        spec_parse_ffmpeg_progress(line@) is None ==> r is None,
{
    match keyed_micros(line, "out_time_us=") {
        Some(v) => {
            return Some(v);
        },
        None => {},
    }
    match keyed_micros(line, "out_time_ms=") {
        Some(v) => {
            return Some(v);
        },
        None => {},
    }
    match keyed_hhmmss(line, "out_time=") {
        Some(v) => {
            return Some(v);
        },
        None => {},
    }
    keyed_hhmmss(line, "time=")
}

} // verus!
