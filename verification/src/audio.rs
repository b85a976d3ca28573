//! The audio chain builder: per-piece trim and tempo filters, stream
//! offset and gain, and the tempo-chain decomposition that honors the
//! engine's [0.5, 2.0] limit on a single tempo step.

use vstd::prelude::*;
use vstd::string::*;
use crate::numtext::{pow2, spec_fact5, fact5, spec_micros6, micros6, spec_dec, u64_to_string};
use crate::timeline::TimelinePiece;
use crate::text::{views, push_string_arg};

verus! {

/// How many halvings bring `speed` (in millionths) down to the unit
/// range: the least `k` with `speed <= 2000000 * pow2(k)`.
pub open spec fn spec_tempo_ups(speed: nat) -> nat
    decreases speed,
{
    if speed <= 2000000 {
        0
    } else {
        1 + spec_tempo_ups((speed + 1) / 2)
    }
}

/// How many doublings bring `speed` (in millionths) up to the unit
/// range: the least `k` with `speed * pow2(k) >= 500000`.
pub open spec fn spec_tempo_downs(speed: nat) -> nat
    decreases (if speed >= 500000 {
        0nat
    } else {
        (500000 - speed) as nat
    }),
{
    if speed == 0 || speed >= 500000 {
        0
    } else {
        1 + spec_tempo_downs(2 * speed)
    }
}

/// `spec_tempo_ups` counts exactly the halvings needed.
pub proof fn lemma_tempo_ups_bounds(speed: nat)
    ensures
        speed <= 2000000 * pow2(spec_tempo_ups(speed)),
        spec_tempo_ups(speed) > 0 ==> speed > 2000000 * pow2((spec_tempo_ups(speed) - 1) as nat),
    decreases speed,
{
    if speed <= 2000000 {
    } else {
        let c = (speed + 1) / 2;
        lemma_tempo_ups_bounds(c);
        let u = spec_tempo_ups(c);
        assert(pow2(u + 1) == 2 * pow2(u));
        assert(speed <= 2 * c);
        assert(2 * c <= 2 * (2000000 * pow2(u)));
        if u > 0 {
            assert(pow2(u) == 2 * pow2((u - 1) as nat));
            assert(c > 2000000 * pow2((u - 1) as nat));
            assert(speed >= 2 * c - 1);
        }
    }
}

/// `spec_tempo_downs` counts exactly the doublings needed.
pub proof fn lemma_tempo_downs_bounds(speed: nat)
    requires
        speed > 0,
    ensures
        speed * pow2(spec_tempo_downs(speed)) >= 500000 || spec_tempo_downs(speed) == 0,
        spec_tempo_downs(speed) > 0 ==> speed * pow2((spec_tempo_downs(speed) - 1) as nat)
            < 500000,
        speed >= 500000 ==> spec_tempo_downs(speed) == 0,
        speed < 500000 ==> speed * pow2(spec_tempo_downs(speed)) >= 500000,
        speed * pow2(spec_tempo_downs(speed)) < 1000000 || spec_tempo_downs(speed) == 0,
    decreases (if speed >= 500000 {
        0nat
    } else {
        (500000 - speed) as nat
    }),
{
    if speed >= 500000 {
    } else {
        let d = 2 * speed;
        lemma_tempo_downs_bounds(d);
        let u = spec_tempo_downs(d);
        assert(pow2(u + 1) == 2 * pow2(u)) by {
            assert(pow2(u + 1) == 2 * pow2(((u + 1) - 1) as nat));
        }
        assert(speed * pow2(u + 1) == d * pow2(u)) by (nonlinear_arith)
            requires d == 2 * speed && pow2(u + 1) == 2 * pow2(u);
        if u > 0 {
            assert(speed * pow2(u) == d * pow2((u - 1) as nat)) by (nonlinear_arith)
                requires d == 2 * speed && pow2(u) == 2 * pow2((u - 1) as nat);
        } else {
            assert(pow2(0) == 1);
            assert(speed * pow2(0nat) == speed) by (nonlinear_arith)
                requires pow2(0nat) == 1;
        }
        if d >= 500000 {
            assert(u == 0);
            assert(d * pow2(0nat) == d) by (nonlinear_arith)
                requires pow2(0nat) == 1;
            assert(speed * pow2(1nat) == d) by (nonlinear_arith)
                requires d == 2 * speed && pow2(1nat) == 2;
            assert(d < 1000000);
        }
    }
}

/// The textual tempo chain for one speed factor, `None` when the factor
/// is a no-op (zero, or within one hundredth of the unit).  A factor
/// above 2.0 is decomposed into `k` double steps and a residual; one
/// below 0.5 into `k` half steps and a residual; the residual is
/// rendered with five decimal places, rounding half up.
pub open spec fn spec_atempo_chain(speed: u64) -> Option<Seq<char>> {
    if spec_tempo_noop(speed) {
        None
    } else {
        Some(
            spec_tempo_prefix(spec_tempo_steps(speed), speed >= 500000) + "atempo="@
                + spec_fact5(spec_tempo_residual(speed)),
        )
    }
}

/// A speed that emits no tempo filter: zero, or within one hundredth of
/// the unit factor.
pub open spec fn spec_tempo_noop(speed: u64) -> bool {
    speed == 0 || (990000 < speed && speed < 1010000)
}

/// How many full double (or half) steps the chain for `speed` holds.
pub open spec fn spec_tempo_steps(speed: u64) -> nat {
    if speed > 2000000 {
        spec_tempo_ups(speed as nat)
    } else if speed < 500000 {
        spec_tempo_downs(speed as nat)
    } else {
        0
    }
}

/// The chain's final factor, in hundred-thousandths: the exact residual
/// `speed / 2^k` (or `speed * 2^k`), rounded half up to five decimal
/// places.
pub open spec fn spec_tempo_residual(speed: u64) -> nat {
    if speed > 2000000 {
        let d = 10 * pow2(spec_tempo_ups(speed as nat));
        (speed + d / 2) as nat / d
    } else if speed < 500000 {
        ((speed * pow2(spec_tempo_downs(speed as nat)) + 5) / 10) as nat
    } else {
        ((speed + 5) / 10) as nat
    }
}

/// `k` repetitions of the full double (or half) tempo step, each with a
/// trailing separator.
pub open spec fn spec_tempo_prefix(k: nat, up: bool) -> Seq<char>
    decreases k,
{
    if k == 0 {
        Seq::<char>::empty()
    } else {
        spec_tempo_prefix((k - 1) as nat, up) + if up {
            "atempo=2.0,"@
        } else {
            "atempo=0.5,"@
        }
    }
}

/// Decompose `speed` (millionths) into tempo filter steps within the
/// engine's [0.5, 2.0] range (exec mirror of [`spec_atempo_chain`]).
pub fn atempo_chain(speed: u64) -> (r: Option<String>)
    ensures
        r is Some <==> spec_atempo_chain(speed) is Some,
        r is Some ==> r.unwrap()@ == spec_atempo_chain(speed).unwrap(),
{
    if speed == 0 || (990000 < speed && speed < 1010000) {
        return None;
    }
    proof {
        assert(!spec_tempo_noop(speed));
    }
    let mut chain = String::new();
    let residual: u64;
    if speed > 2000000 {
        let mut cur: u64 = speed;
        let mut k: u64 = 0;
        let mut d: u128 = 10;
        proof {
            lemma_pow2_pos(0);
        }
        while cur > 2000000
            invariant
                cur > 0,
                cur <= speed,
                speed > 2000000,
                spec_tempo_ups(speed as nat) == k + spec_tempo_ups(cur as nat),
                d == 10 * pow2(k as nat),
                pow2(k as nat) <= speed,
                pow2(k as nat) >= k + 1,
                (speed as nat) > (cur - 1) * pow2(k as nat),
                chain@ == spec_tempo_prefix(k as nat, true),
            decreases cur,
        {
            let ghost p = pow2(k as nat);
            chain.append("atempo=2.0,");
            proof {
                lemma_pow2_pos(k as nat);
                assert(pow2((k + 1) as nat) == 2 * p);
                assert((cur - 1) * p >= 2000000 * p) by (nonlinear_arith)
                    requires cur >= 2000001 && p >= 1;
                assert(2000000 * p >= 2 * p);
                assert(pow2((k + 1) as nat) <= speed);
                assert(d * 2 == 10 * pow2((k + 1) as nat));
                assert(d <= 10 * (speed as nat)) by (nonlinear_arith)
                    requires d == 10 * p && p <= speed;
                let c2 = ((cur + 1) / 2) as nat;
                assert(2 * c2 <= cur + 1);
                assert((c2 - 1) * pow2((k + 1) as nat) == (2 * c2 - 2) * p) by (nonlinear_arith)
                    requires pow2((k + 1) as nat) == 2 * p;
                assert((2 * c2 - 2) * p <= (cur - 1) * p) by (nonlinear_arith)
                    requires 2 * c2 <= cur + 1 && p >= 0;
                assert(c2 == cur as nat / 2 + cur as nat % 2);
            }
            let next = cur / 2 + cur % 2;
            proof {
                assert(next == (cur + 1) as nat / 2);
            }
            cur = next;
            k = k + 1;
            d = d * 2;
        }
        proof {
            assert(spec_tempo_ups(cur as nat) == 0);
            lemma_pow2_pos(k as nat);
            assert(d >= 10);
            assert(d <= 10 * (speed as nat)) by (nonlinear_arith)
                requires d == 10 * pow2(k as nat) && pow2(k as nat) <= speed;
        }
        let num: u128 = (speed as u128) + d / 2;
        proof {
            assert(num / d < 0x10000000000000000u128) by (nonlinear_arith)
                requires d >= 10 && num < 10 * 0x10000000000000000u128;
        }
        residual = (num / d) as u64;
    } else if speed < 500000 {
        let mut cur: u64 = speed;
        let mut k: u64 = 0;
        proof {
            assert(pow2(0nat) == 1);
            assert(speed * pow2(0nat) == speed) by (nonlinear_arith)
                requires pow2(0nat) == 1;
        }
        while cur < 500000
            invariant
                cur > 0,
                cur == speed * pow2(k as nat),
                spec_tempo_downs(speed as nat) == k + spec_tempo_downs(cur as nat),
                cur < 1000000,
                pow2(k as nat) >= k + 1,
                chain@ == spec_tempo_prefix(k as nat, false),
            decreases (if cur < 500000 { 500000 - cur } else { 0int }),
        {
            chain.append("atempo=0.5,");
            proof {
                assert(pow2((k + 1) as nat) == 2 * pow2(k as nat));
                assert(speed * pow2((k + 1) as nat) == 2 * (speed * pow2(k as nat)))
                    by (nonlinear_arith)
                    requires pow2((k + 1) as nat) == 2 * pow2(k as nat);
                assert(pow2(k as nat) <= cur) by (nonlinear_arith)
                    requires cur == speed * pow2(k as nat) && speed >= 1 && pow2(k as nat) >= 0;
            }
            cur = cur * 2;
            k = k + 1;
        }
        proof {
            assert(spec_tempo_downs(cur as nat) == 0);
        }
        residual = (cur + 5) / 10;
    } else {
        residual = (speed + 5) / 10;
        proof {
            assert(chain@ == spec_tempo_prefix(0, true));
        }
    }
    chain.append("atempo=");
    chain.append(fact5(residual).as_str());
    Some(chain)
}

/// The triple-speed rendering law: a speed of exactly three times the
/// unit renders its presentation-timestamp divisor as `3.000000` and
/// its tempo chain as exactly `atempo=2.0,atempo=1.50000` — one full
/// double step and a residual of one and a half.  The per-piece filter
/// contracts embed both texts verbatim, so every piece at this speed
/// carries them whatever else the timeline holds.
pub proof fn lemma_triple_speed_rendering()
    ensures
        crate::numtext::spec_micros6(3000000) == "3.000000"@,
        spec_atempo_chain(3000000) == Some("atempo=2.0,atempo=1.50000"@),
{
    reveal_strlit("3.000000");
    reveal_strlit("atempo=2.0,atempo=1.50000");
    reveal_strlit(".");
    reveal_strlit("atempo=");
    reveal_strlit("atempo=2.0,");
    reveal_with_fuel(spec_tempo_ups, 3);
    reveal_with_fuel(pow2, 3);
    reveal_with_fuel(crate::numtext::spec_pad, 8);
    reveal_with_fuel(spec_dec, 3);
    reveal_with_fuel(spec_tempo_prefix, 2);
    assert(crate::numtext::spec_pad(0, 6) =~= seq!['0', '0', '0', '0', '0', '0']);
    assert(spec_dec(3) =~= seq!['3']);
    assert(crate::numtext::spec_micros6(3000000) =~= "3.000000"@);
    assert(spec_tempo_ups(3000000) == 1) by {
        assert((3000000 + 1) / 2 == 1500000);
        assert(spec_tempo_ups(1500000) == 0);
    }
    assert(pow2(1) == 2);
    assert(spec_tempo_residual(3000000) == 150000) by {
        assert((10 * pow2(1)) / 2 == 10);
        assert((3000000 + 10) as nat / 20 == 150000);
    }
    assert(spec_dec(1) =~= seq!['1']);
    assert(crate::numtext::spec_pad(50000, 5) =~= seq!['5', '0', '0', '0', '0']);
    assert(spec_fact5(150000) =~= seq!['1', '.', '5', '0', '0', '0', '0']);
    assert(spec_tempo_prefix(1, true) =~= "atempo=2.0,"@);
    assert(!spec_tempo_noop(3000000));
    assert(spec_atempo_chain(3000000).unwrap() =~= "atempo=2.0,atempo=1.50000"@);
    assert(spec_atempo_chain(3000000) == Some("atempo=2.0,atempo=1.50000"@));
}

pub proof fn lemma_pow2_pos(k: nat)
    ensures
        pow2(k) >= 1,
    decreases k,
{
    if k > 0 {
        lemma_pow2_pos((k - 1) as nat);
    }
}

// ---------------------------------------------------------------------
// Per-piece trim and tempo filters.
// ---------------------------------------------------------------------

/// The bracketed label of one audio piece: `[<prefix><idx>]`.
pub open spec fn spec_piece_label(prefix: Seq<char>, idx: nat) -> Seq<char> {
    "["@ + prefix + spec_dec(idx) + "]"@
}

/// The trim-and-tempo filter of one audio piece.
pub open spec fn spec_audio_piece_filter(
    input: Seq<char>,
    p: TimelinePiece,
    prefix: Seq<char>,
    idx: nat,
) -> Seq<char> {
    let base = input + "atrim=start="@ + spec_micros6(p.start as nat) + ":end="@ + spec_micros6(
        p.end as nat,
    ) + ",asetpts=PTS-STARTPTS"@;
    if spec_atempo_chain(p.speed) is Some {
        base + ","@ + spec_atempo_chain(p.speed).unwrap() + spec_piece_label(prefix, idx)
    } else {
        base + spec_piece_label(prefix, idx)
    }
}

/// The trim-and-tempo filters of a piece list, one per piece, in order.
pub open spec fn spec_audio_piece_filters(
    input: Seq<char>,
    pieces: Seq<TimelinePiece>,
    prefix: Seq<char>,
) -> Seq<Seq<char>>
    decreases pieces.len(),
{
    if pieces.len() == 0 {
        Seq::<Seq<char>>::empty()
    } else {
        spec_audio_piece_filters(input, pieces.drop_last(), prefix).push(
            spec_audio_piece_filter(input, pieces.last(), prefix, (pieces.len() - 1) as nat),
        )
    }
}

/// The piece labels `[<prefix>0]..[<prefix>n-1]`, joined.
pub open spec fn spec_labels_concat(prefix: Seq<char>, n: nat) -> Seq<char>
    decreases n,
{
    if n == 0 {
        Seq::<char>::empty()
    } else {
        spec_labels_concat(prefix, (n - 1) as nat) + spec_piece_label(prefix, (n - 1) as nat)
    }
}

/// A single piece starting at (or within a millisecond of) zero with a
/// speed within a hundredth of the unit passes the raw input through.
pub open spec fn spec_audio_passthrough(pieces: Seq<TimelinePiece>) -> bool {
    pieces.len() == 1 && pieces[0].start <= 1000 && 990000 < pieces[0].speed < 1010000
}

/// The concat node joining all piece labels into `[<prefix>out]`.
pub open spec fn spec_audio_concat_filter(prefix: Seq<char>, n: nat) -> Seq<char> {
    spec_labels_concat(prefix, n) + "concat=n="@ + spec_dec(n) + ":v=0:a=1"@ + "["@ + prefix
        + "out]"@
}

/// The filter list of the audio timeline of `pieces`.
pub open spec fn spec_audio_timeline_filters(
    input: Seq<char>,
    pieces: Seq<TimelinePiece>,
    prefix: Seq<char>,
) -> Seq<Seq<char>> {
    if spec_audio_passthrough(pieces) {
        Seq::<Seq<char>>::empty()
    } else if pieces.len() == 1 {
        spec_audio_piece_filters(input, pieces, prefix)
    } else {
        spec_audio_piece_filters(input, pieces, prefix).push(
            spec_audio_concat_filter(prefix, pieces.len()),
        )
    }
}

/// The label carrying the audio timeline's output.
pub open spec fn spec_audio_timeline_label(
    input: Seq<char>,
    pieces: Seq<TimelinePiece>,
    prefix: Seq<char>,
) -> Seq<char> {
    if spec_audio_passthrough(pieces) {
        input
    } else if pieces.len() == 1 {
        spec_piece_label(prefix, 0)
    } else {
        "["@ + prefix + "out]"@
    }
}

/// The bracketed label `[<prefix><idx>]` of one piece.
pub(crate) fn piece_label(prefix: &str, idx: usize) -> (r: String)
    ensures
        r@ == spec_piece_label(prefix@, idx as nat),
{
    let mut s = String::from_str("[");
    s.append(prefix);
    s.append(u64_to_string(idx as u64).as_str());
    s.append("]");
    s
}

/// The trim-and-tempo filter of one piece.
fn audio_piece_filter(input: &str, p: &TimelinePiece, prefix: &str, idx: usize) -> (r: String)
    ensures
        r@ == spec_audio_piece_filter(input@, *p, prefix@, idx as nat),
{
    let mut s = String::from_str(input);
    s.append("atrim=start=");
    s.append(micros6(p.start).as_str());
    s.append(":end=");
    s.append(micros6(p.end).as_str());
    s.append(",asetpts=PTS-STARTPTS");
    match atempo_chain(p.speed) {
        Some(chain) => {
            s.append(",");
            s.append(chain.as_str());
        },
        None => {},
    }
    s.append(piece_label(prefix, idx).as_str());
    proof {
        assert(s@ =~= spec_audio_piece_filter(input@, *p, prefix@, idx as nat));
    }
    s
}

/// Emits a trim filter (and tempo chain, when the speed calls for one)
/// per piece, concatenated into one labeled output when there is more
/// than one piece.  A lone piece covering the start of the stream at
/// unit speed passes the raw input label through without any filter.
pub fn build_audio_timeline_filter(
    input_label: &str,
    pieces: &Vec<TimelinePiece>,
    prefix: &str,
) -> (r: (Vec<String>, String))
    ensures
        views(r.0@) == spec_audio_timeline_filters(input_label@, pieces@, prefix@),
        r.1@ == spec_audio_timeline_label(input_label@, pieces@, prefix@),
{
    if pieces.len() == 1 {
        let piece = &pieces[0];
        if piece.start <= 1000 && 990000 < piece.speed && piece.speed < 1010000 {
            return (Vec::new(), String::from_str(input_label));
        }
    }
    let mut filters: Vec<String> = Vec::new();
    let mut labelcat = String::new();
    let mut i: usize = 0;
    while i < pieces.len()
        invariant
            i <= pieces.len(),
            views(filters@) == spec_audio_piece_filters(input_label@, pieces@.take(i as int), prefix@),
            labelcat@ == spec_labels_concat(prefix@, i as nat),
        decreases pieces.len() - i,
    {
        proof {
            assert(pieces@.take(i + 1).drop_last() =~= pieces@.take(i as int));
            assert(pieces@.take(i + 1).last() == pieces@[i as int]);
        }
        let f = audio_piece_filter(input_label, &pieces[i], prefix, i);
        push_string_arg(&mut filters, f);
        labelcat.append(piece_label(prefix, i).as_str());
        i = i + 1;
    }
    proof {
        assert(pieces@.take(pieces@.len() as int) =~= pieces@);
    }
    if pieces.len() == 1 {
        let label = piece_label(prefix, 0);
        return (filters, label);
    }
    let mut concat_filter = labelcat;
    concat_filter.append("concat=n=");
    concat_filter.append(u64_to_string(pieces.len() as u64).as_str());
    concat_filter.append(":v=0:a=1");
    let mut out_label = String::from_str("[");
    out_label.append(prefix);
    out_label.append("out]");
    concat_filter.append(out_label.as_str());
    push_string_arg(&mut filters, concat_filter);
    proof {
        assert(spec_audio_concat_filter(prefix@, pieces@.len() as nat) =~= spec_labels_concat(
            prefix@,
            pieces@.len() as nat,
        ) + "concat=n="@ + spec_dec(pieces@.len() as nat) + ":v=0:a=1"@ + ("["@ + prefix@
            + "out]"@));
        assert(out_label@ =~= "["@ + prefix@ + "out]"@);
    }
    (filters, out_label)
}

// ---------------------------------------------------------------------
// Stream offset and gain.
// ---------------------------------------------------------------------

/// The label `[<prefix>offset]`.
pub open spec fn spec_offset_label(prefix: Seq<char>) -> Seq<char> {
    "["@ + prefix + "offset]"@
}

/// The filter correcting a signed clock offset: a positive offset delays
/// both channels by that many milliseconds; a negative one trims that
/// many seconds from the start and resets timestamps.
pub open spec fn spec_offset_filter(input: Seq<char>, offset_ms: i64, prefix: Seq<char>) -> Seq<
    char,
> {
    if offset_ms > 0 {
        input + "adelay="@ + spec_dec(offset_ms as nat) + "|"@ + spec_dec(offset_ms as nat)
            + spec_offset_label(prefix)
    } else {
        input + "atrim=start="@ + spec_micros6((-offset_ms * 1000) as nat)
            + ",asetpts=PTS-STARTPTS"@ + spec_offset_label(prefix)
    }
}

/// Applies a signed millisecond offset to an audio stream; zero is a
/// passthrough.
pub fn apply_audio_offset(input_label: &str, offset_ms: i64, prefix: &str) -> (r: (
    Vec<String>,
    String,
))
    requires
        offset_ms >= -9223372036854775,
    ensures
        offset_ms == 0 ==> views(r.0@) == Seq::<Seq<char>>::empty() && r.1@ == input_label@,
        offset_ms != 0 ==> views(r.0@) == seq![
            spec_offset_filter(input_label@, offset_ms, prefix@),
        ] && r.1@ == spec_offset_label(prefix@),
{
    if offset_ms == 0 {
        proof {
            assert(views(Seq::<String>::empty()) =~= Seq::<Seq<char>>::empty());
        }
        return (Vec::new(), String::from_str(input_label));
    }
    let mut out_label = String::from_str("[");
    out_label.append(prefix);
    out_label.append("offset]");
    proof {
        assert(out_label@ =~= spec_offset_label(prefix@));
    }
    let mut filter = String::from_str(input_label);
    if offset_ms > 0 {
        let ms = u64_to_string(offset_ms as u64);
        filter.append("adelay=");
        filter.append(ms.as_str());
        filter.append("|");
        filter.append(ms.as_str());
        filter.append(out_label.as_str());
        proof {
            assert(filter@ =~= spec_offset_filter(input_label@, offset_ms, prefix@));
        }
    } else {
        let magnitude: u64 = ((-(offset_ms + 1)) as u64) + 1;
        filter.append("atrim=start=");
        filter.append(micros6(magnitude * 1000).as_str());
        filter.append(",asetpts=PTS-STARTPTS");
        filter.append(out_label.as_str());
        proof {
            assert(magnitude * 1000 == (-offset_ms * 1000) as nat);
            assert(filter@ =~= spec_offset_filter(input_label@, offset_ms, prefix@));
        }
    }
    let mut filters: Vec<String> = Vec::new();
    push_string_arg(&mut filters, filter);
    proof {
        assert(views(filters@) =~= seq![spec_offset_filter(input_label@, offset_ms, prefix@)]);
    }
    (filters, out_label)
}

/// The clamped gain, in thousandths, for a requested volume.
pub open spec fn spec_clamped_gain(volume: i64) -> u64 {
    if volume < 0 {
        0
    } else if volume > 2000 {
        2000
    } else {
        volume as u64
    }
}

/// A gain within a hundredth of the unit is not worth a filter node.
pub open spec fn spec_gain_skipped(volume: i64) -> bool {
    990 < spec_clamped_gain(volume) < 1010
}

/// The volume filter applying the clamped gain with three decimals.
pub open spec fn spec_gain_filter(input: Seq<char>, volume: i64, out: Seq<char>) -> Seq<char> {
    input + "volume="@ + crate::numtext::spec_millis3(spec_clamped_gain(volume) as nat) + "["@
        + out + "]"@
}

/// Clamps `volume` (thousandths) to [0, 2] and emits a volume filter
/// unless the result is within a hundredth of the unit gain.
pub fn apply_audio_gain(
    filter_parts: &mut Vec<String>,
    input_label: String,
    volume: i64,
    output_label: &str,
) -> (r: String)
    ensures
        spec_gain_skipped(volume) ==> views(final(filter_parts)@) == views(old(filter_parts)@)
            && r@ == input_label@,
        !spec_gain_skipped(volume) ==> views(final(filter_parts)@) == views(old(filter_parts)@)
            .push(spec_gain_filter(input_label@, volume, output_label@)) && r@ == "["@
            + output_label@ + "]"@,
{
    let gain: u64 = if volume < 0 {
        0
    } else if volume > 2000 {
        2000
    } else {
        volume as u64
    };
    if 990 < gain && gain < 1010 {
        return input_label;
    }
    let mut out = String::from_str("[");
    out.append(output_label);
    out.append("]");
    let mut filter = input_label;
    filter.append("volume=");
    filter.append(crate::numtext::millis3(gain).as_str());
    filter.append(out.as_str());
    proof {
        assert(filter@ =~= spec_gain_filter(input_label@, volume, output_label@));
    }
    push_string_arg(filter_parts, filter);
    out
}

/// The tempo-chain law: for every speed factor that emits a chain, each
/// emitted factor lies in the engine's [0.5, 2.0] range — the full steps
/// are exactly 2.0 (or 0.5), and the residual, in hundred-thousandths,
/// lies between 50000 and 200000 — and the factors multiply back to the
/// requested speed up to the rounding of the residual's last rendered
/// digit: with `k` full steps and residual `r`, the product of the chain
/// is `r/100000 * 2^k` (upward) or `r/100000 / 2^k` (downward), and it
/// differs from `speed/1000000` by at most `5*2^k` millionths upward
/// (at most one part in 200000 of the speed itself) and at most
/// `5/2^k` millionths downward.
pub proof fn lemma_tempo_chain_product(speed: u64)
    requires
        !spec_tempo_noop(speed),
    ensures
        50000 <= spec_tempo_residual(speed) <= 200000,
        speed >= 500000 ==> 10 * spec_tempo_residual(speed) * pow2(spec_tempo_steps(speed))
            <= speed + 5 * pow2(spec_tempo_steps(speed)),
        speed >= 500000 ==> speed <= 10 * spec_tempo_residual(speed) * pow2(
            spec_tempo_steps(speed),
        ) + 5 * pow2(spec_tempo_steps(speed)),
        speed >= 500000 && spec_tempo_steps(speed) > 0 ==> 1000000 * pow2(spec_tempo_steps(speed))
            < 2 * speed,
        speed < 500000 ==> 10 * spec_tempo_residual(speed) <= speed * pow2(
            spec_tempo_steps(speed),
        ) + 5,
        speed < 500000 ==> speed * pow2(spec_tempo_steps(speed)) <= 10 * spec_tempo_residual(
            speed,
        ) + 5,
{
    broadcast use vstd::arithmetic::div_mod::lemma_fundamental_div_mod;

    let k = spec_tempo_steps(speed);
    let r = spec_tempo_residual(speed);
    let p = pow2(k);
    lemma_pow2_pos(k);
    if speed > 2000000 {
        lemma_tempo_ups_bounds(speed as nat);
        let d = 10 * (p as int);
        assert(((10 * p) as nat) / 2 == 5 * p) by (nonlinear_arith);
        let num = (speed + 5 * p) as int;
        assert(r as int == num / d);
        assert(num == d * (num / d) + num % d);
        assert(0 <= num % d < d) by (nonlinear_arith)
            requires d > 0 && num >= 0;
        assert(d * r == num - num % d);
        assert(10 * r * p == d * r) by (nonlinear_arith)
            requires d == 10 * p;
        // upper and lower error bounds
        assert(10 * r * p <= speed + 5 * p);
        assert(speed <= 10 * r * p + 5 * p);
        // the residual stays within [1.0, 2.0] in this branch
        assert(speed <= 2000000 * p);
        assert(k > 0);
        assert(p == 2 * pow2((k - 1) as nat));
        assert(speed > 2000000 * pow2((k - 1) as nat));
        assert(1000000 * p == 2000000 * pow2((k - 1) as nat)) by (nonlinear_arith)
            requires p == 2 * pow2((k - 1) as nat);
        assert(1000000 * p < speed);
        assert(num <= 2000000 * p + 5 * p);
        assert(num / d <= (2000005 * p) / (10 * p)) by (nonlinear_arith)
            requires num <= 2000005 * p && d == 10 * p && p >= 1 && num >= 0;
        assert((2000005 * p) / (10 * p) == 200000) by (nonlinear_arith)
            requires p >= 1;
        assert(num >= 1000000 * p);
        assert(num / d >= (1000000 * p) / (10 * p)) by (nonlinear_arith)
            requires num >= 1000000 * p && d == 10 * p && p >= 1;
        assert((1000000 * p) / (10 * p) == 100000) by (nonlinear_arith)
            requires p >= 1;
    } else if speed < 500000 {
        lemma_tempo_downs_bounds(speed as nat);
        let m = (speed * p) as int;
        assert(r as int == (m + 5) / 10);
        assert(m + 5 == 10 * ((m + 5) / 10) + (m + 5) % 10);
        assert(0 <= (m + 5) % 10 < 10) by (nonlinear_arith)
            requires m + 5 >= 0;
        assert(10 * r <= m + 5);
        assert(m <= 10 * r + 5);
        assert(k > 0) by {
            if k == 0 {
                assert(pow2(0nat) == 1);
                assert(speed * pow2(0nat) == speed) by (nonlinear_arith)
                    requires pow2(0nat) == 1;
            }
        }
        assert(500000 <= m < 1000000);
        assert(50000 <= r <= 100000);
    } else {
        assert(k == 0);
        assert(r == (speed + 5) as nat / 10);
        assert(r as int == ((speed + 5) as int) / 10);
        assert(pow2(0nat) == 1);
        assert(50000 <= r <= 200000);
        assert(10 * r * 1 == 10 * r) by (nonlinear_arith);
        let num = (speed + 5) as int;
        assert(num == 10 * (num / 10) + num % 10);
        assert(0 <= num % 10 < 10) by (nonlinear_arith)
            requires num >= 0;
        assert(10 * r <= speed + 5);
        assert(speed <= 10 * r + 5);
        assert(10 * r * pow2(0nat) == 10 * r) by (nonlinear_arith)
            requires pow2(0nat) == 1;
        assert(5 * pow2(0nat) == 5) by (nonlinear_arith)
            requires pow2(0nat) == 1;
    }
}

} // verus!
