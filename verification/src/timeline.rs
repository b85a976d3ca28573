//! The timeline segmenter: merges enabled segments with the speed and
//! zoom effects into a gap-free, ordered list of [`TimelinePiece`]s and
//! decides whether the timeline is edited at all.

use vstd::prelude::*;
use crate::project::{Project, SpeedEffect, ZoomEffect, Segment};

verus! {

/// A zoom that is active over one piece: factor in millionths, offsets
/// from center in thousandths of a pixel.
#[derive(Debug, Clone)]
pub struct ActiveZoom {
    pub scale: u64,
    pub x: i64,
    pub y: i64,
}

/// A maximal sub-interval of one enabled segment on which speed and zoom
/// are constant.  Times in microseconds, speed in millionths.
#[derive(Debug, Clone)]
pub struct TimelinePiece {
    pub start: u64,
    pub end: u64,
    pub speed: u64,
    pub zoom: Option<ActiveZoom>,
}

// ---------------------------------------------------------------------
// Sorting segments by start time (stable) and breakpoints by value.
// ---------------------------------------------------------------------

/// Insert the pair `x` into `s` before the first element whose start
/// time exceeds `x`'s; after every element with an equal start time.
pub open spec fn insert_pair(x: (u64, u64), s: Seq<(u64, u64)>) -> Seq<(u64, u64)>
    decreases s.len(),
{
    if s.len() == 0 {
        seq![x]
    } else if x.0 < s[0].0 {
        seq![x] + s
    } else {
        seq![s[0]] + insert_pair(x, s.drop_first())
    }
}

/// Stable insertion sort of segment ranges by start time.
pub open spec fn sort_pairs(s: Seq<(u64, u64)>) -> Seq<(u64, u64)>
    decreases s.len(),
{
    if s.len() == 0 {
        Seq::<(u64, u64)>::empty()
    } else {
        insert_pair(s.last(), sort_pairs(s.drop_last()))
    }
}

/// Sorted ascending by start time.
pub open spec fn pairs_sorted(s: Seq<(u64, u64)>) -> bool {
    forall|i: int, j: int| 0 <= i <= j < s.len() ==> (#[trigger] s[i]).0 <= (#[trigger] s[j]).0
}

pub proof fn lemma_insert_pair_sorted(x: (u64, u64), s: Seq<(u64, u64)>)
    requires
        pairs_sorted(s),
    ensures
        pairs_sorted(insert_pair(x, s)),
        insert_pair(x, s).to_multiset() == s.to_multiset().insert(x),
        insert_pair(x, s).len() == s.len() + 1,
    decreases s.len(),
{
    broadcast use vstd::seq_lib::group_to_multiset_ensures;

    if s.len() == 0 {
        assert(insert_pair(x, s) =~= s.push(x));
    } else if x.0 < s[0].0 {
        let r = seq![x] + s;
        assert(r =~= s.insert(0, x));
        assert forall|i: int, j: int| 0 <= i <= j < r.len() implies (#[trigger] r[i]).0 <= (
        #[trigger] r[j]).0 by {
            if i == 0 && j > 0 {
                assert(r[j] == s[j - 1]);
                assert(s[0].0 <= s[j - 1].0);
            }
        }
    } else {
        let rest = s.drop_first();
        assert(forall|i: int, j: int|
            0 <= i <= j < rest.len() ==> (#[trigger] rest[i]).0 <= (#[trigger] rest[j]).0);
        lemma_insert_pair_sorted(x, rest);
        let ins = insert_pair(x, rest);
        let r = seq![s[0]] + ins;
        assert(insert_pair(x, s) == r);
        assert(s =~= rest.insert(0, s[0]));
        assert(r =~= ins.insert(0, s[0]));
        assert(r.to_multiset() =~= s.to_multiset().insert(x)) by {
            assert(r.to_multiset() == ins.to_multiset().insert(s[0]));
            assert(ins.to_multiset() == rest.to_multiset().insert(x));
            assert(s.to_multiset() == rest.to_multiset().insert(s[0]));
        }
        assert forall|i: int, j: int| 0 <= i <= j < r.len() implies (#[trigger] r[i]).0 <= (
        #[trigger] r[j]).0 by {
            if i == 0 && j > 0 {
                lemma_insert_pair_elements(x, rest, j - 1);
                assert(r[j] == ins[j - 1]);
            }
        }
    }
}

/// Every element of `insert_pair(x, s)` is either `x` or an element of `s`.
pub proof fn lemma_insert_pair_elements(x: (u64, u64), s: Seq<(u64, u64)>, k: int)
    requires
        0 <= k < insert_pair(x, s).len(),
    ensures
        insert_pair(x, s)[k] == x || exists|m: int| 0 <= m < s.len() && s[m] == insert_pair(x, s)[k],
    decreases s.len(),
{
    if s.len() == 0 {
    } else if x.0 < s[0].0 {
        if k > 0 {
            assert(insert_pair(x, s)[k] == s[k - 1]);
        }
    } else {
        if k == 0 {
            assert(insert_pair(x, s)[0] == s[0]);
        } else {
            let rest = s.drop_first();
            lemma_insert_pair_elements(x, rest, k - 1);
            assert(insert_pair(x, s)[k] == insert_pair(x, rest)[k - 1]);
            if insert_pair(x, rest)[k - 1] != x {
                let m = choose|m: int|
                    0 <= m < rest.len() && rest[m] == insert_pair(x, rest)[k - 1];
                assert(s[m + 1] == insert_pair(x, s)[k]);
            }
        }
    }
}

/// Insert the breakpoint `x` into `s` before the first larger element.
pub open spec fn insert_u64(x: u64, s: Seq<u64>) -> Seq<u64>
    decreases s.len(),
{
    if s.len() == 0 {
        seq![x]
    } else if x < s[0] {
        seq![x] + s
    } else {
        seq![s[0]] + insert_u64(x, s.drop_first())
    }
}

/// Insertion sort of breakpoints.
pub open spec fn sort_u64(s: Seq<u64>) -> Seq<u64>
    decreases s.len(),
{
    if s.len() == 0 {
        Seq::<u64>::empty()
    } else {
        insert_u64(s.last(), sort_u64(s.drop_last()))
    }
}

pub open spec fn u64_sorted(s: Seq<u64>) -> bool {
    forall|i: int, j: int| 0 <= i <= j < s.len() ==> #[trigger] s[i] <= #[trigger] s[j]
}

pub proof fn lemma_insert_u64_sorted(x: u64, s: Seq<u64>)
    requires
        u64_sorted(s),
    ensures
        u64_sorted(insert_u64(x, s)),
        insert_u64(x, s).to_multiset() == s.to_multiset().insert(x),
        insert_u64(x, s).len() == s.len() + 1,
    decreases s.len(),
{
    broadcast use vstd::seq_lib::group_to_multiset_ensures;

    if s.len() == 0 {
        assert(insert_u64(x, s) =~= s.push(x));
    } else if x < s[0] {
        let r = seq![x] + s;
        assert(r =~= s.insert(0, x));
        assert forall|i: int, j: int| 0 <= i <= j < r.len() implies #[trigger] r[i] <= #[trigger] r[j] by {
            if i == 0 && j > 0 {
                assert(r[j] == s[j - 1]);
                assert(s[0] <= s[j - 1]);
            }
        }
    } else {
        let rest = s.drop_first();
        assert(forall|i: int, j: int|
            0 <= i <= j < rest.len() ==> #[trigger] rest[i] <= #[trigger] rest[j]);
        lemma_insert_u64_sorted(x, rest);
        let ins = insert_u64(x, rest);
        let r = seq![s[0]] + ins;
        assert(insert_u64(x, s) == r);
        assert(s =~= rest.insert(0, s[0]));
        assert(r =~= ins.insert(0, s[0]));
        assert(r.to_multiset() =~= s.to_multiset().insert(x)) by {
            assert(r.to_multiset() == ins.to_multiset().insert(s[0]));
            assert(ins.to_multiset() == rest.to_multiset().insert(x));
            assert(s.to_multiset() == rest.to_multiset().insert(s[0]));
        }
        assert forall|i: int, j: int| 0 <= i <= j < r.len() implies #[trigger] r[i] <= #[trigger] r[j] by {
            if i == 0 && j > 0 {
                lemma_insert_u64_elements(x, rest, j - 1);
                assert(r[j] == ins[j - 1]);
            }
        }
    }
}

/// Every element of `insert_u64(x, s)` is either `x` or an element of `s`.
pub proof fn lemma_insert_u64_elements(x: u64, s: Seq<u64>, k: int)
    requires
        0 <= k < insert_u64(x, s).len(),
    ensures
        insert_u64(x, s)[k] == x || exists|m: int| 0 <= m < s.len() && s[m] == insert_u64(x, s)[k],
    decreases s.len(),
{
    if s.len() == 0 {
    } else if x < s[0] {
        if k > 0 {
            assert(insert_u64(x, s)[k] == s[k - 1]);
        }
    } else {
        if k == 0 {
            assert(insert_u64(x, s)[0] == s[0]);
        } else {
            let rest = s.drop_first();
            lemma_insert_u64_elements(x, rest, k - 1);
            assert(insert_u64(x, s)[k] == insert_u64(x, rest)[k - 1]);
            if insert_u64(x, rest)[k - 1] != x {
                let m = choose|m: int| 0 <= m < rest.len() && rest[m] == insert_u64(x, rest)[k - 1];
                assert(s[m + 1] == insert_u64(x, s)[k]);
            }
        }
    }
}

pub proof fn lemma_sort_u64_sorted(s: Seq<u64>)
    ensures
        u64_sorted(sort_u64(s)),
        sort_u64(s).to_multiset() == s.to_multiset(),
        sort_u64(s).len() == s.len(),
    decreases s.len(),
{
    broadcast use vstd::seq_lib::group_to_multiset_ensures;

    if s.len() == 0 {
        assert(sort_u64(s) =~= s);
    } else {
        let rest = s.drop_last();
        lemma_sort_u64_sorted(rest);
        lemma_insert_u64_sorted(s.last(), sort_u64(rest));
        assert(s =~= rest.push(s.last()));
    }
}

/// Removes repeated breakpoints: the result of folding the sequence from
/// the left, keeping an element only when it differs from the previous
/// kept one.
pub open spec fn spec_dedup(s: Seq<u64>) -> Seq<u64>
    decreases s.len(),
{
    if s.len() == 0 {
        Seq::<u64>::empty()
    } else {
        let rest = spec_dedup(s.drop_last());
        if rest.len() > 0 && rest.last() == s.last() {
            rest
        } else {
            rest.push(s.last())
        }
    }
}

pub open spec fn u64_strictly_sorted(s: Seq<u64>) -> bool {
    forall|i: int, j: int| 0 <= i < j < s.len() ==> #[trigger] s[i] < #[trigger] s[j]
}

/// Deduplicating a sorted breakpoint list yields a strictly increasing
/// list with the same members; a nonempty list keeps its first and last
/// elements.
pub proof fn lemma_dedup_sorted(s: Seq<u64>)
    requires
        u64_sorted(s),
    ensures
        u64_strictly_sorted(spec_dedup(s)),
        forall|x: u64| s.contains(x) <==> spec_dedup(s).contains(x),
        s.len() > 0 ==> spec_dedup(s).len() > 0 && spec_dedup(s).first() == s.first()
            && spec_dedup(s).last() == s.last(),
    decreases s.len(),
{
    if s.len() == 0 {
    } else {
        let butlast = s.drop_last();
        assert(u64_sorted(butlast));
        lemma_dedup_sorted(butlast);
        let rest = spec_dedup(butlast);
        let r = spec_dedup(s);
        assert forall|x: u64| s.contains(x) implies r.contains(x) by {
            let i = choose|i: int| 0 <= i < s.len() && s[i] == x;
            if i < s.len() - 1 {
                assert(butlast[i] == x);
                assert(butlast.contains(x));
                assert(rest.contains(x));
                let m = choose|m: int| 0 <= m < rest.len() && rest[m] == x;
                if rest.len() > 0 && rest.last() == s.last() {
                    assert(r[m] == x);
                } else {
                    assert(r[m] == x);
                }
            } else {
                if rest.len() > 0 && rest.last() == s.last() {
                    assert(r.last() == x);
                } else {
                    assert(r.last() == x);
                }
            }
        }
        assert forall|x: u64| r.contains(x) implies s.contains(x) by {
            let m = choose|m: int| 0 <= m < r.len() && r[m] == x;
            if rest.len() > 0 && rest.last() == s.last() {
                assert(rest.contains(x));
                assert(butlast.contains(x));
                let i = choose|i: int| 0 <= i < butlast.len() && butlast[i] == x;
                assert(s[i] == x);
            } else {
                if m < r.len() - 1 {
                    assert(rest[m] == x);
                    assert(rest.contains(x));
                    assert(butlast.contains(x));
                    let i = choose|i: int| 0 <= i < butlast.len() && butlast[i] == x;
                    assert(s[i] == x);
                } else {
                    assert(x == s.last());
                }
            }
        }
        if butlast.len() > 0 {
            // the last kept element never exceeds s.last(), which bounds all of rest
            assert forall|m: int| 0 <= m < rest.len() implies #[trigger] rest[m] <= s.last() by {
                assert(rest.contains(rest[m]));
                assert(butlast.contains(rest[m]));
                let i = choose|i: int| 0 <= i < butlast.len() && butlast[i] == rest[m];
                assert(s[i] <= s.last());
            }
            if rest.len() > 0 && rest.last() == s.last() {
            } else {
                assert forall|i: int, j: int| 0 <= i < j < r.len() implies #[trigger] r[i] < #[trigger] r[j] by {
                    if j < r.len() - 1 {
                        assert(r[i] == rest[i] && r[j] == rest[j]);
                    } else {
                        assert(r[j] == s.last());
                        assert(r[i] == rest[i]);
                        assert(rest[i] <= s.last());
                        assert(rest[i] != s.last()) by {
                            if rest[i] == s.last() {
                                assert(rest[i] <= rest.last());
                                assert(rest.last() <= s.last());
                                assert(rest.last() == s.last());
                            }
                        }
                    }
                }
            }
        } else {
            assert(r =~= seq![s.last()]);
        }
    }
}

pub proof fn lemma_sort_pairs_sorted(s: Seq<(u64, u64)>)
    ensures
        pairs_sorted(sort_pairs(s)),
        sort_pairs(s).to_multiset() == s.to_multiset(),
        sort_pairs(s).len() == s.len(),
    decreases s.len(),
{
    broadcast use vstd::seq_lib::group_to_multiset_ensures;

    if s.len() == 0 {
        assert(sort_pairs(s) =~= s);
    } else {
        let rest = s.drop_last();
        lemma_sort_pairs_sorted(rest);
        lemma_insert_pair_sorted(s.last(), sort_pairs(rest));
        assert(s =~= rest.push(s.last()));
    }
}

/// Where `insert_pair` puts `x`: at the first index whose start time
/// exceeds `x`'s.
pub proof fn lemma_insert_pair_position(x: (u64, u64), s: Seq<(u64, u64)>, pos: int)
    requires
        0 <= pos <= s.len(),
        forall|k: int| 0 <= k < pos ==> (#[trigger] s[k]).0 <= x.0,
        pos < s.len() ==> x.0 < s[pos].0,
    ensures
        insert_pair(x, s) == s.insert(pos, x),
    decreases s.len(),
{
    if s.len() == 0 {
        assert(insert_pair(x, s) =~= s.insert(0, x));
    } else if x.0 < s[0].0 {
        assert(pos == 0) by {
            if pos > 0 {
                assert(s[0].0 <= x.0);
            }
        }
        assert(insert_pair(x, s) =~= s.insert(0, x));
    } else {
        assert(pos >= 1);
        let rest = s.drop_first();
        lemma_insert_pair_position(x, rest, pos - 1);
        assert(seq![s[0]] + rest.insert(pos - 1, x) =~= s.insert(pos, x));
    }
}

// ---------------------------------------------------------------------
// Enabled segments.
// ---------------------------------------------------------------------

/// The `(start, end)` ranges of the enabled segments, in authored order.
pub open spec fn spec_enabled_pairs(s: Seq<Segment>) -> Seq<(u64, u64)>
    decreases s.len(),
{
    if s.len() == 0 {
        Seq::<(u64, u64)>::empty()
    } else {
        spec_enabled_pairs(s.drop_last()) + if s.last().enabled {
            seq![(s.last().start_time, s.last().end_time)]
        } else {
            Seq::<(u64, u64)>::empty()
        }
    }
}

/// The enabled segment ranges, padded with the full recording when none
/// is enabled, sorted ascending by start time (stable).
pub open spec fn spec_enabled_segments(p: Project) -> Seq<(u64, u64)> {
    let pairs = spec_enabled_pairs(p.edits.segments@);
    let padded = if pairs.len() == 0 {
        seq![(0u64, p.duration)]
    } else {
        pairs
    };
    sort_pairs(padded)
}

/// The enabled segments, sorted ascending by start time; the whole
/// recording when no segment is enabled.  The result is never empty.
pub fn enabled_segments(project: &Project) -> (r: Vec<(u64, u64)>)
    ensures
        r@ == spec_enabled_segments(*project),
        r@.len() > 0,
        pairs_sorted(r@),
{
    let segs = &project.edits.segments;
    let mut raw: Vec<(u64, u64)> = Vec::new();
    let mut i: usize = 0;
    while i < segs.len()
        invariant
            i <= segs.len(),
            raw@ == spec_enabled_pairs(segs@.take(i as int)),
        decreases segs.len() - i,
    {
        proof {
            assert(segs@.take(i + 1).drop_last() =~= segs@.take(i as int));
            assert(segs@.take(i + 1).last() == segs@[i as int]);
        }
        let seg = &segs[i];
        if seg.enabled {
            raw.push((seg.start_time, seg.end_time));
        }
        i = i + 1;
    }
    proof {
        assert(segs@.take(segs@.len() as int) =~= segs@);
    }
    if raw.len() == 0 {
        raw.push((0, project.duration));
    }
    let ghost padded = raw@;
    let mut sorted: Vec<(u64, u64)> = Vec::new();
    let mut i: usize = 0;
    while i < raw.len()
        invariant
            i <= raw.len(),
            raw@ == padded,
            sorted@ == sort_pairs(padded.take(i as int)),
        decreases raw.len() - i,
    {
        let x = raw[i];
        let mut pos: usize = 0;
        while pos < sorted.len() && sorted[pos].0 <= x.0
            invariant
                pos <= sorted.len(),
                forall|k: int| 0 <= k < pos ==> (#[trigger] sorted@[k]).0 <= x.0,
            decreases sorted.len() - pos,
        {
            pos = pos + 1;
        }
        proof {
            lemma_insert_pair_position(x, sorted@, pos as int);
            assert(padded.take(i + 1).drop_last() =~= padded.take(i as int));
            assert(padded.take(i + 1).last() == padded[i as int]);
        }
        sorted.insert(pos, x);
        i = i + 1;
    }
    proof {
        assert(padded.take(padded.len() as int) =~= padded);
        lemma_sort_pairs_sorted(padded);
    }
    sorted
}

/// The sorted list of enabled segments is never empty, keeps exactly the
/// enabled ranges (or the full-recording fallback), and is ordered by
/// start time.
pub proof fn lemma_enabled_segments_ordered(p: Project)
    ensures
        spec_enabled_segments(p).len() > 0,
        pairs_sorted(spec_enabled_segments(p)),
        spec_enabled_pairs(p.edits.segments@).len() > 0 ==> spec_enabled_segments(p).to_multiset()
            == spec_enabled_pairs(p.edits.segments@).to_multiset(),
{
    let pairs = spec_enabled_pairs(p.edits.segments@);
    if pairs.len() == 0 {
        lemma_sort_pairs_sorted(seq![(0u64, p.duration)]);
    } else {
        lemma_sort_pairs_sorted(pairs);
    }
}

// ---------------------------------------------------------------------
// Breakpoints and pieces.
// ---------------------------------------------------------------------

/// Where `insert_u64` puts `x`: at the first index whose value exceeds `x`.
pub proof fn lemma_insert_u64_position(x: u64, s: Seq<u64>, pos: int)
    requires
        0 <= pos <= s.len(),
        forall|k: int| 0 <= k < pos ==> #[trigger] s[k] <= x,
        pos < s.len() ==> x < s[pos],
    ensures
        insert_u64(x, s) == s.insert(pos, x),
    decreases s.len(),
{
    if s.len() == 0 {
        assert(insert_u64(x, s) =~= s.insert(0, x));
    } else if x < s[0] {
        assert(pos == 0) by {
            if pos > 0 {
                assert(s[0] <= x);
            }
        }
        assert(insert_u64(x, s) =~= s.insert(0, x));
    } else {
        assert(pos >= 1);
        let rest = s.drop_first();
        lemma_insert_u64_position(x, rest, pos - 1);
        assert(seq![s[0]] + rest.insert(pos - 1, x) =~= s.insert(pos, x));
    }
}

/// The boundaries of the speed effects that fall strictly inside the
/// segment `(s, e)`, in authored order, starts before ends per effect.
pub open spec fn spec_speed_points(effects: Seq<SpeedEffect>, s: u64, e: u64) -> Seq<u64>
    decreases effects.len(),
{
    if effects.len() == 0 {
        Seq::<u64>::empty()
    } else {
        let last = effects.last();
        spec_speed_points(effects.drop_last(), s, e) + (if s < last.start_time && last.start_time
            < e {
            seq![last.start_time]
        } else {
            Seq::<u64>::empty()
        }) + (if s < last.end_time && last.end_time < e {
            seq![last.end_time]
        } else {
            Seq::<u64>::empty()
        })
    }
}

/// The boundaries of the zoom effects that fall strictly inside `(s, e)`.
pub open spec fn spec_zoom_points(effects: Seq<ZoomEffect>, s: u64, e: u64) -> Seq<u64>
    decreases effects.len(),
{
    if effects.len() == 0 {
        Seq::<u64>::empty()
    } else {
        let last = effects.last();
        spec_zoom_points(effects.drop_last(), s, e) + (if s < last.start_time && last.start_time
            < e {
            seq![last.start_time]
        } else {
            Seq::<u64>::empty()
        }) + (if s < last.end_time && last.end_time < e {
            seq![last.end_time]
        } else {
            Seq::<u64>::empty()
        })
    }
}

/// The breakpoints of one segment: its bounds plus every effect boundary
/// strictly inside it, sorted and with duplicates removed.
pub open spec fn spec_breakpoints(
    s: u64,
    e: u64,
    speed: Seq<SpeedEffect>,
    zoom: Seq<ZoomEffect>,
) -> Seq<u64> {
    spec_dedup(sort_u64(seq![s, e] + spec_speed_points(speed, s, e) + spec_zoom_points(zoom, s, e)))
}

/// The speed in force at `t`: that of the first speed effect whose range
/// contains `t`, the unit speed when none does.
pub open spec fn spec_speed_at(effects: Seq<SpeedEffect>, t: u64) -> u64
    decreases effects.len(),
{
    if effects.len() == 0 {
        1000000
    } else if effects[0].start_time <= t && t < effects[0].end_time {
        effects[0].speed
    } else {
        spec_speed_at(effects.drop_first(), t)
    }
}

/// The zoom in force at `t`: taken from the first zoom effect whose
/// range contains `t` and whose factor exceeds the unit; an effect at
/// or below the unit factor is ignored, and the scan goes on.
pub open spec fn spec_zoom_at(effects: Seq<ZoomEffect>, t: u64) -> Option<ActiveZoom>
    decreases effects.len(),
{
    if effects.len() == 0 {
        None
    } else if effects[0].start_time <= t && t < effects[0].end_time && effects[0].scale
        > 1000000 {
        Some(ActiveZoom { scale: effects[0].scale, x: effects[0].x, y: effects[0].y })
    } else {
        spec_zoom_at(effects.drop_first(), t)
    }
}

/// The pieces cut from one run of breakpoints: one piece per adjacent
/// pair of distinct breakpoints, carrying the speed and zoom in force at
/// its start.
pub open spec fn spec_segment_pieces(
    b: Seq<u64>,
    speed: Seq<SpeedEffect>,
    zoom: Seq<ZoomEffect>,
) -> Seq<TimelinePiece>
    decreases b.len(),
{
    if b.len() < 2 {
        Seq::<TimelinePiece>::empty()
    } else {
        (if b[1] > b[0] {
            seq![
                TimelinePiece {
                    start: b[0],
                    end: b[1],
                    speed: spec_speed_at(speed, b[0]),
                    zoom: spec_zoom_at(zoom, b[0]),
                },
            ]
        } else {
            Seq::<TimelinePiece>::empty()
        }) + spec_segment_pieces(b.drop_first(), speed, zoom)
    }
}

/// The pieces of one enabled segment; a degenerate segment yields none.
pub open spec fn spec_pieces_for_segment(
    seg: (u64, u64),
    speed: Seq<SpeedEffect>,
    zoom: Seq<ZoomEffect>,
) -> Seq<TimelinePiece> {
    if seg.1 <= seg.0 {
        Seq::<TimelinePiece>::empty()
    } else {
        spec_segment_pieces(spec_breakpoints(seg.0, seg.1, speed, zoom), speed, zoom)
    }
}

/// The pieces of every enabled segment, in segment order.
pub open spec fn spec_all_pieces(
    segs: Seq<(u64, u64)>,
    speed: Seq<SpeedEffect>,
    zoom: Seq<ZoomEffect>,
) -> Seq<TimelinePiece>
    decreases segs.len(),
{
    if segs.len() == 0 {
        Seq::<TimelinePiece>::empty()
    } else {
        spec_all_pieces(segs.drop_last(), speed, zoom) + spec_pieces_for_segment(
            segs.last(),
            speed,
            zoom,
        )
    }
}

/// The full piece list of a project: the pieces of the sorted enabled
/// segments, with a single full-duration unit-speed piece as fallback
/// when nothing remains.
pub open spec fn spec_timeline_pieces(p: Project) -> Seq<TimelinePiece> {
    let all = spec_all_pieces(spec_enabled_segments(p), p.edits.speed@, p.edits.zoom@);
    if all.len() == 0 {
        seq![TimelinePiece { start: 0, end: p.duration, speed: 1000000, zoom: None }]
    } else {
        all
    }
}

/// The speed in force at `t` (exec mirror of [`spec_speed_at`]).
fn speed_at(effects: &Vec<SpeedEffect>, t: u64) -> (r: u64)
    ensures
        r == spec_speed_at(effects@, t),
{
    let mut i: usize = 0;
    proof {
        assert(effects@.skip(0) =~= effects@);
    }
    while i < effects.len()
        invariant
            i <= effects.len(),
            spec_speed_at(effects@, t) == spec_speed_at(effects@.skip(i as int), t),
        decreases effects.len() - i,
    {
        proof {
            assert(effects@.skip(i as int)[0] == effects@[i as int]);
            assert(effects@.skip(i as int).drop_first() =~= effects@.skip(i + 1));
        }
        let eff = &effects[i];
        if eff.start_time <= t && t < eff.end_time {
            return eff.speed;
        }
        i = i + 1;
    }
    1000000
}

/// The zoom in force at `t` (exec mirror of [`spec_zoom_at`]).
fn zoom_at(effects: &Vec<ZoomEffect>, t: u64) -> (r: Option<ActiveZoom>)
    ensures
        r == spec_zoom_at(effects@, t),
{
    let mut i: usize = 0;
    proof {
        assert(effects@.skip(0) =~= effects@);
    }
    while i < effects.len()
        invariant
            i <= effects.len(),
            spec_zoom_at(effects@, t) == spec_zoom_at(effects@.skip(i as int), t),
        decreases effects.len() - i,
    {
        proof {
            assert(effects@.skip(i as int)[0] == effects@[i as int]);
            assert(effects@.skip(i as int).drop_first() =~= effects@.skip(i + 1));
        }
        let eff = &effects[i];
        if eff.start_time <= t && t < eff.end_time && eff.scale > 1000000 {
            return Some(ActiveZoom { scale: eff.scale, x: eff.x, y: eff.y });
        }
        i = i + 1;
    }
    None
}

/// The sorted, deduplicated breakpoints of the segment `(s, e)`.
fn breakpoints(s: u64, e: u64, speed: &Vec<SpeedEffect>, zoom: &Vec<ZoomEffect>) -> (r: Vec<u64>)
    ensures
        r@ == spec_breakpoints(s, e, speed@, zoom@),
{
    let mut raw: Vec<u64> = Vec::new();
    raw.push(s);
    raw.push(e);
    proof {
        assert(raw@ =~= seq![s, e] + spec_speed_points(speed@.take(0), s, e));
    }
    let mut i: usize = 0;
    while i < speed.len()
        invariant
            i <= speed.len(),
            raw@ == seq![s, e] + spec_speed_points(speed@.take(i as int), s, e),
        decreases speed.len() - i,
    {
        proof {
            assert(speed@.take(i + 1).drop_last() =~= speed@.take(i as int));
            assert(speed@.take(i + 1).last() == speed@[i as int]);
        }
        let eff = &speed[i];
        if s < eff.start_time && eff.start_time < e {
            raw.push(eff.start_time);
        }
        if s < eff.end_time && eff.end_time < e {
            raw.push(eff.end_time);
        }
        proof {
            assert(raw@ =~= seq![s, e] + spec_speed_points(speed@.take(i + 1), s, e));
        }
        i = i + 1;
    }
    proof {
        assert(speed@.take(speed@.len() as int) =~= speed@);
    }
    let ghost with_speed = seq![s, e] + spec_speed_points(speed@, s, e);
    let mut i: usize = 0;
    while i < zoom.len()
        invariant
            i <= zoom.len(),
            raw@ == with_speed + spec_zoom_points(zoom@.take(i as int), s, e),
        decreases zoom.len() - i,
    {
        proof {
            assert(zoom@.take(i + 1).drop_last() =~= zoom@.take(i as int));
            assert(zoom@.take(i + 1).last() == zoom@[i as int]);
        }
        let eff = &zoom[i];
        if s < eff.start_time && eff.start_time < e {
            raw.push(eff.start_time);
        }
        if s < eff.end_time && eff.end_time < e {
            raw.push(eff.end_time);
        }
        proof {
            assert(raw@ =~= with_speed + spec_zoom_points(zoom@.take(i + 1), s, e));
        }
        i = i + 1;
    }
    proof {
        assert(zoom@.take(zoom@.len() as int) =~= zoom@);
        assert(raw@ =~= seq![s, e] + spec_speed_points(speed@, s, e) + spec_zoom_points(
            zoom@,
            s,
            e,
        ));
    }
    let ghost unsorted = raw@;
    // sort
    let mut sorted: Vec<u64> = Vec::new();
    let mut i: usize = 0;
    while i < raw.len()
        invariant
            i <= raw.len(),
            raw@ == unsorted,
            sorted@ == sort_u64(unsorted.take(i as int)),
        decreases raw.len() - i,
    {
        let x = raw[i];
        let mut pos: usize = 0;
        while pos < sorted.len() && sorted[pos] <= x
            invariant
                pos <= sorted.len(),
                forall|k: int| 0 <= k < pos ==> #[trigger] sorted@[k] <= x,
            decreases sorted.len() - pos,
        {
            pos = pos + 1;
        }
        proof {
            lemma_insert_u64_position(x, sorted@, pos as int);
            assert(unsorted.take(i + 1).drop_last() =~= unsorted.take(i as int));
            assert(unsorted.take(i + 1).last() == unsorted[i as int]);
        }
        sorted.insert(pos, x);
        i = i + 1;
    }
    proof {
        assert(unsorted.take(unsorted.len() as int) =~= unsorted);
    }
    let ghost sorted_seq = sorted@;
    // remove duplicates
    let mut out: Vec<u64> = Vec::new();
    let mut i: usize = 0;
    while i < sorted.len()
        invariant
            i <= sorted.len(),
            sorted@ == sorted_seq,
            out@ == spec_dedup(sorted_seq.take(i as int)),
        decreases sorted.len() - i,
    {
        proof {
            assert(sorted_seq.take(i + 1).drop_last() =~= sorted_seq.take(i as int));
            assert(sorted_seq.take(i + 1).last() == sorted_seq[i as int]);
        }
        let x = sorted[i];
        if out.len() == 0 {
            out.push(x);
        } else {
            let last = out[out.len() - 1];
            proof {
                assert(out@.last() == out@[out@.len() - 1]);
            }
            if last != x {
                out.push(x);
            }
        }
        i = i + 1;
    }
    proof {
        assert(sorted_seq.take(sorted_seq.len() as int) =~= sorted_seq);
    }
    out
}

/// Merges the enabled segments with the speed and zoom effects into the
/// ordered, gap-free piece list of the project.
pub fn build_timeline_pieces(project: &Project) -> (r: Vec<TimelinePiece>)
    ensures
        r@ == spec_timeline_pieces(*project),
        r@.len() > 0,
{
    let segments = enabled_segments(project);
    let mut pieces: Vec<TimelinePiece> = Vec::new();
    let mut j: usize = 0;
    while j < segments.len()
        invariant
            j <= segments.len(),
            segments@ == spec_enabled_segments(*project),
            pieces@ == spec_all_pieces(
                segments@.take(j as int),
                project.edits.speed@,
                project.edits.zoom@,
            ),
        decreases segments.len() - j,
    {
        let ghost sp = project.edits.speed@;
        let ghost zm = project.edits.zoom@;
        proof {
            assert(segments@.take(j + 1).drop_last() =~= segments@.take(j as int));
            assert(segments@.take(j + 1).last() == segments@[j as int]);
        }
        let (seg_start, seg_end) = segments[j];
        if seg_end > seg_start {
            let b = breakpoints(seg_start, seg_end, &project.edits.speed, &project.edits.zoom);
            let ghost bseq = b@;
            let mut k: usize = 0;
            let ghost before = pieces@;
            proof {
                assert(bseq.skip(0) =~= bseq);
            }
            while k < b.len() && k < b.len() - 1
                invariant
                    b@ == bseq,
                    k <= b@.len(),
                    project.edits.speed@ == sp,
                    project.edits.zoom@ == zm,
                    pieces@ + spec_segment_pieces(bseq.skip(k as int), sp, zm) == before
                        + spec_segment_pieces(bseq, sp, zm),
                decreases b.len() - k,
            {
                proof {
                    assert(bseq.skip(k as int)[0] == bseq[k as int]);
                    assert(bseq.skip(k as int)[1] == bseq[k + 1]);
                    assert(bseq.skip(k as int).drop_first() =~= bseq.skip(k + 1));
                }
                let start = b[k];
                let end = b[k + 1];
                let ghost old_pieces = pieces@;
                if end > start {
                    let piece = TimelinePiece {
                        start,
                        end,
                        speed: speed_at(&project.edits.speed, start),
                        zoom: zoom_at(&project.edits.zoom, start),
                    };
                    pieces.push(piece);
                    proof {
                        assert(spec_segment_pieces(bseq.skip(k as int), sp, zm) == seq![
                            pieces@.last(),
                        ] + spec_segment_pieces(bseq.skip(k + 1), sp, zm));
                        assert(old_pieces + (seq![pieces@.last()] + spec_segment_pieces(
                            bseq.skip(k + 1),
                            sp,
                            zm,
                        )) =~= pieces@ + spec_segment_pieces(bseq.skip(k + 1), sp, zm));
                    }
                } else {
                    proof {
                        assert(spec_segment_pieces(bseq.skip(k as int), sp, zm)
                            =~= spec_segment_pieces(bseq.skip(k + 1), sp, zm));
                    }
                }
                k = k + 1;
            }
            proof {
                assert(bseq.skip(k as int).len() < 2);
                assert(spec_segment_pieces(bseq.skip(k as int), sp, zm)
                    =~= Seq::<TimelinePiece>::empty());
                assert(pieces@ =~= pieces@ + Seq::<TimelinePiece>::empty());
                assert(pieces@ =~= before + spec_pieces_for_segment(segments@[j as int], sp, zm));
                assert(pieces@ =~= spec_all_pieces(segments@.take(j + 1), sp, zm));
            }
        } else {
            proof {
                assert(spec_pieces_for_segment(segments@[j as int], sp, zm)
                    =~= Seq::<TimelinePiece>::empty());
                assert(pieces@ =~= spec_all_pieces(segments@.take(j + 1), sp, zm));
            }
        }
        j = j + 1;
    }
    proof {
        assert(segments@.take(segments@.len() as int) =~= segments@);
    }
    if pieces.len() == 0 {
        pieces.push(TimelinePiece { start: 0, end: project.duration, speed: 1000000, zoom: None });
    }
    pieces
}

/// Whether the piece list departs from the raw recording: more than one
/// piece, a trimmed start or end, a non-unit speed, or a zoom.
pub open spec fn spec_timeline_is_edited(duration: u64, pieces: Seq<TimelinePiece>) -> bool {
    if pieces.len() != 1 {
        true
    } else {
        let p = pieces[0];
        ||| p.start > 1000
        ||| p.end + 1000 < duration
        ||| duration + 1000 < p.end
        ||| p.speed > 1010000
        ||| p.speed + 10000 < 1000000
        ||| p.zoom is Some
    }
}

/// Decides whether the timeline is edited at all (exec mirror of
/// [`spec_timeline_is_edited`]).
pub fn timeline_is_edited(project: &Project, pieces: &Vec<TimelinePiece>) -> (r: bool)
    ensures
        r == spec_timeline_is_edited(project.duration, pieces@),
{
    if pieces.len() != 1 {
        return true;
    }
    let p = &pieces[0];
    let end_off = if p.end >= project.duration {
        p.end - project.duration > 1000
    } else {
        project.duration - p.end > 1000
    };
    let speed_off = if p.speed >= 1000000 {
        p.speed - 1000000 > 10000
    } else {
        1000000 - p.speed > 10000
    };
    p.start > 1000 || end_off || speed_off || p.zoom.is_some()
}

// ---------------------------------------------------------------------
// The tiling law: the pieces of a segment cover it exactly, with no
// gaps and no overlaps.
// ---------------------------------------------------------------------

pub proof fn lemma_speed_points_bounds(effects: Seq<SpeedEffect>, s: u64, e: u64)
    ensures
        forall|k: int|
            0 <= k < spec_speed_points(effects, s, e).len() ==> s < #[trigger] spec_speed_points(
                effects,
                s,
                e,
            )[k] < e,
    decreases effects.len(),
{
    if effects.len() > 0 {
        lemma_speed_points_bounds(effects.drop_last(), s, e);
        let prev = spec_speed_points(effects.drop_last(), s, e);
        let cur = spec_speed_points(effects, s, e);
        let last = effects.last();
        let part1 = if s < last.start_time && last.start_time < e {
            seq![last.start_time]
        } else {
            Seq::<u64>::empty()
        };
        let part2 = if s < last.end_time && last.end_time < e {
            seq![last.end_time]
        } else {
            Seq::<u64>::empty()
        };
        assert(cur == prev + part1 + part2);
        assert forall|k: int| 0 <= k < cur.len() implies s < #[trigger] cur[k] < e by {
            if k < prev.len() {
                assert(cur[k] == prev[k]);
            } else if k < prev.len() + part1.len() {
                assert(cur[k] == part1[k - prev.len()]);
            } else {
                assert(cur[k] == part2[k - prev.len() - part1.len()]);
            }
        }
    }
}

pub proof fn lemma_zoom_points_bounds(effects: Seq<ZoomEffect>, s: u64, e: u64)
    ensures
        forall|k: int|
            0 <= k < spec_zoom_points(effects, s, e).len() ==> s < #[trigger] spec_zoom_points(
                effects,
                s,
                e,
            )[k] < e,
    decreases effects.len(),
{
    if effects.len() > 0 {
        lemma_zoom_points_bounds(effects.drop_last(), s, e);
        let prev = spec_zoom_points(effects.drop_last(), s, e);
        let cur = spec_zoom_points(effects, s, e);
        let last = effects.last();
        let part1 = if s < last.start_time && last.start_time < e {
            seq![last.start_time]
        } else {
            Seq::<u64>::empty()
        };
        let part2 = if s < last.end_time && last.end_time < e {
            seq![last.end_time]
        } else {
            Seq::<u64>::empty()
        };
        assert(cur == prev + part1 + part2);
        assert forall|k: int| 0 <= k < cur.len() implies s < #[trigger] cur[k] < e by {
            if k < prev.len() {
                assert(cur[k] == prev[k]);
            } else if k < prev.len() + part1.len() {
                assert(cur[k] == part1[k - prev.len()]);
            } else {
                assert(cur[k] == part2[k - prev.len() - part1.len()]);
            }
        }
    }
}

/// The breakpoints of a proper segment form a strictly increasing run
/// from the segment's start to its end.
pub proof fn lemma_breakpoints_shape(s: u64, e: u64, sp: Seq<SpeedEffect>, zm: Seq<ZoomEffect>)
    requires
        s < e,
    ensures
        u64_strictly_sorted(spec_breakpoints(s, e, sp, zm)),
        spec_breakpoints(s, e, sp, zm).len() >= 2,
        spec_breakpoints(s, e, sp, zm).first() == s,
        spec_breakpoints(s, e, sp, zm).last() == e,
{
    broadcast use vstd::seq_lib::group_to_multiset_ensures;

    let raw = seq![s, e] + spec_speed_points(sp, s, e) + spec_zoom_points(zm, s, e);
    lemma_speed_points_bounds(sp, s, e);
    lemma_zoom_points_bounds(zm, s, e);
    assert(raw[0] == s);
    assert(raw[1] == e);
    assert(raw.contains(s));
    assert(raw.contains(e));
    let spts = spec_speed_points(sp, s, e);
    let zpts = spec_zoom_points(zm, s, e);
    assert forall|k: int| 0 <= k < raw.len() implies s <= #[trigger] raw[k] <= e by {
        if k >= 2 {
            if k < 2 + spts.len() {
                assert(raw[k] == spts[k - 2]);
            } else {
                assert(raw[k] == zpts[k - 2 - spts.len()]);
            }
        }
    }
    let sorted = sort_u64(raw);
    lemma_sort_u64_sorted(raw);
    assert(raw.to_multiset().count(s) > 0);
    assert(sorted.to_multiset().count(s) > 0);
    assert(sorted.contains(s));
    assert(raw.to_multiset().count(e) > 0);
    assert(sorted.to_multiset().count(e) > 0);
    assert(sorted.contains(e));
    assert forall|k: int| 0 <= k < sorted.len() implies s <= #[trigger] sorted[k] <= e by {
        assert(sorted.contains(sorted[k]));
        assert(sorted.to_multiset().count(sorted[k]) > 0);
        assert(raw.to_multiset().count(sorted[k]) > 0);
        assert(raw.contains(sorted[k]));
        let m = choose|m: int| 0 <= m < raw.len() && raw[m] == sorted[k];
        assert(s <= raw[m] <= e);
    }
    let i_s = choose|i: int| 0 <= i < sorted.len() && sorted[i] == s;
    let i_e = choose|i: int| 0 <= i < sorted.len() && sorted[i] == e;
    assert(sorted.first() <= s && sorted.first() >= s);
    assert(sorted.last() >= e && sorted.last() <= e);
    lemma_dedup_sorted(sorted);
    let b = spec_dedup(sorted);
    assert(b.first() == s && b.last() == e);
    assert(b.len() >= 2) by {
        if b.len() < 2 {
            assert(b.len() == 1);
            assert(b.first() == b.last());
        }
    }
}

/// One piece per adjacent breakpoint pair, in order.
pub proof fn lemma_segment_pieces_shape(b: Seq<u64>, sp: Seq<SpeedEffect>, zm: Seq<ZoomEffect>)
    requires
        u64_strictly_sorted(b),
        b.len() >= 2,
    ensures
        spec_segment_pieces(b, sp, zm).len() == b.len() - 1,
        forall|i: int|
            0 <= i < b.len() - 1 ==> (#[trigger] spec_segment_pieces(b, sp, zm)[i]).start == b[i]
                && spec_segment_pieces(b, sp, zm)[i].end == b[i + 1],
    decreases b.len(),
{
    let ps = spec_segment_pieces(b, sp, zm);
    assert(b[1] > b[0]);
    let rest = b.drop_first();
    if b.len() == 2 {
        assert(rest.len() == 1);
        assert(spec_segment_pieces(rest, sp, zm) =~= Seq::<TimelinePiece>::empty());
        assert(ps =~= seq![
            TimelinePiece {
                start: b[0],
                end: b[1],
                speed: spec_speed_at(sp, b[0]),
                zoom: spec_zoom_at(zm, b[0]),
            },
        ]);
    } else {
        assert(forall|i: int, j: int| 0 <= i < j < rest.len() ==> #[trigger] rest[i] < #[trigger] rest[j]);
        lemma_segment_pieces_shape(rest, sp, zm);
        let head = seq![
            TimelinePiece {
                start: b[0],
                end: b[1],
                speed: spec_speed_at(sp, b[0]),
                zoom: spec_zoom_at(zm, b[0]),
            },
        ];
        assert(ps =~= head + spec_segment_pieces(rest, sp, zm));
        assert forall|i: int| 0 <= i < b.len() - 1 implies (#[trigger] ps[i]).start == b[i]
            && ps[i].end == b[i + 1] by {
            if i > 0 {
                assert(ps[i] == spec_segment_pieces(rest, sp, zm)[i - 1]);
                assert(rest[i - 1] == b[i]);
                assert(rest[i] == b[i + 1]);
            }
        }
    }
}

/// The total duration of a piece list.
pub open spec fn spec_duration_sum(ps: Seq<TimelinePiece>) -> int
    decreases ps.len(),
{
    if ps.len() == 0 {
        0
    } else {
        (ps[0].end - ps[0].start) + spec_duration_sum(ps.drop_first())
    }
}

/// A contiguous run of pieces sums to the distance from its first start
/// to its last end.
pub proof fn lemma_contiguous_sum(ps: Seq<TimelinePiece>)
    requires
        ps.len() > 0,
        forall|i: int| 0 <= i < ps.len() - 1 ==> (#[trigger] ps[i]).end == ps[i + 1].start,
    ensures
        spec_duration_sum(ps) == ps.last().end - ps.first().start,
    decreases ps.len(),
{
    if ps.len() == 1 {
        assert(ps.drop_first().len() == 0);
        assert(spec_duration_sum(ps.drop_first()) == 0);
    } else {
        let rest = ps.drop_first();
        assert forall|i: int| 0 <= i < rest.len() - 1 implies (#[trigger] rest[i]).end == rest[i
            + 1].start by {
            assert(rest[i] == ps[i + 1]);
            assert(rest[i + 1] == ps[i + 2]);
        }
        lemma_contiguous_sum(rest);
        assert(rest.first() == ps[1]);
        assert(rest.last() == ps.last());
        assert(ps[0].end == ps[1].start);
        assert(spec_duration_sum(ps) == (ps[0].end - ps[0].start) + spec_duration_sum(rest));
    }
}

/// The tiling law: for every enabled segment with positive extent, the
/// segmenter's pieces for it cover the segment exactly — the first piece
/// starts at the segment's start, the last ends at its end, consecutive
/// pieces are contiguous (no gaps, no overlaps), every piece has positive
/// extent, and the piece durations sum to the segment's duration.
pub proof fn lemma_pieces_tile_segment(seg: (u64, u64), sp: Seq<SpeedEffect>, zm: Seq<ZoomEffect>)
    requires
        seg.0 < seg.1,
    ensures
        spec_pieces_for_segment(seg, sp, zm).len() > 0,
        spec_pieces_for_segment(seg, sp, zm).first().start == seg.0,
        spec_pieces_for_segment(seg, sp, zm).last().end == seg.1,
        forall|i: int|
            0 <= i < spec_pieces_for_segment(seg, sp, zm).len() - 1 ==> (
            #[trigger] spec_pieces_for_segment(seg, sp, zm)[i]).end == spec_pieces_for_segment(
                seg,
                sp,
                zm,
            )[i + 1].start,
        forall|i: int|
            0 <= i < spec_pieces_for_segment(seg, sp, zm).len() ==> (
            #[trigger] spec_pieces_for_segment(seg, sp, zm)[i]).start
                < spec_pieces_for_segment(seg, sp, zm)[i].end,
        spec_duration_sum(spec_pieces_for_segment(seg, sp, zm)) == seg.1 - seg.0,
{
    let b = spec_breakpoints(seg.0, seg.1, sp, zm);
    lemma_breakpoints_shape(seg.0, seg.1, sp, zm);
    lemma_segment_pieces_shape(b, sp, zm);
    let ps = spec_pieces_for_segment(seg, sp, zm);
    assert(ps == spec_segment_pieces(b, sp, zm));
    assert(ps.first().start == b[0]);
    assert(ps.last().end == b[b.len() - 1]);
    lemma_contiguous_sum(ps);
}

} // verus!
