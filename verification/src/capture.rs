//! Capture sources and recording geometry: the data model of displays
//! and windows offered for capture, fallback resolution when a
//! requested source disappears, and output-dimension rounding.  The
//! native capture backend itself lives outside the library; on hosts
//! without one, permissions are denied and no source is listed.

use vstd::prelude::*;
use vstd::string::*;
use crate::error::AppError;

verus! {

/// Represents a capture source (display or window).
#[derive(Debug, Clone)]
pub struct CaptureSource {
    pub id: String,
    pub name: String,
    pub source_type: SourceType,
    pub thumbnail: Option<String>,
}

#[derive(Debug, Clone, Copy, PartialEq, Eq, Structural)]
pub enum SourceType {
    Display,
    Window,
}

/// Check if screen recording permission is granted; without a native
/// capture backend there is none to grant.
pub fn check_screen_recording_permission() -> (r: bool)
    ensures
        !r,
{
    false
}

/// Request screen recording permission; without a native capture
/// backend the request cannot succeed.
pub fn request_screen_recording_permission() -> (r: bool)
    ensures
        !r,
{
    false
}

/// List available capture sources; without a native capture backend
/// there are none, and the caller is told why.
pub fn list_capture_sources(source_type: SourceType) -> (r: Result<Vec<CaptureSource>, AppError>)
    ensures
        r matches Err(e) && e matches AppError::Message(m) && m@
            == "Screen capture is only supported on macOS"@,
{
    Err(AppError::Message(String::from_str("Screen capture is only supported on macOS")))
}

/// The nearest even dimension not above `value`, at least two.
pub open spec fn spec_even_dimension(value: u32) -> u32 {
    let base = if value < 2 {
        2u32
    } else {
        value
    };
    if base % 2 == 0 {
        base
    } else {
        (base - 1) as u32
    }
}

/// Rounds a capture dimension down to an even number of pixels (exec
/// mirror of [`spec_even_dimension`]).
pub fn make_even_dimension(value: u32) -> (r: u32)
    ensures
        r == spec_even_dimension(value),
{
    let base = if value < 2 {
        2
    } else {
        value
    };
    if base % 2 == 0 {
        base
    } else {
        base - 1
    }
}

/// Which display to fall back to: the preferred ordinal when it exists,
/// else the first.
pub open spec fn spec_display_fallback_index(
    available_display_count: nat,
    preferred_display_ordinal: Option<u32>,
) -> nat {
    if available_display_count == 0 {
        0
    } else {
        match preferred_display_ordinal {
            Some(ordinal) => {
                if (ordinal as nat) < available_display_count {
                    ordinal as nat
                } else {
                    0
                }
            },
            None => 0,
        }
    }
}

/// Picks the fallback display index (exec mirror of
/// [`spec_display_fallback_index`]).
pub fn resolve_display_fallback_index(
    available_display_count: usize,
    preferred_display_ordinal: Option<u32>,
) -> (r: usize)
    ensures
        r as nat == spec_display_fallback_index(
            available_display_count as nat,
            preferred_display_ordinal,
        ),
{
    if available_display_count == 0 {
        return 0;
    }
    match preferred_display_ordinal {
        Some(ordinal) => {
            let preferred_index = ordinal as usize;
            if preferred_index < available_display_count {
                preferred_index
            } else {
                0
            }
        },
        None => 0,
    }
}

/// The smallest window id on offer.
pub open spec fn spec_min_window_id(ids: Seq<u32>) -> u32
    decreases ids.len(),
{
    if ids.len() <= 1 {
        ids[0]
    } else {
        let rest = spec_min_window_id(ids.drop_first());
        if ids[0] < rest {
            ids[0]
        } else {
            rest
        }
    }
}

/// Which window to capture: the requested one when it is still on
/// offer, else the lowest-numbered one; `None` when nothing is.
pub open spec fn spec_window_fallback_id(requested: u32, ids: Seq<u32>) -> Option<(u32, bool)> {
    if ids.len() == 0 {
        None
    } else if ids.contains(requested) {
        Some((requested, false))
    } else {
        Some((spec_min_window_id(ids), true))
    }
}

/// Picks the window to capture (exec mirror of
/// [`spec_window_fallback_id`]).
pub fn resolve_window_fallback_id(requested_window_id: u32, available_window_ids: &Vec<u32>) -> (r:
    Option<(u32, bool)>)
    ensures
        r == spec_window_fallback_id(requested_window_id, available_window_ids@),
{
    let n = available_window_ids.len();
    if n == 0 {
        return None;
    }
    let mut found = false;
    let mut min_id: u32 = available_window_ids[0];
    let mut i: usize = 0;
    proof {
        assert(available_window_ids@.skip(0) =~= available_window_ids@);
    }
    while i < n
        invariant
            n == available_window_ids@.len(),
            n > 0,
            i <= n,
            found == exists|k: int|
                0 <= k < i && available_window_ids@[k] == requested_window_id,
            i > 0 ==> min_id == spec_min_window_id(available_window_ids@.take(i as int)),
            i == 0 ==> min_id == available_window_ids@[0],
        decreases n - i,
    {
        proof {
            if i > 0 {
                lemma_min_extend(available_window_ids@, i as int);
            }
            assert(available_window_ids@.take(1)[0] == available_window_ids@[0]);
        }
        let id = available_window_ids[i];
        if id == requested_window_id {
            found = true;
        }
        if id < min_id {
            min_id = id;
        }
        i = i + 1;
    }
    proof {
        assert(available_window_ids@.take(n as int) =~= available_window_ids@);
        if found {
            assert(available_window_ids@.contains(requested_window_id));
        } else {
            assert(!available_window_ids@.contains(requested_window_id)) by {
                if available_window_ids@.contains(requested_window_id) {
                    let k = choose|k: int|
                        0 <= k < n && available_window_ids@[k] == requested_window_id;
                    assert(false);
                }
            }
        }
    }
    if found {
        Some((requested_window_id, false))
    } else {
        Some((min_id, true))
    }
}

/// Extending the prefix by one element takes the smaller of the running
/// minimum and the new element.
proof fn lemma_min_extend(ids: Seq<u32>, i: int)
    requires
        1 <= i < ids.len(),
    ensures
        spec_min_window_id(ids.take(i + 1)) == (if ids[i] < spec_min_window_id(ids.take(i)) {
            ids[i]
        } else {
            spec_min_window_id(ids.take(i))
        }),
    decreases i,
{
    let a = ids.take(i + 1);
    let b = ids.take(i);
    if i == 1 {
        assert(a.drop_first() =~= seq![ids[1]]);
        assert(a[0] == ids[0]);
        assert(b =~= seq![ids[0]]);
        assert(spec_min_window_id(seq![ids[1]]) == ids[1]);
        assert(spec_min_window_id(b) == ids[0]);
    } else {
        lemma_min_drop(ids, i);
    }
}

/// The minimum of a run of at least two elements compares its head with
/// the minimum of its tail; applied along a prefix.
proof fn lemma_min_drop(ids: Seq<u32>, i: int)
    requires
        2 <= i < ids.len(),
    ensures
        spec_min_window_id(ids.take(i + 1)) == (if ids[i] < spec_min_window_id(ids.take(i)) {
            ids[i]
        } else {
            spec_min_window_id(ids.take(i))
        }),
    decreases ids.len(),
{
    lemma_min_last(ids.take(i + 1));
    assert(ids.take(i + 1).drop_last() =~= ids.take(i));
    assert(ids.take(i + 1).last() == ids[i]);
}

/// The minimum of a nonempty run compares its last element with the
/// minimum of the rest.
proof fn lemma_min_last(s: Seq<u32>)
    requires
        s.len() >= 2,
    ensures
        spec_min_window_id(s) == (if s.last() < spec_min_window_id(s.drop_last()) {
            s.last()
        } else {
            spec_min_window_id(s.drop_last())
        }),
    decreases s.len(),
{
    if s.len() == 2 {
        assert(s.drop_first() =~= seq![s[1]]);
        assert(s.drop_last() =~= seq![s[0]]);
        assert(spec_min_window_id(seq![s[1]]) == s[1]);
        assert(spec_min_window_id(seq![s[0]]) == s[0]);
    } else {
        let rest = s.drop_first();
        lemma_min_last(rest);
        assert(rest.drop_last() =~= s.drop_last().drop_first());
        assert(rest.last() == s.last());
        lemma_min_head(s.drop_last());
    }
}

/// Unfolds the head comparison of the minimum.
proof fn lemma_min_head(s: Seq<u32>)
    requires
        s.len() >= 2,
    ensures
        spec_min_window_id(s) == (if s[0] < spec_min_window_id(s.drop_first()) {
            s[0]
        } else {
            spec_min_window_id(s.drop_first())
        }),
{
}

} // verus!
