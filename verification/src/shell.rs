//! Helpers for the application shell around the compiler: project-id
//! normalization, tray labels, disk-space checks, engine-process error
//! detection, and editor-route building.

use vstd::prelude::*;
use vstd::string::*;
use crate::error::AppError;
use crate::numtext::{spec_dec, u64_to_string, spec_hundredths2, hundredths2};
use crate::text::{
    spec_trim, str_trim, spec_to_lower, to_ascii_lower, spec_contains_str, str_contains, push_char,
    views, push_str_arg, push_string_arg,
};

verus! {

/// The least free space a recording may start with: five binary
/// gigabytes.
pub const MIN_RECORDING_FREE_SPACE_BYTES: u64 = 5 * 1024 * 1024 * 1024;

/// Where releases are published, for the manual-update menu.
pub const OPENREC_RELEASES_URL: &'static str = "https://github.com/TommyBez/open-rec/releases";

/// The guide for installing unsigned builds on the Mac platform.
pub const OPENREC_UNSIGNED_INSTALL_GUIDE_URL: &'static str =
    "https://github.com/TommyBez/open-rec/blob/main/docs/UNSIGNED_MAC_INSTALL.md";

/// A disk-space reading held against the recording headroom floor.
#[derive(Debug, Clone, Copy)]
pub struct DiskSpaceStatus {
    pub free_bytes: u64,
    pub minimum_required_bytes: u64,
    pub sufficient: bool,
}

/// Classifies a free-space reading (the caller supplies the bytes free
/// on the recordings volume).
pub fn recording_disk_space_status(free_bytes: u64) -> (r: DiskSpaceStatus)
    ensures
        r.free_bytes == free_bytes,
        r.minimum_required_bytes == MIN_RECORDING_FREE_SPACE_BYTES,
        r.sufficient == (free_bytes >= MIN_RECORDING_FREE_SPACE_BYTES),
{
    DiskSpaceStatus {
        free_bytes,
        minimum_required_bytes: MIN_RECORDING_FREE_SPACE_BYTES,
        sufficient: free_bytes >= MIN_RECORDING_FREE_SPACE_BYTES,
    }
}

/// The free space in hundredths of binary gigabytes, rounded half up.
pub open spec fn spec_gb_hundredths(free_bytes: u64) -> nat {
    ((free_bytes * 100 + 536870912) / 1073741824) as nat
}

/// Rejects a recording when the volume holds less than the required
/// headroom, quoting the free space in gigabytes.
pub fn ensure_recording_disk_headroom(free_bytes: u64) -> (r: Result<(), AppError>)
    ensures
        free_bytes >= MIN_RECORDING_FREE_SPACE_BYTES ==> r is Ok,
        free_bytes < MIN_RECORDING_FREE_SPACE_BYTES ==> (r matches Err(e) && e matches
            AppError::Message(m) && m@ == "Insufficient disk space. At least 5 GB free is required (currently "@
            + spec_hundredths2(spec_gb_hundredths(free_bytes)) + " GB)."@),
{
    if free_bytes >= MIN_RECORDING_FREE_SPACE_BYTES {
        return Ok(());
    }
    let scaled: u128 = ((free_bytes as u128) * 100 + 536870912) / 1073741824;
    proof {
        assert(scaled <= 0xFFFFFFFFFFFFFFFFu128) by (nonlinear_arith)
            requires scaled == ((free_bytes as u128) * 100 + 536870912) / 1073741824 && free_bytes
                <= 0xFFFFFFFFFFFFFFFFu64;
    }
    let mut m = String::from_str("Insufficient disk space. At least 5 GB free is required (currently ");
    m.append(hundredths2(scaled as u64).as_str());
    m.append(" GB).");
    Err(AppError::Message(m))
}

/// A trimmed project id, rejected with the calling context when empty.
pub fn normalize_project_id_input(project_id: String, context: &str) -> (r: Result<String, AppError>)
    ensures
        spec_trim(project_id@).len() > 0 ==> (r matches Ok(s) && s@ == spec_trim(project_id@)),
        spec_trim(project_id@).len() == 0 ==> (r matches Err(e) && e matches AppError::Message(m)
            && m@ == "Missing project id for "@ + context@),
{
    let normalized = str_trim(project_id.as_str());
    if normalized.unicode_len() == 0 {
        let mut m = String::from_str("Missing project id for ");
        m.append(context);
        return Err(AppError::Message(m));
    }
    Ok(String::from_str(normalized))
}

/// A label shortened to `max_chars` characters, with an ellipsis when
/// anything was cut.
pub open spec fn spec_truncated_label(s: Seq<char>, max_chars: nat) -> Seq<char> {
    if max_chars == 0 {
        Seq::<char>::empty()
    } else if s.len() <= max_chars {
        s
    } else {
        s.take(max_chars as int) + seq!['…']
    }
}

/// Shortens a tray label (exec mirror of [`spec_truncated_label`]).
pub fn truncate_tray_label(value: &str, max_chars: usize) -> (r: String)
    ensures
        r@ == spec_truncated_label(value@, max_chars as nat),
{
    if max_chars == 0 {
        return String::new();
    }
    let n = value.unicode_len();
    if n <= max_chars {
        return String::from_str(value);
    }
    let mut out = String::from_str(value.substring_char(0, max_chars));
    out.append("…");
    proof {
        reveal_strlit("…");
        assert(value@.subrange(0, max_chars as int) =~= value@.take(max_chars as int));
        assert("…"@ =~= seq!['…']);
    }
    out
}

/// Whether the process-termination tool reported that the process was
/// already gone.
pub open spec fn spec_is_missing_process_error(stderr: Seq<char>) -> bool {
    let lowered = spec_to_lower(spec_trim(stderr));
    ||| spec_contains_str(lowered, "no such process"@)
    ||| spec_contains_str(lowered, "not found"@)
    ||| spec_contains_str(lowered, "cannot find the process"@)
}

/// Detects the already-gone wordings of the process-termination tools
/// (exec mirror of [`spec_is_missing_process_error`]).
pub fn is_missing_process_error(stderr: &str) -> (r: bool)
    ensures
        r == spec_is_missing_process_error(stderr@),
{
    let normalized = to_ascii_lower(str_trim(stderr));
    str_contains(normalized.as_str(), "no such process") || str_contains(
        normalized.as_str(),
        "not found",
    ) || str_contains(normalized.as_str(), "cannot find the process")
}

/// The error reported when the engine's run exceeds its timeout.
pub fn ffmpeg_timeout_error(timeout_secs: u64) -> (r: AppError)
    ensures
        r matches AppError::Message(m) && m@ == "ffmpeg command timed out after "@ + spec_dec(
            timeout_secs as nat,
        ) + " seconds"@,
{
    let mut m = String::from_str("ffmpeg command timed out after ");
    m.append(u64_to_string(timeout_secs).as_str());
    m.append(" seconds");
    AppError::Message(m)
}

/// A path quoted for the engine's concat list: each single quote is
/// closed, escaped and reopened.
pub open spec fn spec_escape_concat_char(c: char) -> Seq<char> {
    if c == '\'' {
        seq!['\'', '\\', '\'', '\'']
    } else {
        seq![c]
    }
}

/// The whole path with its quotes escaped.
pub open spec fn spec_escape_concat_path(s: Seq<char>) -> Seq<char>
    decreases s.len(),
{
    if s.len() == 0 {
        Seq::<char>::empty()
    } else {
        spec_escape_concat_path(s.drop_last()) + spec_escape_concat_char(s.last())
    }
}

/// Escapes a path for the engine's concat list (exec mirror of
/// [`spec_escape_concat_path`]).
pub fn escape_concat_path(path: &str) -> (r: String)
    ensures
        r@ == spec_escape_concat_path(path@),
{
    let n = path.unicode_len();
    let mut out = String::new();
    let mut i: usize = 0;
    while i < n
        invariant
            n == path@.len(),
            i <= n,
            out@ == spec_escape_concat_path(path@.take(i as int)),
        decreases n - i,
    {
        proof {
            assert(path@.take(i + 1).drop_last() =~= path@.take(i as int));
            assert(path@.take(i + 1).last() == path@[i as int]);
        }
        let c = path.get_char(i);
        if c == '\'' {
            out.append("'\\''");
            proof {
                reveal_strlit("'\\''");
                assert("'\\''"@ =~= spec_escape_concat_char(c));
            }
        } else {
            push_char(&mut out, c);
        }
        i = i + 1;
    }
    proof {
        assert(path@.take(path@.len() as int) =~= path@);
    }
    out
}

/// One line of the engine's concat manifest: the quoted, escaped path.
pub open spec fn spec_concat_manifest_line(path: Seq<char>) -> Seq<char> {
    "file '"@ + spec_escape_concat_path(path) + "'"@
}

/// The whole concat manifest: one line per segment path, newline
/// separated.
pub open spec fn spec_concat_manifest(paths: Seq<Seq<char>>) -> Seq<char>
    decreases paths.len(),
{
    if paths.len() == 0 {
        Seq::<char>::empty()
    } else if paths.len() == 1 {
        spec_concat_manifest_line(paths[0])
    } else {
        spec_concat_manifest(paths.drop_last()) + "\n"@ + spec_concat_manifest_line(paths.last())
    }
}

/// Renders the concat manifest the engine merges segment files from
/// (exec mirror of [`spec_concat_manifest`]).
pub fn concat_manifest(paths: &Vec<String>) -> (r: String)
    ensures
        r@ == spec_concat_manifest(views(paths@)),
{
    let mut out = String::new();
    let mut i: usize = 0;
    while i < paths.len()
        invariant
            i <= paths.len(),
            out@ == spec_concat_manifest(views(paths@).take(i as int)),
        decreases paths.len() - i,
    {
        proof {
            assert(views(paths@).take(i + 1).drop_last() =~= views(paths@).take(i as int));
            assert(views(paths@).take(i + 1).last() == paths@[i as int]@);
            assert(views(paths@).take(1)[0] == paths@[0]@);
        }
        if i > 0 {
            out.append("\n");
        }
        out.append("file '");
        out.append(escape_concat_path(paths[i].as_str()).as_str());
        out.append("'");
        proof {
            assert(out@ =~= spec_concat_manifest(views(paths@).take(i + 1)));
        }
        i = i + 1;
    }
    proof {
        assert(views(paths@).take(views(paths@).len() as int) =~= views(paths@));
    }
    out
}

/// The engine invocation that merges the listed segments by stream
/// copy into one file.
pub open spec fn spec_concat_merge_args(list_path: Seq<char>, merged_path: Seq<char>) -> Seq<
    Seq<char>,
> {
    seq![
        "-f"@,
        "concat"@,
        "-safe"@,
        "0"@,
        "-i"@,
        list_path,
        "-c"@,
        "copy"@,
        "-y"@,
        merged_path,
    ]
}

/// Builds the merge invocation (exec mirror of
/// [`spec_concat_merge_args`]).
pub fn concat_merge_args(list_path: &str, merged_path: &str) -> (r: Vec<String>)
    ensures
        views(r@) == spec_concat_merge_args(list_path@, merged_path@),
{
    let mut args: Vec<String> = Vec::new();
    push_str_arg(&mut args, "-f");
    push_str_arg(&mut args, "concat");
    push_str_arg(&mut args, "-safe");
    push_str_arg(&mut args, "0");
    push_str_arg(&mut args, "-i");
    push_string_arg(&mut args, String::from_str(list_path));
    push_str_arg(&mut args, "-c");
    push_str_arg(&mut args, "copy");
    push_str_arg(&mut args, "-y");
    push_string_arg(&mut args, String::from_str(merged_path));
    proof {
        assert(views(args@) =~= spec_concat_merge_args(list_path@, merged_path@));
    }
    args
}

/// The startup argument with wrapping double or single quotes removed
/// after trimming.
pub open spec fn spec_strip_wrapping_quotes(s: Seq<char>) -> Seq<char> {
    let t = spec_trim(s);
    if t.len() >= 2 && ((t[0] == '"' && t.last() == '"') || (t[0] == '\'' && t.last() == '\'')) {
        t.subrange(1, t.len() - 1)
    } else {
        t
    }
}

/// Strips wrapping quotes from a startup argument (exec mirror of
/// [`spec_strip_wrapping_quotes`]).
pub fn strip_wrapping_quotes(value: &str) -> (r: &str)
    ensures
        r@ == spec_strip_wrapping_quotes(value@),
{
    let trimmed = str_trim(value);
    let n = trimmed.unicode_len();
    if n >= 2 {
        let first = trimmed.get_char(0);
        let last = trimmed.get_char(n - 1);
        if (first == '"' && last == '"') || (first == '\'' && last == '\'') {
            return trimmed.substring_char(1, n - 1);
        }
    }
    trimmed
}

/// The id under which an opened `.openrec` file is looked up: trimmed,
/// with the extension removed when something remains under it.
pub open spec fn spec_normalize_opened_project_id(raw: Seq<char>) -> Option<Seq<char>> {
    let t = spec_trim(raw);
    if t.len() == 0 {
        None
    } else if t.len() > 8 && spec_to_lower(t).subrange(t.len() - 8, t.len() as int)
        == ".openrec"@ && spec_trim(t.take(t.len() - 8)).len() > 0 {
        Some(t.take(t.len() - 8))
    } else {
        Some(t)
    }
}

/// Normalizes an opened project id (exec mirror of
/// [`spec_normalize_opened_project_id`]).
pub fn normalize_opened_project_id(raw: &str) -> (r: Option<String>)
    ensures
        match r {
            Some(s) => spec_normalize_opened_project_id(raw@) == Some(s@),
            None => spec_normalize_opened_project_id(raw@) is None,
        },
{
    let trimmed = str_trim(raw);
    let n = trimmed.unicode_len();
    if n == 0 {
        return None;
    }
    if n > 8 {
        let lowered = to_ascii_lower(trimmed);
        let suffix = lowered.as_str().substring_char(n - 8, n);
        if crate::text::str_eq(suffix, ".openrec") {
            let stripped = trimmed.substring_char(0, n - 8);
            proof {
                assert(lowered@.subrange(n - 8, n as int) == spec_to_lower(trimmed@).subrange(
                    n - 8,
                    n as int,
                ));
                assert(trimmed@.subrange(0, n - 8) =~= trimmed@.take(n - 8));
            }
            let stripped_trimmed = str_trim(stripped);
            if stripped_trimmed.unicode_len() > 0 {
                return Some(String::from_str(stripped));
            }
        }
    }
    Some(String::from_str(trimmed))
}

// ---------------------------------------------------------------------
// Editor route building.
// ---------------------------------------------------------------------

/// The uppercase hexadecimal digit for `d` (meaningful below 16).
pub open spec fn spec_hex_upper(d: nat) -> char {
    if d < 10 {
        crate::numtext::digit_char(d)
    } else if d == 10 {
        'A'
    } else if d == 11 {
        'B'
    } else if d == 12 {
        'C'
    } else if d == 13 {
        'D'
    } else if d == 14 {
        'E'
    } else {
        'F'
    }
}

/// Whether a byte passes the form-urlencoded serializer unchanged:
/// ASCII letters and digits, and `*`, `-`, `.`, `_`.
pub open spec fn spec_urlencoded_unchanged(b: u8) -> bool {
    (48 <= b && b <= 57) || (65 <= b && b <= 90) || (97 <= b && b <= 122) || b == 42 || b == 45
        || b == 46 || b == 95
}

/// How the form-urlencoded serializer renders one byte: unchanged,
/// space as `+`, anything else percent-escaped in uppercase hex.
pub open spec fn spec_urlencode_byte(b: u8) -> Seq<char> {
    if spec_urlencoded_unchanged(b) {
        seq![b as char]
    } else if b == 32 {
        seq!['+']
    } else {
        seq!['%', spec_hex_upper((b / 16) as nat), spec_hex_upper((b % 16) as nat)]
    }
}

/// The form-urlencoded rendering of a byte string.
pub open spec fn spec_urlencode(bytes: Seq<u8>) -> Seq<char>
    decreases bytes.len(),
{
    if bytes.len() == 0 {
        Seq::<char>::empty()
    } else {
        spec_urlencode(bytes.drop_last()) + spec_urlencode_byte(bytes.last())
    }
}

/// Relies on `url::form_urlencoded::byte_serialize`: alphanumerics and
/// `*-._` pass unchanged, a space becomes `+`, and every other byte is
/// percent-escaped in uppercase hexadecimal, byte by byte over the
/// UTF-8 encoding.
#[verifier::external_body]
fn urlencode(s: &str) -> (r: String)
    ensures
        r@ == spec_urlencode(s.spec_bytes()),
{
    url::form_urlencoded::byte_serialize(s.as_bytes()).collect()
}

/// The editor route for a project: the id percent-encoded under
/// `/editor/`.
pub fn build_editor_route(project_id: &str) -> (r: String)
    ensures
        r@ == "/editor/"@ + spec_urlencode(project_id.spec_bytes()),
{
    let mut route = String::from_str("/editor/");
    route.append(urlencode(project_id).as_str());
    route
}

} // verus!
