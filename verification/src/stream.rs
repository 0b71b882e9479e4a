//! Streaming side: where a requested file lives, HTTP `Range` parsing and
//! the byte window served per request, and the answers of the range flow.
use vstd::prelude::*;
use crate::common::{content_type_for_file_name, content_type_from_filename, extension_to_header, header_for_extension};
use crate::http::{api_error, ApiError};
use crate::paths::{extension_of_path, join_path, path_extension, path_join};
use crate::text::{
    before_first, chars_eq_str, chars_of, decimal_text, find_first, lowercase, parse_decimal,
    parse_u64, push_decimal, split_once, string_from_chars, strip_prefix, sub_chars, trim,
    trim_chars,
};

verus! {

/// Which stored file a streaming request asks for.
pub struct VideoStreamRequest {
    pub file_name: String,
    pub upload_type: String,
}

/// Answer to a range-flow init request: the file's size and type.
pub struct HHTPRangeReqInitResponse {
    pub content_length: u64,
    pub content_type: String,
}

/// Where a stored file lives: `./uploads/<upload_type>/<file_name>`, with a
/// `final_data` directory in between for the reassembled `chunk` and
/// `resumable` uploads.
pub open spec fn stream_path(upload_type: Seq<char>, file_name: Seq<char>) -> Seq<char> {
    let folder = path_join("./uploads"@, upload_type);
    if upload_type == "chunk"@ || upload_type == "resumable"@ {
        path_join(path_join(folder, "final_data"@), file_name)
    } else {
        path_join(folder, file_name)
    }
}

/// The on-disk path of the file a streaming request names.
pub fn stream_file_path(req: &VideoStreamRequest) -> (p: String)
    ensures
        p@ == stream_path(req.upload_type@, req.file_name@),
{
    let base = chars_of("./uploads");
    let ty = chars_of(req.upload_type.as_str());
    let name = chars_of(req.file_name.as_str());
    let folder = join_path(base.as_slice(), ty.as_slice());
    let full = if chars_eq_str(ty.as_slice(), "chunk") || chars_eq_str(ty.as_slice(), "resumable") {
        let fd = chars_of("final_data");
        let inner = join_path(folder.as_slice(), fd.as_slice());
        join_path(inner.as_slice(), name.as_slice())
    } else {
        join_path(folder.as_slice(), name.as_slice())
    };
    string_from_chars(full.as_slice())
}

/// The reply when a requested file cannot be read: a missing file is the
/// client's mistake (400), anything else the server's (500).
pub fn read_failure(not_found: bool) -> (e: ApiError)
    ensures
        not_found ==> e.is(400, "Invalid File Request"@),
        !not_found ==> e.is(500, "Internal Server Error"@),
{
    if not_found {
        api_error(400, "Invalid File Request")
    } else {
        api_error(500, "Internal Server Error")
    }
}

/// A whole stored file to send: its bytes and the type to serve them with.
pub fn basic_stream_reply(req: &VideoStreamRequest, data: Vec<u8>) -> (r: (&'static str, Vec<u8>))
    ensures
        r.0@ == content_type_for_file_name(req.file_name@),
        r.1@ == data@,
{
    (content_type_from_filename(req.file_name.as_str()), data)
}

// ---------------------------------------------------------------------------
// Range requests
// ---------------------------------------------------------------------------

/// Outcome of parsing a `Range` header against a file size.
pub enum RangeParse {
    Span(u64, u64),
    Malformed,
    Unsatisfiable,
}

pub open spec fn sat_sub(a: u64, b: u64) -> u64 {
    if a >= b {
        (a - b) as u64
    } else {
        0
    }
}

/// Clamps `end` to the last byte and rejects empty or out-of-bounds spans.
pub open spec fn clamp_span(start: u64, end: u64, total: u64) -> RangeParse {
    let last = sat_sub(total, 1);
    let end2 = if end < last {
        end
    } else {
        last
    };
    if total == 0 || start > end2 || start >= total {
        RangeParse::Unsatisfiable
    } else {
        RangeParse::Span(start, end2)
    }
}

/// The span a single-range `Range: bytes=...` header selects in a file of
/// `total` bytes: `start-end`, open-ended `start-`, or suffix `-N`; only the
/// first of several ranges counts.
pub open spec fn range_spec(header: Seq<char>, total: u64) -> RangeParse {
    match strip_prefix(trim(header), "bytes="@) {
        None => RangeParse::Malformed,
        Some(rest) => match split_once(trim(before_first(rest, ',')), '-') {
            None => RangeParse::Malformed,
            Some((s, e)) => if s.len() == 0 {
                match parse_u64(e) {
                    None => RangeParse::Malformed,
                    Some(n) => if n == 0 {
                        RangeParse::Unsatisfiable
                    } else {
                        clamp_span(sat_sub(total, n), sat_sub(total, 1), total)
                    },
                }
            } else {
                match parse_u64(s) {
                    None => RangeParse::Malformed,
                    Some(start) => if e.len() == 0 {
                        clamp_span(start, sat_sub(total, 1), total)
                    } else {
                        match parse_u64(e) {
                            None => RangeParse::Malformed,
                            Some(end) => clamp_span(start, end, total),
                        }
                    },
                }
            },
        },
    }
}

/// Whether `r` is the reply `range_spec` calls for.
pub open spec fn range_reply(r: Result<(u64, u64), ApiError>, expected: RangeParse) -> bool {
    match expected {
        RangeParse::Span(s, e) => r == Ok::<(u64, u64), ApiError>((s, e)),
        RangeParse::Malformed => r matches Err(err) && err.is(400, "Malformed Range header"@),
        RangeParse::Unsatisfiable => r matches Err(err) && err.is(
            416,
            "Requested range not satisfiable"@,
        ),
    }
}

fn malformed_range() -> (e: ApiError)
    ensures
        e.is(400, "Malformed Range header"@),
{
    api_error(400, "Malformed Range header")
}

fn unsatisfiable_range() -> (e: ApiError)
    ensures
        e.is(416, "Requested range not satisfiable"@),
{
    api_error(416, "Requested range not satisfiable")
}

fn clamp(start: u64, end: u64, total: u64) -> (r: Result<(u64, u64), ApiError>)
    ensures
        range_reply(r, clamp_span(start, end, total)),
{
    let last = total.saturating_sub(1);
    let end2 = if end < last {
        end
    } else {
        last
    };
    if total == 0 || start > end2 || start >= total {
        Err(unsatisfiable_range())
    } else {
        Ok((start, end2))
    }
}

/// Parses a single-range `Range` header against the file size `total`:
/// the selected `(start, end)` bytes (inclusive), or 400 for a malformed
/// header and 416 for a span outside the file.
pub fn parse_range(range_header: &str, total: u64) -> (r: Result<(u64, u64), ApiError>)
    ensures
        range_reply(r, range_spec(range_header@, total)),
        r matches Ok((s, e)) ==> s <= e < total,
{
    let h = chars_of(range_header);
    let t = trim_chars(h.as_slice());
    let prefix = chars_of("bytes=");
    if !(prefix.len() <= t.len()) {
        return Err(malformed_range());
    }
    let head = sub_chars(t.as_slice(), 0, prefix.len());
    assert(head@ =~= t@.take(prefix@.len() as int));
    if !chars_eq_str(head.as_slice(), "bytes=") {
        return Err(malformed_range());
    }
    let rest = sub_chars(t.as_slice(), prefix.len(), t.len());
    assert(rest@ =~= t@.skip(prefix@.len() as int));
    let cut = find_first(rest.as_slice(), ',');
    let first = sub_chars(rest.as_slice(), 0, cut);
    assert(first@ =~= before_first(rest@, ','));
    let spec_text = trim_chars(first.as_slice());
    let dash = find_first(spec_text.as_slice(), '-');
    if dash >= spec_text.len() {
        return Err(malformed_range());
    }
    let s = sub_chars(spec_text.as_slice(), 0, dash);
    let e = sub_chars(spec_text.as_slice(), dash + 1, spec_text.len());
    assert(s@ =~= spec_text@.take(dash as int));
    assert(e@ =~= spec_text@.skip(dash as int + 1));
    if s.len() == 0 {
        match parse_decimal(e.as_slice(), u64::MAX) {
            None => Err(malformed_range()),
            Some(n) => {
                if n == 0 {
                    Err(unsatisfiable_range())
                } else {
                    clamp(total.saturating_sub(n), total.saturating_sub(1), total)
                }
            },
        }
    } else {
        match parse_decimal(s.as_slice(), u64::MAX) {
            None => Err(malformed_range()),
            Some(start) => {
                if e.len() == 0 {
                    clamp(start, total.saturating_sub(1), total)
                } else {
                    match parse_decimal(e.as_slice(), u64::MAX) {
                        None => Err(malformed_range()),
                        Some(end) => clamp(start, end, total),
                    }
                }
            },
        }
    }
}

/// Most bytes served by one range response (1 MiB).
pub const MAX_WINDOW: u64 = 1048576;

/// The bytes one range response serves.
pub struct RangeWindow {
    pub start: u64,
    pub end: u64,
    pub total: u64,
    pub length: u64,
}

/// Last byte served for a request from `start` to `requested_end`: at most
/// `MAX_WINDOW` bytes from `start`.
pub open spec fn window_end(start: u64, requested_end: u64) -> u64 {
    let cap = if start as int + (MAX_WINDOW - 1) > u64::MAX as int {
        u64::MAX
    } else {
        (start + (MAX_WINDOW - 1)) as u64
    };
    if requested_end < cap {
        requested_end
    } else {
        cap
    }
}

/// The window served for a `Range` header on a file of `total` bytes: the
/// parsed span, cut to at most `MAX_WINDOW` bytes from its start.
pub fn plan_range_window(range_header: &str, total: u64) -> (r: Result<RangeWindow, ApiError>)
    ensures
        match range_spec(range_header@, total) {
            RangeParse::Span(s, e) => r matches Ok(w) && w.start == s && w.end == window_end(s, e)
                && w.total == total && w.length == w.end - w.start + 1,
            RangeParse::Malformed => r matches Err(err) && err.is(400, "Malformed Range header"@),
            RangeParse::Unsatisfiable => r matches Err(err) && err.is(
                416,
                "Requested range not satisfiable"@,
            ),
        },
        r matches Ok(w) ==> w.start <= w.end < w.total && 1 <= w.length <= MAX_WINDOW,
{
    match parse_range(range_header, total) {
        Ok((start, requested_end)) => {
            let end = if requested_end < start.saturating_add(MAX_WINDOW - 1) {
                requested_end
            } else {
                start.saturating_add(MAX_WINDOW - 1)
            };
            Ok(RangeWindow { start, end, total, length: end - start + 1 })
        },
        Err(e) => Err(e),
    }
}

pub open spec fn content_range_text(start: u64, end: u64, total: u64) -> Seq<char> {
    "bytes "@ + decimal_text(start as nat) + seq!['-'] + decimal_text(end as nat) + seq!['/']
        + decimal_text(total as nat)
}

/// The `Content-Range` value of a window: `bytes <start>-<end>/<total>`.
pub fn content_range_value(w: &RangeWindow) -> (s: String)
    ensures
        s@ == content_range_text(w.start, w.end, w.total),
{
    let mut v = chars_of("bytes ");
    push_decimal(w.start, &mut v);
    v.push('-');
    push_decimal(w.end, &mut v);
    v.push('/');
    push_decimal(w.total, &mut v);
    assert(v@ =~= content_range_text(w.start, w.end, w.total));
    string_from_chars(v.as_slice())
}

/// What was found out about a requested file before serving it.
pub enum FileProbe {
    /// No file at the path.
    Missing,
    /// The file's leading bytes could not be read.
    Unreadable,
    /// The file is not a video.
    NotVideo,
    /// A video of this many bytes.
    Video(u64),
}

/// The reply for a probe that rules out serving the file, if any.
pub fn probe_failure(probe: &FileProbe) -> (r: Option<ApiError>)
    ensures
        match probe {
            FileProbe::Missing => r matches Some(e) && e.is(404, "Invalid file Request"@),
            FileProbe::Unreadable => r matches Some(e) && e.is(500, "Internal Server Error"@),
            FileProbe::NotVideo => r matches Some(e) && e.is(
                400,
                "Requested file is not a video file"@,
            ),
            FileProbe::Video(_) => r is None,
        },
{
    match probe {
        FileProbe::Missing => Some(api_error(404, "Invalid file Request")),
        FileProbe::Unreadable => Some(api_error(500, "Internal Server Error")),
        FileProbe::NotVideo => Some(api_error(400, "Requested file is not a video file")),
        FileProbe::Video(_) => None,
    }
}

/// The `Content-Type` advertised for a video path: by its extension,
/// compared without regard to case (no extension counts as empty).
pub open spec fn init_content_type(path: Seq<char>) -> Seq<char> {
    header_for_extension(
        lowercase(
            match path_extension(path) {
                Some(e) => e,
                None => Seq::empty(),
            },
        ),
    )
}

/// Answer to a range-flow init request for the file at `path`.
pub fn range_init_reply(path: &str, probe: &FileProbe) -> (r: Result<HHTPRangeReqInitResponse, ApiError>)
    ensures
        match probe {
            FileProbe::Video(len) => r matches Ok(resp) && resp.content_length == len
                && resp.content_type@ == init_content_type(path@),
            FileProbe::Missing => r matches Err(e) && e.is(404, "Invalid file Request"@),
            FileProbe::Unreadable => r matches Err(e) && e.is(500, "Internal Server Error"@),
            FileProbe::NotVideo => r matches Err(e) && e.is(
                400,
                "Requested file is not a video file"@,
            ),
        },
{
    if let Some(e) = probe_failure(probe) {
        return Err(e);
    }
    let len = match probe {
        FileProbe::Video(n) => *n,
        _ => 0,
    };
    let p = chars_of(path);
    let ext: String = match extension_of_path(p.as_slice()) {
        Some(e) => string_from_chars(e.as_slice()),
        None => string_from_chars(Vec::<char>::new().as_slice()),
    };
    assert(ext@ =~= (match path_extension(path@) {
        Some(e) => e,
        None => Seq::<char>::empty(),
    }));
    let ct = extension_to_header(&ext);
    let cs = chars_of(ct);
    Ok(HHTPRangeReqInitResponse { content_length: len, content_type: string_from_chars(cs.as_slice()) })
}

/// Step of serving a range window that can fail on the file itself.
pub enum RangeStep {
    Open,
    Metadata,
    Seek,
}

/// The reply when a step of serving a range window fails.
pub fn range_step_failure(step: RangeStep) -> (e: ApiError)
    ensures
        step is Open ==> e.is(500, "Error opening file"@),
        step is Metadata ==> e.is(500, "Error reading file metadata"@),
        step is Seek ==> e.is(500, "Error in file seek operation"@),
{
    match step {
        RangeStep::Open => api_error(500, "Error opening file"),
        RangeStep::Metadata => api_error(500, "Error reading file metadata"),
        RangeStep::Seek => api_error(500, "Error in file seek operation"),
    }
}

} // verus!
