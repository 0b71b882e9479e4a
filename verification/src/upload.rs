//! The decisions of the upload flows: which requests are accepted, where
//! their bytes go, and how chunked and resumable transfers progress.
use vstd::prelude::*;
use std::collections::HashSet;
use crate::common::{
    extension_for_mime, generate_uuid, is_allowed_mime, is_allowed_mime_type, is_uuid_v4_text, uuid_v4_text_of,
    mime_base, mime_base_of, mime_id_text, mime_to_extension, new_mime_id, trim_start_char,
    trim_start_matches_char,
};
use crate::http::{api_error, api_error_with, ApiError};
use crate::paths::{join_path, path_join};
use crate::registry::UploadRegistry;
use crate::text::{
    chars_eq, chars_of, decimal_text, push_chars, push_decimal, push_str, string_from_chars,
};
use crate::upload_types::{
    ChunkDetails, ChunkDetailsView, ChunkType, ChunkedUploadInitRequest, ChunkedUploadInitResponse,
    ChunkedUploadResponse, ChunkQuery, ProcessingStatus, ResumableChunkQuery,
    ResumableStatusQuery, ResumableStatusResponse, ResumableUploadInitRequest,
    ResumableUploadInitResponse, ResumableUploadResponse,
};

verus! {

broadcast use vstd::std_specs::hash::group_hash_axioms;

/// A `Result` of strings, by views.
pub open spec fn text_result(r: Result<String, String>) -> Result<Seq<char>, Seq<char>> {
    match r {
        Ok(s) => Ok(s@),
        Err(e) => Err(e@),
    }
}

/// A `Result` with an error reply, by views.
pub open spec fn reply_result(r: Result<String, ApiError>) -> Result<Seq<char>, (u16, Seq<char>)> {
    match r {
        Ok(s) => Ok(s@),
        Err(e) => Err((e.status, e.message@)),
    }
}

// ---------------------------------------------------------------------------
// Whole-file uploads
// ---------------------------------------------------------------------------

/// Where an accepted whole-file upload is stored: `<dir>/<id><extension>`.
pub open spec fn stored_path(dir: Seq<char>, file_id: Seq<char>, mime: Seq<char>) -> Seq<char> {
    path_join(dir, file_id + extension_for_mime(mime))
}

/// The decision on a raw-body upload.
pub open spec fn basic_upload_outcome(content_type: Seq<char>, body_len: nat, file_id: Seq<char>) -> Result<Seq<char>, Seq<char>> {
    let m = mime_base(content_type);
    if !is_allowed_mime(m) {
        Err("unsupported file type: "@ + m)
    } else if body_len == 0 {
        Err("empty body"@)
    } else {
        Ok(stored_path("./uploads/basic"@, file_id, m))
    }
}

/// The decision on a buffered multipart upload.
pub open spec fn multipart_upload_outcome(file_content_type: Option<Seq<char>>, file_len: nat, file_id: Seq<char>) -> Result<Seq<char>, Seq<char>> {
    let m = match file_content_type {
        Some(t) => t,
        None => "application/octet-stream"@,
    };
    if !is_allowed_mime(m) {
        Err("unsupported file type: "@ + m)
    } else if file_len == 0 {
        Err("empty file"@)
    } else {
        Ok(stored_path("./uploads/multipart"@, file_id, m))
    }
}

/// The decision on a streamed upload.
pub open spec fn stream_upload_outcome(content_type: Seq<char>, file_id: Seq<char>) -> Result<Seq<char>, Seq<char>> {
    let m = mime_base(content_type);
    if !is_allowed_mime(m) {
        Err("unsupported file type: "@ + m)
    } else {
        Ok(stored_path("./uploads/stream"@, file_id, m))
    }
}

fn stored_path_of(dir: &str, file_id: &str, mime: &[char]) -> (p: String)
    ensures
        p@ == stored_path(dir@, file_id@, mime@),
{
    let d = chars_of(dir);
    let mut name = chars_of(file_id);
    let mime_text = string_from_chars(mime);
    push_str(&mut name, mime_to_extension(mime_text.as_str()));
    let full = join_path(d.as_slice(), name.as_slice());
    string_from_chars(full.as_slice())
}

fn unsupported_type(m: &[char]) -> (e: String)
    ensures
        e@ == "unsupported file type: "@ + m@,
{
    let mut v = chars_of("unsupported file type: ");
    push_chars(&mut v, m);
    string_from_chars(v.as_slice())
}

/// Checks a raw-body upload with the given `Content-Type` and body size, and
/// gives where it is stored under the identifier `file_id`.
pub fn check_basic_upload(content_type: &str, body_len: usize, file_id: &str) -> (r: Result<String, String>)
    ensures
        text_result(r) == basic_upload_outcome(content_type@, body_len as nat, file_id@),
{
    let m = mime_base_of(content_type);
    if !is_allowed_mime_type(m.as_slice()) {
        return Err(unsupported_type(m.as_slice()));
    }
    if body_len == 0 {
        let e = chars_of("empty body");
        return Err(string_from_chars(e.as_slice()));
    }
    Ok(stored_path_of("./uploads/basic", file_id, m.as_slice()))
}

/// Checks a buffered multipart upload by its file part's type and size, and
/// gives where it is stored under the identifier `file_id`.
pub fn check_multipart_upload(file_content_type: Option<&str>, file_len: usize, file_id: &str) -> (r: Result<String, String>)
    ensures
        text_result(r) == multipart_upload_outcome(
            match file_content_type {
                Some(t) => Some(t@),
                None => None,
            },
            file_len as nat,
            file_id@,
        ),
{
    let m = match file_content_type {
        Some(t) => chars_of(t),
        None => chars_of("application/octet-stream"),
    };
    if !is_allowed_mime_type(m.as_slice()) {
        return Err(unsupported_type(m.as_slice()));
    }
    if file_len == 0 {
        let e = chars_of("empty file");
        return Err(string_from_chars(e.as_slice()));
    }
    Ok(stored_path_of("./uploads/multipart", file_id, m.as_slice()))
}

/// Checks a streamed upload's `Content-Type` and gives where it is stored
/// under the identifier `file_id`.
pub fn check_stream_upload(content_type: &str, file_id: &str) -> (r: Result<String, String>)
    ensures
        text_result(r) == stream_upload_outcome(content_type@, file_id@),
{
    let m = mime_base_of(content_type);
    if !is_allowed_mime_type(m.as_slice()) {
        return Err(unsupported_type(m.as_slice()));
    }
    Ok(stored_path_of("./uploads/stream", file_id, m.as_slice()))
}

// ---------------------------------------------------------------------------
// Chunked and resumable transfers
// ---------------------------------------------------------------------------

/// The extension recorded for a transfer of MIME type `m`, without its dot.
pub open spec fn pinned_extension(m: Seq<char>) -> Seq<char> {
    trim_start_char(extension_for_mime(m), '.')
}

/// Directory prefix under which a flow keeps the chunks of a transfer.
pub open spec fn chunk_root(kind: ChunkType) -> Seq<char> {
    match kind {
        ChunkType::Raw => "./uploads/chunk/"@,
        ChunkType::Resumable => "./uploads/resumable/"@,
    }
}

/// Directory holding the chunks of a transfer.
pub open spec fn chunk_dir(kind: ChunkType, file_name: Seq<char>) -> Seq<char> {
    chunk_root(kind) + file_name
}

/// Where chunk `index` of a transfer is stored: `<index>.<extension>` in
/// the transfer's chunk directory.
pub open spec fn chunk_path(kind: ChunkType, file_name: Seq<char>, index: u32, extension: Seq<char>) -> Seq<char> {
    path_join(chunk_dir(kind, file_name), decimal_text(index as nat) + seq!['.'] + extension)
}

/// The record a new transfer starts with.
pub open spec fn fresh_details(upload_id: Seq<char>, file_name: Seq<char>, total_chunks: u32, m: Seq<char>, kind: ChunkType) -> ChunkDetailsView {
    ChunkDetailsView {
        transfer_id: upload_id,
        status: ProcessingStatus::Idle,
        file_name,
        total_chunks,
        received: Set::empty(),
        extension: pinned_extension(m),
        chunk_type: kind,
    }
}

/// The decision on starting a transfer: the error reply, if any.
pub open spec fn start_error(total_chunks: u32, content_type: Seq<char>) -> Option<(u16, Seq<char>)> {
    if total_chunks == 0 {
        Some((400, "Total Chunks must be greater than 0"@))
    } else if !is_allowed_mime(mime_base(content_type)) {
        Some((400, "Unsupported file type: "@ + mime_base(content_type)))
    } else {
        None
    }
}

/// Starts a transfer of `kind`: checks the announced chunk count and type,
/// then records the transfer under `upload_id` with chunks to be stored in
/// directory `file_name`.
fn start_transfer(
    registry: &mut UploadRegistry,
    total_chunks: u32,
    content_type: &str,
    upload_id: String,
    file_name: String,
    kind: ChunkType,
) -> (r: Result<String, ApiError>)
    ensures
        match start_error(total_chunks, content_type@) {
            Some((status, message)) => r matches Err(e) && e.is(status, message) && final(registry)@
                == old(registry)@,
            None => r matches Ok(id) && id@ == upload_id@ && final(registry)@ == old(registry)@.insert(
                upload_id@,
                fresh_details(upload_id@, file_name@, total_chunks, mime_base(content_type@), kind),
            ),
        },
{
    if total_chunks == 0 {
        return Err(api_error(400, "Total Chunks must be greater than 0"));
    }
    let m = mime_base_of(content_type);
    if !is_allowed_mime_type(m.as_slice()) {
        return Err(api_error_with(400, "Unsupported file type: ", m.as_slice()));
    }
    let mime_text = string_from_chars(m.as_slice());
    let dotted = chars_of(mime_to_extension(mime_text.as_str()));
    let ext = trim_start_matches_char(dotted.as_slice(), '.');
    let details = ChunkDetails {
        transfer_id: upload_id.clone(),
        status: ProcessingStatus::Idle,
        file_name,
        total_chunks,
        received_chunks: HashSet::new(),
        extension: string_from_chars(ext.as_slice()),
        chunk_type: kind,
    };
    let id = upload_id.clone();
    registry.set_upload_state(upload_id, details);
    Ok(id)
}

/// Starts a chunked transfer recorded under `upload_id`, its chunks stored
/// in directory `file_name`.
pub fn start_chunked_upload(
    registry: &mut UploadRegistry,
    req: &ChunkedUploadInitRequest,
    upload_id: String,
    file_name: String,
) -> (r: Result<ChunkedUploadInitResponse, ApiError>)
    ensures
        match start_error(req.total_chunks, req.content_type@) {
            Some((status, message)) => r matches Err(e) && e.is(status, message) && final(registry)@
                == old(registry)@,
            None => r matches Ok(resp) && resp.upload_id@ == upload_id@ && final(registry)@
                == old(registry)@.insert(
                upload_id@,
                fresh_details(
                    upload_id@,
                    file_name@,
                    req.total_chunks,
                    mime_base(req.content_type@),
                    ChunkType::Raw,
                ),
            ),
        },
{
    match start_transfer(
        registry,
        req.total_chunks,
        req.content_type.as_str(),
        upload_id,
        file_name,
        ChunkType::Raw,
    ) {
        Ok(id) => Ok(ChunkedUploadInitResponse { upload_id: id }),
        Err(e) => Err(e),
    }
}

/// Starts a resumable transfer recorded under `upload_id`, its chunks stored
/// in directory `file_name`.
pub fn start_resumable_upload(
    registry: &mut UploadRegistry,
    req: &ResumableUploadInitRequest,
    upload_id: String,
    file_name: String,
) -> (r: Result<ResumableUploadInitResponse, ApiError>)
    ensures
        match start_error(req.total_chunks, req.content_type@) {
            Some((status, message)) => r matches Err(e) && e.is(status, message) && final(registry)@
                == old(registry)@,
            None => r matches Ok(resp) && resp.upload_id@ == upload_id@ && final(registry)@
                == old(registry)@.insert(
                upload_id@,
                fresh_details(
                    upload_id@,
                    file_name@,
                    req.total_chunks,
                    mime_base(req.content_type@),
                    ChunkType::Resumable,
                ),
            ),
        },
{
    match start_transfer(
        registry,
        req.total_chunks,
        req.content_type.as_str(),
        upload_id,
        file_name,
        ChunkType::Resumable,
    ) {
        Ok(id) => Ok(ResumableUploadInitResponse { upload_id: id }),
        Err(e) => Err(e),
    }
}

/// Starts a chunked transfer under the id made from sixteen random bytes,
/// its chunks stored in a directory named by a new time-based file id.
pub fn video_upload_chunked_init_handler(
    registry: &mut UploadRegistry,
    req: &ChunkedUploadInitRequest,
    random: [u8; 16],
) -> (r: Result<ChunkedUploadInitResponse, ApiError>)
    ensures
        match start_error(req.total_chunks, req.content_type@) {
            Some((status, message)) => r matches Err(e) && e.is(status, message) && final(registry)@
                == old(registry)@,
            None => r matches Ok(resp) && resp.upload_id@ == uuid_v4_text_of(random@)
                && is_uuid_v4_text(resp.upload_id@) && exists|ts: u128|
                final(registry)@ == old(registry)@.insert(
                    resp.upload_id@,
                    #[trigger] fresh_details(
                        resp.upload_id@,
                        mime_id_text(ts),
                        req.total_chunks,
                        mime_base(req.content_type@),
                        ChunkType::Raw,
                    ),
                ),
        },
{
    let upload_id = generate_uuid(random);
    let file_name = new_mime_id(None);
    let ghost ts = choose|ts: u128| file_name@ == mime_id_text(ts);
    let r = start_chunked_upload(registry, req, upload_id, file_name);
    proof {
        if start_error(req.total_chunks, req.content_type@) is None {
            let _ = fresh_details(
                r->Ok_0.upload_id@,
                mime_id_text(ts),
                req.total_chunks,
                mime_base(req.content_type@),
                ChunkType::Raw,
            );
        }
    }
    r
}

/// Starts a resumable transfer under the id made from sixteen random bytes,
/// its chunks stored in a directory named by a new time-based file id.
pub fn video_upload_resumable_init_handler(
    registry: &mut UploadRegistry,
    req: &ResumableUploadInitRequest,
    random: [u8; 16],
) -> (r: Result<ResumableUploadInitResponse, ApiError>)
    ensures
        match start_error(req.total_chunks, req.content_type@) {
            Some((status, message)) => r matches Err(e) && e.is(status, message) && final(registry)@
                == old(registry)@,
            None => r matches Ok(resp) && resp.upload_id@ == uuid_v4_text_of(random@)
                && is_uuid_v4_text(resp.upload_id@) && exists|ts: u128|
                final(registry)@ == old(registry)@.insert(
                    resp.upload_id@,
                    #[trigger] fresh_details(
                        resp.upload_id@,
                        mime_id_text(ts),
                        req.total_chunks,
                        mime_base(req.content_type@),
                        ChunkType::Resumable,
                    ),
                ),
        },
{
    let upload_id = generate_uuid(random);
    let file_name = new_mime_id(None);
    let ghost ts = choose|ts: u128| file_name@ == mime_id_text(ts);
    let r = start_resumable_upload(registry, req, upload_id, file_name);
    proof {
        if start_error(req.total_chunks, req.content_type@) is None {
            let _ = fresh_details(
                r->Ok_0.upload_id@,
                mime_id_text(ts),
                req.total_chunks,
                mime_base(req.content_type@),
                ChunkType::Resumable,
            );
        }
    }
    r
}

/// The reply to a chunk sent to the `kind` flow for a transfer of the other
/// flow: the two flows keep their chunks apart and do not share progress.
pub open spec fn flow_mismatch_message(kind: ChunkType) -> Seq<char> {
    match kind {
        ChunkType::Raw => "Upload ID is not a chunked transfer"@,
        ChunkType::Resumable => "Upload ID is not a resumable transfer"@,
    }
}

/// The decision on a chunk of a `kind` flow: where to store it, or the
/// error reply.
pub open spec fn chunk_check(
    reg: Map<Seq<char>, ChunkDetailsView>,
    content_type: Seq<char>,
    upload_id: Seq<char>,
    chunk_index: u32,
    kind: ChunkType,
) -> Result<Seq<char>, (u16, Seq<char>)> {
    let m = mime_base(content_type);
    if !is_allowed_mime(m) {
        Err((400, "Unsupported file type: "@ + m))
    } else if !reg.contains_key(upload_id) {
        Err((400, "Invalid upload ID"@))
    } else {
        let d = reg[upload_id];
        if d.chunk_type != kind {
            Err((400, flow_mismatch_message(kind)))
        } else if pinned_extension(m) != d.extension {
            Err(
                (
                    400,
                    "Chunk type `"@ + m + "` does not match upload type `."@ + d.extension + "`"@,
                ),
            )
        } else if chunk_index >= d.total_chunks {
            Err((400, "Chunk Index out of range"@))
        } else {
            Ok(chunk_path(kind, d.file_name, chunk_index, d.extension))
        }
    }
}

/// Where chunk `index` of a transfer with these details is stored.
pub fn chunk_file_path(kind: ChunkType, file_name: &str, index: u32, extension: &str) -> (p: String)
    ensures
        p@ == chunk_path(kind, file_name@, index, extension@),
{
    let mut dir = match kind {
        ChunkType::Raw => chars_of("./uploads/chunk/"),
        ChunkType::Resumable => chars_of("./uploads/resumable/"),
    };
    push_str(&mut dir, file_name);
    let mut name: Vec<char> = Vec::new();
    push_decimal(index as u64, &mut name);
    name.push('.');
    push_str(&mut name, extension);
    assert(name@ =~= decimal_text(index as nat) + seq!['.'] + extension@);
    let full = join_path(dir.as_slice(), name.as_slice());
    string_from_chars(full.as_slice())
}

/// Checks a chunk of a `kind` flow against its transfer and gives where the
/// chunk is stored. A transfer started in the other flow is refused: the
/// raw-chunked and resumable flows keep their chunks in different
/// directories and do not share progress, so a chunk accepted across flows
/// would be counted but never found by reassembly. (This follows what the
/// resumable status endpoint states of the two flows; the upload handlers
/// the rule comes from did not test it.)
pub fn check_chunk(
    registry: &UploadRegistry,
    content_type: &str,
    upload_id: &str,
    chunk_index: u32,
    kind: ChunkType,
) -> (r: Result<String, ApiError>)
    ensures
        reply_result(r) == chunk_check(registry@, content_type@, upload_id@, chunk_index, kind),
{
    let m = mime_base_of(content_type);
    if !is_allowed_mime_type(m.as_slice()) {
        return Err(api_error_with(400, "Unsupported file type: ", m.as_slice()));
    }
    let details = match registry.details_of(upload_id) {
        Some(d) => d,
        None => {
            return Err(api_error(400, "Invalid upload ID"));
        },
    };
    if details.chunk_type != kind {
        return match kind {
            ChunkType::Raw => Err(api_error(400, "Upload ID is not a chunked transfer")),
            ChunkType::Resumable => Err(api_error(400, "Upload ID is not a resumable transfer")),
        };
    }
    let mime_text = string_from_chars(m.as_slice());
    let dotted = chars_of(mime_to_extension(mime_text.as_str()));
    let chunk_ext = trim_start_matches_char(dotted.as_slice(), '.');
    let ext = chars_of(details.extension.as_str());
    if !chars_eq(chunk_ext.as_slice(), ext.as_slice()) {
        let mut msg = chars_of("Chunk type `");
        push_chars(&mut msg, m.as_slice());
        push_str(&mut msg, "` does not match upload type `.");
        push_chars(&mut msg, ext.as_slice());
        push_str(&mut msg, "`");
        return Err(ApiError { status: 400, message: string_from_chars(msg.as_slice()) });
    }
    if chunk_index >= details.total_chunks {
        return Err(api_error(400, "Chunk Index out of range"));
    }
    Ok(chunk_file_path(kind, details.file_name.as_str(), chunk_index, details.extension.as_str()))
}

/// The record of a transfer after chunk `index` is stored.
pub open spec fn with_chunk(d: ChunkDetailsView, index: u32) -> ChunkDetailsView {
    ChunkDetailsView { received: d.received.insert(index), ..d }
}

/// Records a stored chunk of a chunked transfer and answers the client.
pub fn accept_chunked_chunk(registry: &mut UploadRegistry, query: &ChunkQuery) -> (r: Result<ChunkedUploadResponse, ApiError>)
    ensures
        old(registry)@.contains_key(query.upload_id@) ==> {
            &&& final(registry)@ == old(registry)@.insert(
                query.upload_id@,
                with_chunk(old(registry)@[query.upload_id@], query.chunk_index),
            )
            &&& r matches Ok(resp)
            &&& resp.upload_id@ == query.upload_id@
            &&& resp.chunk_index == query.chunk_index
            &&& resp.message@ == "Chunk uploaded successfully"@
        },
        !old(registry)@.contains_key(query.upload_id@) ==> {
            &&& final(registry)@ == old(registry)@
            &&& r matches Err(e)
            &&& e.is(400, "Invalid upload ID"@)
        },
{
    match registry.record_chunk(query.upload_id.as_str(), query.chunk_index) {
        Some(_received) => {
            let msg = chars_of("Chunk uploaded successfully");
            Ok(
                ChunkedUploadResponse {
                    upload_id: query.upload_id.clone(),
                    chunk_index: query.chunk_index,
                    message: string_from_chars(msg.as_slice()),
                },
            )
        },
        None => Err(api_error(400, "Invalid upload ID")),
    }
}

/// Records a stored chunk of a resumable transfer and answers the client.
pub fn accept_resumable_chunk(registry: &mut UploadRegistry, query: &ResumableChunkQuery) -> (r: Result<ResumableUploadResponse, ApiError>)
    ensures
        old(registry)@.contains_key(query.upload_id@) ==> {
            &&& final(registry)@ == old(registry)@.insert(
                query.upload_id@,
                with_chunk(old(registry)@[query.upload_id@], query.chunk_index),
            )
            &&& r matches Ok(resp)
            &&& resp.upload_id@ == query.upload_id@
            &&& resp.chunk_index == query.chunk_index
            &&& resp.message@ == "Chunk uploaded successfully"@
        },
        !old(registry)@.contains_key(query.upload_id@) ==> {
            &&& final(registry)@ == old(registry)@
            &&& r matches Err(e)
            &&& e.is(400, "Invalid upload ID"@)
        },
{
    match registry.record_chunk(query.upload_id.as_str(), query.chunk_index) {
        Some(_received) => {
            let msg = chars_of("Chunk uploaded successfully");
            Ok(
                ResumableUploadResponse {
                    upload_id: query.upload_id.clone(),
                    chunk_index: query.chunk_index,
                    message: string_from_chars(msg.as_slice()),
                },
            )
        },
        None => Err(api_error(400, "Invalid upload ID")),
    }
}

// ---------------------------------------------------------------------------
// Progress of resumable transfers
// ---------------------------------------------------------------------------

/// Every element is smaller than every later one.
pub open spec fn strictly_ascending(s: Seq<u32>) -> bool {
    forall|i: int, j: int| 0 <= i < j < s.len() ==> s[i] < s[j]
}

/// The elements of a set of chunk indices in ascending order.
pub fn sorted_indices(set: &HashSet<u32>) -> (r: Vec<u32>)
    ensures
        strictly_ascending(r@),
        r@.to_set() == set@,
        r@.len() == set@.len(),
{
    let mut r: Vec<u32> = Vec::new();
    let ghost all = set@;
    for x in it: set.iter()
        invariant
            it.seq().unref().to_set() == all,
            it.seq().unref().no_duplicates(),
            it.seq().len() == all.len(),
            it.seq().unref().take(it.seq().len() as int) == it.seq().unref(),
            strictly_ascending(r@),
            r@.len() == it.index(),
            r@.to_set() == it.seq().unref().take(it.index() as int).to_set(),
    {
        let v: u32 = *x;
        let ghost seen = it.seq().unref().take(it.index() as int);
        proof {
            assert(it.seq().unref()[it.index() as int] == v);
            assert(!seen.contains(v)) by {
                if seen.contains(v) {
                    let j = choose|j: int| 0 <= j < seen.len() && seen[j] == v;
                    assert(it.seq().unref()[j] == it.seq().unref()[it.index() as int]);
                }
            }
            assert(!r@.to_set().contains(v));
        }
        let mut p: usize = 0;
        while p < r.len() && r[p] < v
            invariant
                0 <= p <= r@.len(),
                forall|j: int| 0 <= j < p ==> r@[j] < v,
            decreases r@.len() - p,
        {
            p = p + 1;
        }
        proof {
            if p < r@.len() {
                assert(r@[p as int] != v) by {
                    assert(r@.to_set().contains(r@[p as int]));
                }
            }
        }
        let ghost before = r@;
        r.insert(p, v);
        proof {
            assert(r@ =~= before.insert(p as int, v));
            assert forall|i: int, j: int| 0 <= i < j < r@.len() implies r@[i] < r@[j] by {
                if j < p {
                    assert(r@[i] == before[i] && r@[j] == before[j]);
                } else if j == p {
                    assert(r@[i] == before[i]);
                } else if i < p {
                    assert(r@[i] == before[i] && r@[j] == before[j - 1]);
                } else if i == p {
                    assert(r@[j] == before[j - 1]);
                    assert(before[p as int] > v || before[p as int] < v);
                    if j - 1 > p {
                        assert(before[p as int] < before[j - 1]);
                    }
                } else {
                    assert(r@[i] == before[i - 1] && r@[j] == before[j - 1]);
                }
            }
            assert(it.seq().unref().take(it.index() + 1) =~= seen.push(v));
            assert(r@.to_set() =~= before.to_set().insert(v)) by {
                assert forall|y: u32| r@.to_set().contains(y) implies before.to_set().insert(v).contains(y) by {
                    let j = choose|j: int| 0 <= j < r@.len() && r@[j] == y;
                    if j < p {
                        assert(before[j] == y);
                    } else if j > p {
                        assert(before[j - 1] == y);
                    }
                }
                assert forall|y: u32| before.to_set().insert(v).contains(y) implies r@.to_set().contains(y) by {
                    if y == v {
                        assert(r@[p as int] == v);
                    } else {
                        let j = choose|j: int| 0 <= j < before.len() && before[j] == y;
                        if j < p {
                            assert(r@[j] == y);
                        } else {
                            assert(r@[j + 1] == y);
                        }
                    }
                }
            }
            assert(seen.push(v).to_set() =~= seen.to_set().insert(v));
        }
    }
    r
}

/// The answer to a resumable progress query.
pub fn video_upload_resumable_status_handler(registry: &UploadRegistry, query: &ResumableStatusQuery) -> (r: Result<ResumableStatusResponse, ApiError>)
    ensures
        !registry@.contains_key(query.upload_id@) ==> (r matches Err(e) && e.is(
            404,
            "Unknown or completed upload ID"@,
        )),
        registry@.contains_key(query.upload_id@) && registry@[query.upload_id@].chunk_type
            != ChunkType::Resumable ==> (r matches Err(e) && e.is(
            400,
            "Upload ID is not a resumable transfer"@,
        )),
        registry@.contains_key(query.upload_id@) && registry@[query.upload_id@].chunk_type
            == ChunkType::Resumable ==> {
            let d = registry@[query.upload_id@];
            &&& r matches Ok(resp)
            &&& resp.upload_id@ == query.upload_id@
            &&& resp.total_chunks == d.total_chunks
            &&& strictly_ascending(resp.received_chunks@)
            &&& resp.received_chunks@.to_set() == d.received
            &&& resp.complete == ((d.received.len() as u32) >= d.total_chunks)
        },
{
    match registry.details_of(query.upload_id.as_str()) {
        Some(details) => {
            if details.chunk_type != ChunkType::Resumable {
                return Err(api_error(400, "Upload ID is not a resumable transfer"));
            }
            let received = sorted_indices(&details.received_chunks);
            let complete = (received.len() as u32) >= details.total_chunks;
            Ok(
                ResumableStatusResponse {
                    upload_id: query.upload_id.clone(),
                    total_chunks: details.total_chunks,
                    received_chunks: received,
                    complete,
                },
            )
        },
        None => Err(api_error(404, "Unknown or completed upload ID")),
    }
}

} // verus!
