//! Properties that fix what the upload and streaming flows answer: which
//! types are taken, where files are written and read back, when a chunk is
//! accepted, and when a transfer is handed to reassembly.
use vstd::prelude::*;
use crate::registry::{is_ready, ready_part};
use crate::upload::{chunk_check, fresh_details, with_chunk};
use crate::upload_types::{ChunkDetailsView, ChunkType, ProcessingStatus};
use crate::common::{is_allowed_mime, mime_base};
use crate::upload::{chunk_path, pinned_extension, start_error};
use crate::text::decimal_text;
use crate::common::header_for_extension;
use crate::paths::{path_extension, path_file_name, trimmed_path, name_extension};
use crate::stream::{init_content_type, stream_path};
use crate::paths::path_join;
use crate::reassembly::final_path;
use crate::upload::{basic_upload_outcome, multipart_upload_outcome, stream_upload_outcome};
use crate::common::extension_for_mime;
use crate::text::{lemma_first_index_unique, lemma_lead_ws_unique, lemma_trail_ws_unique, trim, before_first};
use crate::text::{after_last, lemma_last_index_unique, lowercase, all_ascii, ascii_lower};

verus! {

/// A transfer of either flow starts idle, not being reassembled; once all of
/// its chunks are in, it is among the transfers handed out for reassembly.
pub proof fn law_fresh_transfer_is_handed_out_when_complete(
    reg: Map<Seq<char>, ChunkDetailsView>,
    upload_id: Seq<char>,
    file_name: Seq<char>,
    total_chunks: u32,
    mime: Seq<char>,
    kind: ChunkType,
)
    ensures
        fresh_details(upload_id, file_name, total_chunks, mime, kind).status == ProcessingStatus::Idle,
        ({
            let full = ChunkDetailsView {
                received: Set::<u32>::range(0, total_chunks),
                ..fresh_details(upload_id, file_name, total_chunks, mime, kind)
            };
            &&& is_ready(full)
            &&& ready_part(reg.insert(upload_id, full)).contains_key(upload_id)
        }),
{
    vstd::set_lib::range_set_properties::<u32>(0, total_chunks);
}

/// Whether a chunk is accepted does not depend on the chunks already
/// received: a retried chunk is answered as it was the first time.
pub proof fn law_chunk_check_ignores_progress(
    reg: Map<Seq<char>, ChunkDetailsView>,
    content_type: Seq<char>,
    upload_id: Seq<char>,
    index: u32,
    kind: ChunkType,
    received: Set<u32>,
    earlier: u32,
)
    requires
        reg.contains_key(upload_id),
    ensures
        chunk_check(
            reg.insert(upload_id, ChunkDetailsView { received, ..reg[upload_id] }),
            content_type,
            upload_id,
            index,
            kind,
        ) == chunk_check(reg, content_type, upload_id, index, kind),
        chunk_check(
            reg.insert(upload_id, with_chunk(reg[upload_id], earlier)),
            content_type,
            upload_id,
            index,
            kind,
        ) == chunk_check(reg, content_type, upload_id, index, kind),
{
}

/// A chunk is accepted exactly when its base type is allowed, its transfer
/// is known and of this flow, its type matches the extension pinned at the
/// start, and its index lies inside the transfer.
pub proof fn law_chunk_accepted_exactly_when(
    reg: Map<Seq<char>, ChunkDetailsView>,
    content_type: Seq<char>,
    upload_id: Seq<char>,
    index: u32,
    kind: ChunkType,
)
    ensures
        chunk_check(reg, content_type, upload_id, index, kind) is Ok <==> {
            let m = mime_base(content_type);
            &&& is_allowed_mime(m)
            &&& reg.contains_key(upload_id)
            &&& reg[upload_id].chunk_type == kind
            &&& pinned_extension(m) == reg[upload_id].extension
            &&& index < reg[upload_id].total_chunks
        },
{
}

/// `Path::extension` of `<dir>/<stem>.<ext>`, where the stem is not empty
/// and holds no `/`, and the extension is not empty and holds neither `/`
/// nor `.`: the text after the last dot, whatever dots the stem holds. So
/// the range flow serves such a file by its extension: a name ending in
/// `.mp4` is served as `video/mp4`.
pub proof fn law_extension_is_text_after_last_dot(dir: Seq<char>, stem: Seq<char>, ext: Seq<char>)
    requires
        stem.len() > 0,
        ext.len() > 0,
        forall|i: int| 0 <= i < stem.len() ==> #[trigger] stem[i] != '/',
        forall|i: int| 0 <= i < ext.len() ==> #[trigger] ext[i] != '/' && ext[i] != '.',
    ensures
        path_extension(dir + seq!['/'] + stem + seq!['.'] + ext) == Some(ext),
        init_content_type(dir + seq!['/'] + stem + seq!['.'] + ext) == header_for_extension(
            lowercase(ext),
        ),
        init_content_type(dir + seq!['/'] + stem + ".mp4"@) == "video/mp4"@,
{
    lemma_extension_after_last_dot(dir, stem, ext);
    reveal_strlit(".mp4");
    reveal_strlit("mp4");
    reveal_strlit("video/mp4");
    let mp4 = "mp4"@;
    assert(".mp4"@ =~= seq!['.'] + mp4);
    assert(dir + seq!['/'] + stem + ".mp4"@ =~= dir + seq!['/'] + stem + seq!['.'] + mp4);
    lemma_extension_after_last_dot(dir, stem, mp4);
    assert(all_ascii(mp4));
    assert(mp4.map_values(|c: char| ascii_lower(c)) =~= mp4);
}

proof fn lemma_extension_after_last_dot(dir: Seq<char>, stem: Seq<char>, ext: Seq<char>)
    requires
        stem.len() > 0,
        ext.len() > 0,
        forall|i: int| 0 <= i < stem.len() ==> #[trigger] stem[i] != '/',
        forall|i: int| 0 <= i < ext.len() ==> #[trigger] ext[i] != '/' && ext[i] != '.',
    ensures
        path_extension(dir + seq!['/'] + stem + seq!['.'] + ext) == Some(ext),
        init_content_type(dir + seq!['/'] + stem + seq!['.'] + ext) == header_for_extension(
            lowercase(ext),
        ),
{
    let n = stem + seq!['.'] + ext;
    let p = dir + seq!['/'] + stem + seq!['.'] + ext;
    assert(p =~= dir + seq!['/'] + n);
    assert(p.last() == ext.last());
    assert(ext.last() == ext[ext.len() - 1]);
    assert(trimmed_path(p) == p);
    let d = dir.len() as int;
    assert forall|j: int| d < j < p.len() implies #[trigger] p[j] != '/' by {
        if j < d + 1 + stem.len() {
            assert(p[j] == stem[j - d - 1]);
        } else if j > d + 1 + stem.len() {
            assert(p[j] == ext[j - d - 2 - stem.len()]);
        }
    }
    lemma_last_index_unique(p, '/', d);
    assert(after_last(p, '/') =~= n);
    reveal_strlit("..");
    assert(n.len() >= 3);
    assert(n != ".."@);
    assert(path_file_name(p) == Some(n));
    let s = stem.len() as int;
    assert forall|j: int| s < j < n.len() implies #[trigger] n[j] != '.' by {
        assert(n[j] == ext[j - s - 1]);
    }
    lemma_last_index_unique(n, '.', s);
    assert(n.skip(s + 1) =~= ext);
    assert(name_extension(n) == Some(ext));
}

/// The streaming name of the directory a flow keeps its reassembled files
/// under.
pub open spec fn flow_dir_name(kind: ChunkType) -> Seq<char> {
    match kind {
        ChunkType::Raw => "chunk"@,
        ChunkType::Resumable => "resumable"@,
    }
}

/// Where streaming looks for a file named `n` (not an absolute path): the
/// whole-file flows straight under `./uploads/<flow>/`, the chunked and
/// resumable flows under their `final_data/` directory.
pub proof fn law_stream_path_layout(n: Seq<char>)
    requires
        !(n.len() > 0 && n[0] == '/'),
    ensures
        stream_path("basic"@, n) == "./uploads/basic/"@ + n,
        stream_path("multipart"@, n) == "./uploads/multipart/"@ + n,
        stream_path("stream"@, n) == "./uploads/stream/"@ + n,
        stream_path("chunk"@, n) == "./uploads/chunk/final_data/"@ + n,
        stream_path("resumable"@, n) == "./uploads/resumable/final_data/"@ + n,
{
    reveal_strlit("./uploads");
    reveal_strlit("basic");
    reveal_strlit("multipart");
    reveal_strlit("stream");
    reveal_strlit("chunk");
    reveal_strlit("resumable");
    reveal_strlit("final_data");
    reveal_strlit("./uploads/basic/");
    reveal_strlit("./uploads/multipart/");
    reveal_strlit("./uploads/stream/");
    reveal_strlit("./uploads/chunk/final_data/");
    reveal_strlit("./uploads/resumable/final_data/");
    assert("basic"@[0] != "chunk"@[0]);
    assert("multipart"@[0] != "resumable"@[0]);
    assert("stream"@.len() != "chunk"@.len());
    assert("stream"@.len() != "resumable"@.len());
    assert("chunk"@.len() != "resumable"@.len());
    assert(stream_path("basic"@, n) =~= "./uploads/basic/"@ + n);
    assert(stream_path("multipart"@, n) =~= "./uploads/multipart/"@ + n);
    assert(stream_path("stream"@, n) =~= "./uploads/stream/"@ + n);
    assert(stream_path("chunk"@, n) =~= "./uploads/chunk/final_data/"@ + n);
    assert(stream_path("resumable"@, n) =~= "./uploads/resumable/final_data/"@ + n);
}

/// Storing and streaming agree: a file a whole-file flow accepts under
/// `<id><extension>` is found by streaming that name from the same flow.
pub proof fn law_whole_file_streamed_from_where_stored(
    content_type: Seq<char>,
    len: nat,
    file_id: Seq<char>,
)
    ensures
        basic_upload_outcome(content_type, len, file_id) matches Ok(p) ==> p == stream_path(
            "basic"@,
            file_id + extension_for_mime(mime_base(content_type)),
        ),
        multipart_upload_outcome(Some(content_type), len, file_id) matches Ok(p) ==> p
            == stream_path("multipart"@, file_id + extension_for_mime(content_type)),
        stream_upload_outcome(content_type, file_id) matches Ok(p) ==> p == stream_path(
            "stream"@,
            file_id + extension_for_mime(mime_base(content_type)),
        ),
{
    reveal_strlit("./uploads");
    reveal_strlit("basic");
    reveal_strlit("multipart");
    reveal_strlit("stream");
    reveal_strlit("chunk");
    reveal_strlit("resumable");
    reveal_strlit("./uploads/basic");
    reveal_strlit("./uploads/multipart");
    reveal_strlit("./uploads/stream");
    assert("basic"@[0] != "chunk"@[0]);
    assert("multipart"@[0] != "resumable"@[0]);
    assert("stream"@.len() != "chunk"@.len());
    assert("stream"@.len() != "resumable"@.len());
    assert(path_join("./uploads"@, "basic"@) =~= "./uploads/basic"@);
    assert(path_join("./uploads"@, "multipart"@) =~= "./uploads/multipart"@);
    assert(path_join("./uploads"@, "stream"@) =~= "./uploads/stream"@);
}

/// Reassembly and streaming agree: the file reassembly writes for a
/// transfer is found by streaming `<file name>.<extension>` from its flow.
pub proof fn law_reassembled_file_streamed_from_where_written(
    kind: ChunkType,
    file_name: Seq<char>,
    extension: Seq<char>,
)
    requires
        !(file_name.len() > 0 && file_name[0] == '/'),
    ensures
        final_path(kind, file_name, extension) == stream_path(
            flow_dir_name(kind),
            file_name + seq!['.'] + extension,
        ),
{
    let n = file_name + seq!['.'] + extension;
    assert(!(n.len() > 0 && n[0] == '/')) by {
        if file_name.len() == 0 {
            assert(n[0] == '.');
        } else {
            assert(n[0] == file_name[0]);
        }
    }
    law_stream_path_layout(n);
    reveal_strlit("./uploads/chunk/");
    reveal_strlit("./uploads/resumable/");
    reveal_strlit("final_data/");
    reveal_strlit("./uploads/chunk/final_data/");
    reveal_strlit("./uploads/resumable/final_data/");
    assert(final_path(kind, file_name, extension) =~= stream_path(flow_dir_name(kind), n));
}

/// A base MIME type written in lowercase letters, digits and `/` is its own
/// base type.
proof fn lemma_plain_mime_base(m: Seq<char>)
    requires
        m.len() > 0,
        forall|i: int|
            0 <= i < m.len() ==> ('a' <= #[trigger] m[i] && m[i] <= 'z') || ('0' <= m[i] && m[i]
                <= '9') || m[i] == '/',
    ensures
        mime_base(m) == m,
{
    lemma_first_index_unique(m, ';', m.len() as int);
    assert(before_first(m, ';') =~= m);
    lemma_lead_ws_unique(m, 0);
    assert(m.skip(0) =~= m);
    lemma_trail_ws_unique(m, 0);
    assert(m.take(m.len() as int) =~= m);
    assert(trim(m) == m);
    assert(all_ascii(m));
    assert(m.map_values(|c: char| ascii_lower(c)) =~= m);
}

/// Every whole-file flow accepts a non-empty upload of base type `m` and
/// stores it as `<id><ext>` in its own directory.
pub open spec fn accepted_by_whole_file_flows(m: Seq<char>, ext: Seq<char>, len: nat, file_id: Seq<char>) -> bool {
    &&& basic_upload_outcome(m, len, file_id) == Ok::<Seq<char>, Seq<char>>(
        path_join("./uploads/basic"@, file_id + ext),
    )
    &&& multipart_upload_outcome(Some(m), len, file_id) == Ok::<Seq<char>, Seq<char>>(
        path_join("./uploads/multipart"@, file_id + ext),
    )
    &&& stream_upload_outcome(m, file_id) == Ok::<Seq<char>, Seq<char>>(
        path_join("./uploads/stream"@, file_id + ext),
    )
}

proof fn lemma_accepted(m: Seq<char>, ext: Seq<char>, len: nat, file_id: Seq<char>)
    requires
        len > 0,
        is_allowed_mime(m),
        extension_for_mime(m) == ext,
        mime_base(m) == m,
    ensures
        accepted_by_whole_file_flows(m, ext, len, file_id),
{
}

/// The types uploads may carry are exactly PNG, JPEG, GIF and WebP images,
/// PDF documents, and MP4 and QuickTime videos; each is accepted by every
/// whole-file flow and stored with its own extension.
pub proof fn law_allowed_upload_types(m: Seq<char>, len: nat, file_id: Seq<char>)
    requires
        len > 0,
    ensures
        is_allowed_mime(m) <==> (m == "image/png"@ || m == "image/jpeg"@ || m == "image/gif"@
            || m == "image/webp"@ || m == "application/pdf"@ || m == "video/mp4"@ || m
            == "video/quicktime"@),
        accepted_by_whole_file_flows("image/png"@, ".png"@, len, file_id),
        accepted_by_whole_file_flows("image/jpeg"@, ".jpg"@, len, file_id),
        accepted_by_whole_file_flows("image/gif"@, ".gif"@, len, file_id),
        accepted_by_whole_file_flows("image/webp"@, ".webp"@, len, file_id),
        accepted_by_whole_file_flows("application/pdf"@, ".pdf"@, len, file_id),
        accepted_by_whole_file_flows("video/mp4"@, ".mp4"@, len, file_id),
        accepted_by_whole_file_flows("video/quicktime"@, ".mov"@, len, file_id),
{
    reveal_strlit("image/png");
    reveal_strlit(".png");
    reveal_strlit("image/jpeg");
    reveal_strlit(".jpg");
    reveal_strlit("image/gif");
    reveal_strlit(".gif");
    reveal_strlit("image/webp");
    reveal_strlit(".webp");
    reveal_strlit("application/pdf");
    reveal_strlit(".pdf");
    reveal_strlit("video/mp4");
    reveal_strlit(".mp4");
    reveal_strlit("video/quicktime");
    reveal_strlit(".mov");
    assert("image/jpeg"@[6] != "image/png"@[6]);
    assert("image/gif"@[6] != "image/png"@[6]);
    assert("image/webp"@[6] != "image/jpeg"@[6]);
    assert("video/mp4"@[0] != "image/png"@[0]);
    assert("video/mp4"@[0] != "image/gif"@[0]);
    assert("video/quicktime"@[0] != "application/pdf"@[0]);
    lemma_plain_mime_base("image/png"@);
    lemma_accepted("image/png"@, ".png"@, len, file_id);
    lemma_plain_mime_base("image/jpeg"@);
    lemma_accepted("image/jpeg"@, ".jpg"@, len, file_id);
    lemma_plain_mime_base("image/gif"@);
    lemma_accepted("image/gif"@, ".gif"@, len, file_id);
    lemma_plain_mime_base("image/webp"@);
    lemma_accepted("image/webp"@, ".webp"@, len, file_id);
    lemma_plain_mime_base("application/pdf"@);
    lemma_accepted("application/pdf"@, ".pdf"@, len, file_id);
    lemma_plain_mime_base("video/mp4"@);
    lemma_accepted("video/mp4"@, ".mp4"@, len, file_id);
    lemma_plain_mime_base("video/quicktime"@);
    lemma_accepted("video/quicktime"@, ".mov"@, len, file_id);
}

/// A whole-file upload is accepted exactly when its base type is allowed
/// and, for the buffered flows, its content is not empty; a multipart file
/// part without a type is refused.
pub proof fn law_whole_file_accepted_exactly_when(
    content_type: Seq<char>,
    part_type: Option<Seq<char>>,
    len: nat,
    file_id: Seq<char>,
)
    ensures
        basic_upload_outcome(content_type, len, file_id) is Ok <==> is_allowed_mime(
            mime_base(content_type),
        ) && len > 0,
        multipart_upload_outcome(part_type, len, file_id) is Ok <==> part_type is Some
            && is_allowed_mime(part_type->0) && len > 0,
        stream_upload_outcome(content_type, file_id) is Ok <==> is_allowed_mime(
            mime_base(content_type),
        ),
{
    reveal_strlit("application/octet-stream");
    reveal_strlit("image/png");
    reveal_strlit("image/jpeg");
    reveal_strlit("image/gif");
    reveal_strlit("image/webp");
    reveal_strlit("application/pdf");
    reveal_strlit("video/mp4");
    reveal_strlit("video/quicktime");
    let o = "application/octet-stream"@;
    assert(o.len() == 24);
    assert(o != "image/png"@ && o != "image/jpeg"@ && o != "image/gif"@ && o != "image/webp"@);
    assert(o != "application/pdf"@ && o != "video/mp4"@ && o != "video/quicktime"@);
    assert(!is_allowed_mime(o));
}

/// A chunked or resumable transfer is started exactly when it announces at
/// least one chunk and its base type is allowed.
pub proof fn law_transfer_started_exactly_when(total_chunks: u32, content_type: Seq<char>)
    ensures
        start_error(total_chunks, content_type) is None <==> total_chunks > 0 && is_allowed_mime(
            mime_base(content_type),
        ),
{
}

/// Where chunk `index` of a transfer is kept: in `<file name>/` under
/// `./uploads/chunk/` for the chunked flow and `./uploads/resumable/` for
/// the resumable flow, as `<index in decimal>.<extension>`.
pub proof fn law_chunk_layout(file_name: Seq<char>, index: u32, extension: Seq<char>)
    requires
        file_name.len() > 0,
        file_name.last() != '/',
    ensures
        chunk_path(ChunkType::Raw, file_name, index, extension) == "./uploads/chunk/"@ + file_name
            + seq!['/'] + decimal_text(index as nat) + seq!['.'] + extension,
        chunk_path(ChunkType::Resumable, file_name, index, extension) == "./uploads/resumable/"@
            + file_name + seq!['/'] + decimal_text(index as nat) + seq!['.'] + extension,
{
    let d = decimal_text(index as nat);
    assert(d.len() > 0 && d[0] != '/') by {
        lemma_decimal_text_not_slash(index as nat);
    }
    let name = d + seq!['.'] + extension;
    assert(name[0] == d[0]);
    let raw = "./uploads/chunk/"@ + file_name;
    let res = "./uploads/resumable/"@ + file_name;
    assert(raw.last() == file_name.last());
    assert(res.last() == file_name.last());
    assert(chunk_path(ChunkType::Raw, file_name, index, extension) =~= raw + seq!['/'] + name);
    assert(chunk_path(ChunkType::Resumable, file_name, index, extension) =~= res + seq!['/'] + name);
    assert(raw + seq!['/'] + name =~= "./uploads/chunk/"@ + file_name + seq!['/'] + d + seq!['.'] + extension);
    assert(res + seq!['/'] + name =~= "./uploads/resumable/"@ + file_name + seq!['/'] + d + seq!['.'] + extension);
}

proof fn lemma_decimal_text_not_slash(n: nat)
    ensures
        decimal_text(n).len() > 0,
        decimal_text(n)[0] != '/',
    decreases n,
{
    if n >= 10 {
        lemma_decimal_text_not_slash(n / 10);
        assert(decimal_text(n)[0] == decimal_text(n / 10)[0]);
    }
}

/// `c` in upper case, for ASCII letters.
pub open spec fn ascii_upper(c: char) -> char {
    if 'a' <= c && c <= 'z' {
        ((c as u32) - 32) as char
    } else {
        c
    }
}

/// A base MIME type is found in a `Content-Type` value whatever the case
/// of its letters, the white space around it and the parameters after it.
pub proof fn law_mime_base_ignores_case_spaces_and_parameters(m: Seq<char>, params: Seq<char>)
    requires
        m.len() > 0,
        forall|i: int|
            0 <= i < m.len() ==> ('a' <= #[trigger] m[i] && m[i] <= 'z') || ('0' <= m[i] && m[i]
                <= '9') || m[i] == '/',
    ensures
        mime_base(m.map_values(|c: char| ascii_upper(c))) == m,
        mime_base(seq![' '] + m + seq![' ', ';'] + params) == m,
{
    let u = m.map_values(|c: char| ascii_upper(c));
    lemma_first_index_unique(u, ';', u.len() as int);
    assert(before_first(u, ';') =~= u);
    lemma_lead_ws_unique(u, 0);
    assert(u.skip(0) =~= u);
    lemma_trail_ws_unique(u, 0);
    assert(u.take(u.len() as int) =~= u);
    assert(trim(u) == u);
    assert(all_ascii(u));
    assert(u.map_values(|c: char| ascii_lower(c)) =~= m);

    let v = seq![' '] + m + seq![' ', ';'] + params;
    let k: int = m.len() as int + 2;
    assert forall|j: int| 0 <= j < k implies #[trigger] v[j] != ';' by {
        if 1 <= j < m.len() + 1 {
            assert(v[j] == m[j - 1]);
        }
    }
    assert(v[k] == ';');
    lemma_first_index_unique(v, ';', k);
    let b = v.take(k);
    assert(b =~= seq![' '] + m + seq![' ']);
    assert(b[0] == ' ' && b[1] == m[0]);
    lemma_lead_ws_unique(b, 1);
    let t = b.skip(1);
    assert(t =~= m + seq![' ']);
    assert(t[t.len() - 2] == m[m.len() - 1]);
    lemma_trail_ws_unique(t, 1);
    assert(t.take(t.len() - 1) =~= m);
    lemma_plain_mime_base(m);
}

/// The range flow serves a file stored by an upload of a PNG, JPEG, PDF,
/// MP4 or QuickTime type with that type again, whatever its stem (dots
/// included) and directory.
pub proof fn law_range_flow_serves_stored_type(dir: Seq<char>, stem: Seq<char>, m: Seq<char>)
    requires
        stem.len() > 0,
        forall|i: int| 0 <= i < stem.len() ==> #[trigger] stem[i] != '/',
        m == "image/png"@ || m == "image/jpeg"@ || m == "application/pdf"@ || m == "video/mp4"@
            || m == "video/quicktime"@,
    ensures
        init_content_type(dir + seq!['/'] + stem + extension_for_mime(m)) == m,
{
    reveal_strlit("image/gif");
    reveal_strlit("image/webp");
    reveal_strlit("mkv");
    reveal_strlit("jpeg");
    reveal_strlit("json");
    reveal_strlit("html");
    reveal_strlit("video/x-matroska");
    reveal_strlit("image/jpeg");
    reveal_strlit("application/json");
    reveal_strlit("text/html");
    reveal_strlit("image/png");
    reveal_strlit("png");
    reveal_strlit(".png");
    reveal_strlit("image/jpeg");
    reveal_strlit("jpg");
    reveal_strlit(".jpg");
    reveal_strlit("application/pdf");
    reveal_strlit("pdf");
    reveal_strlit(".pdf");
    reveal_strlit("video/mp4");
    reveal_strlit("mp4");
    reveal_strlit(".mp4");
    reveal_strlit("video/quicktime");
    reveal_strlit("mov");
    reveal_strlit(".mov");
    assert("image/jpeg"@[6] != "image/png"@[6]);
    assert("image/gif"@[6] != "image/png"@[6]);
    assert("image/webp"@[6] != "image/jpeg"@[6]);
    assert("video/mp4"@[0] != "image/png"@[0]);
    assert("video/mp4"@[0] != "image/gif"@[0]);
    assert("video/quicktime"@[0] != "application/pdf"@[0]);
    reveal_strlit("mp4");
    assert("mov"@[1] != "mp4"@[1]);
    assert("mov"@[1] != "mkv"@[1]);
    assert("png"@[0] != "mp4"@[0]);
    assert("jpg"@[0] != "mp4"@[0]);
    assert("jpg"@[0] != "png"@[0]);
    assert("pdf"@[1] != "png"@[1]);
    assert("pdf"@[0] != "jpg"@[0]);
    assert("pdf"@[0] != "mp4"@[0]);
    assert("mp4"@ != "jpeg"@);
    assert("mov"@ != "jpeg"@);
    assert("png"@ != "jpeg"@);
    assert("pdf"@ != "jpeg"@);
    if m == "image/png"@ {
        let e = "png"@;
        assert(".png"@ =~= seq!['.'] + e);
        assert(dir + seq!['/'] + stem + ".png"@ =~= dir + seq!['/'] + stem + seq!['.'] + e);
        lemma_extension_after_last_dot(dir, stem, e);
        assert(all_ascii(e));
        assert(e.map_values(|c: char| ascii_lower(c)) =~= e);
    } else if m == "image/jpeg"@ {
        let e = "jpg"@;
        assert(".jpg"@ =~= seq!['.'] + e);
        assert(dir + seq!['/'] + stem + ".jpg"@ =~= dir + seq!['/'] + stem + seq!['.'] + e);
        lemma_extension_after_last_dot(dir, stem, e);
        assert(all_ascii(e));
        assert(e.map_values(|c: char| ascii_lower(c)) =~= e);
    } else if m == "application/pdf"@ {
        let e = "pdf"@;
        assert(".pdf"@ =~= seq!['.'] + e);
        assert(dir + seq!['/'] + stem + ".pdf"@ =~= dir + seq!['/'] + stem + seq!['.'] + e);
        lemma_extension_after_last_dot(dir, stem, e);
        assert(all_ascii(e));
        assert(e.map_values(|c: char| ascii_lower(c)) =~= e);
    } else if m == "video/mp4"@ {
        let e = "mp4"@;
        assert(".mp4"@ =~= seq!['.'] + e);
        assert(dir + seq!['/'] + stem + ".mp4"@ =~= dir + seq!['/'] + stem + seq!['.'] + e);
        lemma_extension_after_last_dot(dir, stem, e);
        assert(all_ascii(e));
        assert(e.map_values(|c: char| ascii_lower(c)) =~= e);
    } else if m == "video/quicktime"@ {
        let e = "mov"@;
        assert(".mov"@ =~= seq!['.'] + e);
        assert(dir + seq!['/'] + stem + ".mov"@ =~= dir + seq!['/'] + stem + seq!['.'] + e);
        lemma_extension_after_last_dot(dir, stem, e);
        assert(all_ascii(e));
        assert(e.map_values(|c: char| ascii_lower(c)) =~= e);
    }
}

} // verus!
