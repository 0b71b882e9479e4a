//! Properties that relate several operations of the library.
use vstd::prelude::*;
use vstd::set_lib::{lemma_len_subset, lemma_subset_equality};
use crate::common::{
    content_type_for_file_name, extension_for_mime, header_for_extension, is_allowed_mime,
    mime_id_text, trim_start_char,
};
use crate::reassembly::{reassembly_next, ReassemblyAction, ReassemblyEvent, ReassemblyFailure};
use crate::registry::{is_ready, ready_part};
use crate::text::{
    after_last, all_ascii, ascii_lower, hex_char, hex_fixed, hex_text, is_ascii_char,
    lemma_last_index_unique, lex_less, lowercase, pow16, zero_pad,
};
use crate::upload::{chunk_check, chunk_path, fresh_details, pinned_extension, with_chunk};
use crate::upload_types::{ChunkDetailsView, ChunkType, ProcessingStatus};

verus! {

/// Storing the same chunk twice leaves a transfer as storing it once: a
/// retried chunk is idempotent.
pub proof fn law_chunk_recording_is_idempotent(
    reg: Map<Seq<char>, ChunkDetailsView>,
    upload_id: Seq<char>,
    index: u32,
)
    requires
        reg.contains_key(upload_id),
    ensures
        ({
            let once = reg.insert(upload_id, with_chunk(reg[upload_id], index));
            once.insert(upload_id, with_chunk(once[upload_id], index)) == once
        }),
{
    let once = reg.insert(upload_id, with_chunk(reg[upload_id], index));
    assert(with_chunk(once[upload_id], index).received =~= once[upload_id].received);
    assert(once.insert(upload_id, with_chunk(once[upload_id], index)) =~= once);
}

/// Progress counts distinct chunks: a chunk already received does not
/// change the count, a new one adds exactly one.
pub proof fn law_progress_counts_distinct_chunks(d: ChunkDetailsView, index: u32)
    requires
        d.received.finite(),
    ensures
        d.received.contains(index) ==> with_chunk(d, index).received.len() == d.received.len(),
        !d.received.contains(index) ==> with_chunk(d, index).received.len() == d.received.len()
            + 1,
{
    if d.received.contains(index) {
        assert(d.received.insert(index) =~= d.received);
    }
}

/// A transfer starts with no chunk received, so with every received index
/// inside it.
pub proof fn law_fresh_transfer_in_range(
    upload_id: Seq<char>,
    file_name: Seq<char>,
    total_chunks: u32,
    mime: Seq<char>,
    kind: ChunkType,
)
    ensures
        fresh_details(upload_id, file_name, total_chunks, mime, kind).received_in_range(),
        fresh_details(upload_id, file_name, total_chunks, mime, kind).received.len() == 0,
{
}

/// A chunk that passes the checks lies inside its transfer, so storing it
/// keeps every received index inside the transfer.
pub proof fn law_accepted_chunk_stays_in_range(
    reg: Map<Seq<char>, ChunkDetailsView>,
    content_type: Seq<char>,
    upload_id: Seq<char>,
    index: u32,
    kind: ChunkType,
)
    requires
        chunk_check(reg, content_type, upload_id, index, kind) is Ok,
        reg[upload_id].received_in_range(),
    ensures
        reg.contains_key(upload_id),
        index < reg[upload_id].total_chunks,
        with_chunk(reg[upload_id], index).received_in_range(),
{
}

/// A chunk is accepted only for a transfer of the flow it was sent to, and
/// is stored at the path from which reassembly reads that chunk.
pub proof fn law_chunk_stored_where_reassembly_reads(
    reg: Map<Seq<char>, ChunkDetailsView>,
    content_type: Seq<char>,
    upload_id: Seq<char>,
    index: u32,
    kind: ChunkType,
)
    requires
        chunk_check(reg, content_type, upload_id, index, kind) is Ok,
    ensures
        reg[upload_id].chunk_type == kind,
        chunk_check(reg, content_type, upload_id, index, kind) == Ok::<
            Seq<char>,
            (u16, Seq<char>),
        >(
            chunk_path(
                reg[upload_id].chunk_type,
                reg[upload_id].file_name,
                index,
                reg[upload_id].extension,
            ),
        ),
{
}

/// When every received index lies inside the transfer, the count of received
/// chunks reaches the announced total exactly when every chunk is in.
pub proof fn law_count_complete_iff_all_received(d: ChunkDetailsView)
    requires
        d.received_in_range(),
    ensures
        d.received.finite(),
        ((d.received.len() as u32) >= d.total_chunks) <==> d.all_received(),
{
    let all = Set::<u32>::range(0, d.total_chunks);
    vstd::set_lib::range_set_properties::<u32>(0, d.total_chunks);
    assert(d.received.subset_of(all));
    lemma_len_subset(d.received, all);
    assert(d.received.len() <= d.total_chunks);
    assert((d.received.len() as u32) == d.received.len());
    if d.received.len() >= d.total_chunks {
        lemma_subset_equality(d.received, all);
        assert forall|i: u32| i < d.total_chunks implies #[trigger] d.received.contains(i) by {
            assert(all.contains(i));
        }
    }
    if d.all_received() {
        assert(d.received =~= all);
    }
}

/// A transfer is handed out for reassembly exactly when it is not already
/// being reassembled and every one of its chunks has been received.
pub proof fn law_ready_iff_all_received(d: ChunkDetailsView)
    requires
        d.received_in_range(),
    ensures
        is_ready(d) <==> (d.status != ProcessingStatus::InProcess && d.all_received()),
{
    law_count_complete_iff_all_received(d);
}

/// A transfer marked as being reassembled is not handed out again.
pub proof fn law_in_process_not_handed_out_again(reg: Map<Seq<char>, ChunkDetailsView>, upload_id: Seq<char>)
    requires
        reg.contains_key(upload_id),
    ensures
        !ready_part(
            reg.insert(upload_id, ChunkDetailsView { status: ProcessingStatus::InProcess, ..reg[upload_id] }),
        ).contains_key(upload_id),
{
}

/// A transfer whose reassembly failed is handed out again, once all of its
/// chunks are in.
pub proof fn law_failed_reassembly_is_retried(reg: Map<Seq<char>, ChunkDetailsView>, upload_id: Seq<char>)
    requires
        reg.contains_key(upload_id),
        reg[upload_id].received_in_range(),
        reg[upload_id].all_received(),
    ensures
        ready_part(
            reg.insert(upload_id, ChunkDetailsView { status: ProcessingStatus::Idle, ..reg[upload_id] }),
        ).contains_key(upload_id),
{
    let d2 = ChunkDetailsView { status: ProcessingStatus::Idle, ..reg[upload_id] };
    law_ready_iff_all_received(d2);
}

/// A record read back after it was stored is the record stored; a removed
/// record is gone.
pub proof fn law_read_after_write(reg: Map<Seq<char>, ChunkDetailsView>, upload_id: Seq<char>, d: ChunkDetailsView)
    ensures
        reg.insert(upload_id, d).contains_key(upload_id),
        reg.insert(upload_id, d)[upload_id] == d,
        !reg.insert(upload_id, d).remove(upload_id).contains_key(upload_id),
{
}

proof fn lemma_after_dot(stem: Seq<char>, ext: Seq<char>)
    requires
        forall|i: int| 0 <= i < ext.len() ==> #[trigger] ext[i] != '.',
    ensures
        after_last(stem + seq!['.'] + ext, '.') == ext,
{
    let s = stem + seq!['.'] + ext;
    assert forall|j: int| stem.len() < j < s.len() implies #[trigger] s[j] != '.' by {
        assert(s[j] == ext[j - stem.len() - 1]);
    }
    lemma_last_index_unique(s, '.', stem.len() as int);
    assert(s.skip(stem.len() as int + 1) =~= ext);
}

proof fn lemma_lowercase_of_lower(ext: Seq<char>)
    requires
        forall|i: int|
            0 <= i < ext.len() ==> ('a' <= #[trigger] ext[i] && ext[i] <= 'z') || ('0' <= ext[i]
                && ext[i] <= '9'),
    ensures
        lowercase(ext) == ext,
{
    assert(all_ascii(ext));
    assert(ext.map_values(|c: char| ascii_lower(c)) =~= ext);
}

proof fn lemma_round_trip_case(stem: Seq<char>, dotted: Seq<char>, ext: Seq<char>)
    requires
        dotted == seq!['.'] + ext,
        forall|i: int|
            0 <= i < ext.len() ==> ('a' <= #[trigger] ext[i] && ext[i] <= 'z') || ('0' <= ext[i]
                && ext[i] <= '9'),
    ensures
        lowercase(after_last(stem + dotted, '.')) == ext,
{
    assert(stem + dotted =~= stem + seq!['.'] + ext);
    lemma_after_dot(stem, ext);
    lemma_lowercase_of_lower(ext);
}

/// Serving is the reverse of storing: a file stored for an allowed MIME
/// type, under any name stem, is served with that MIME type again.
pub proof fn law_stored_type_is_served_back(m: Seq<char>, stem: Seq<char>)
    requires
        is_allowed_mime(m),
    ensures
        content_type_for_file_name(stem + extension_for_mime(m)) == m,
{
    reveal_strlit(".png");
    reveal_strlit("png");
    reveal_strlit(".jpg");
    reveal_strlit("jpg");
    reveal_strlit("jpeg");
    reveal_strlit(".gif");
    reveal_strlit("gif");
    reveal_strlit(".webp");
    reveal_strlit("webp");
    reveal_strlit(".pdf");
    reveal_strlit("pdf");
    reveal_strlit(".mp4");
    reveal_strlit("mp4");
    reveal_strlit(".mov");
    reveal_strlit("mov");
    reveal_strlit("image/png");
    reveal_strlit("image/jpeg");
    reveal_strlit("image/gif");
    reveal_strlit("image/webp");
    reveal_strlit("application/pdf");
    reveal_strlit("video/mp4");
    reveal_strlit("video/quicktime");
    if m == "image/png"@ {
        assert(".png"@ =~= seq!['.'] + "png"@);
        lemma_round_trip_case(stem, ".png"@, "png"@);
    } else if m == "image/jpeg"@ {
        assert("jpg"@[0] != "png"@[0]);
        assert(".jpg"@ =~= seq!['.'] + "jpg"@);
        lemma_round_trip_case(stem, ".jpg"@, "jpg"@);
    } else if m == "image/gif"@ {
        assert("image/gif"@[6] != "image/png"@[6]);
        assert("gif"@[0] != "png"@[0]);
        assert("gif"@[0] != "jpg"@[0]);
        assert(".gif"@ =~= seq!['.'] + "gif"@);
        lemma_round_trip_case(stem, ".gif"@, "gif"@);
    } else if m == "image/webp"@ {
        assert("image/webp"@[6] != "image/jpeg"@[6]);
        assert("webp"@[0] != "jpeg"@[0]);
        assert(".webp"@ =~= seq!['.'] + "webp"@);
        lemma_round_trip_case(stem, ".webp"@, "webp"@);
    } else if m == "application/pdf"@ {
        assert("pdf"@[1] != "png"@[1]);
        assert("pdf"@[0] != "jpg"@[0]);
        assert("pdf"@[0] != "gif"@[0]);
        assert(".pdf"@ =~= seq!['.'] + "pdf"@);
        lemma_round_trip_case(stem, ".pdf"@, "pdf"@);
    } else if m == "video/mp4"@ {
        assert("video/mp4"@[0] != "image/png"@[0]);
        assert("video/mp4"@[0] != "image/gif"@[0]);
        assert("mp4"@[0] != "png"@[0]);
        assert("mp4"@[0] != "jpg"@[0]);
        assert("mp4"@[0] != "gif"@[0]);
        assert("mp4"@[0] != "pdf"@[0]);
        assert(".mp4"@ =~= seq!['.'] + "mp4"@);
        lemma_round_trip_case(stem, ".mp4"@, "mp4"@);
    } else {
        assert("video/quicktime"@[0] != "application/pdf"@[0]);
        assert("mov"@[0] != "png"@[0]);
        assert("mov"@[0] != "jpg"@[0]);
        assert("mov"@[0] != "gif"@[0]);
        assert("mov"@[0] != "pdf"@[0]);
        assert("mov"@[1] != "mp4"@[1]);
        assert(".mov"@ =~= seq!['.'] + "mov"@);
        lemma_round_trip_case(stem, ".mov"@, "mov"@);
    }
}

proof fn lemma_trim_one_dot(ext: Seq<char>)
    requires
        ext.len() > 0,
        ext[0] != '.',
    ensures
        trim_start_char(seq!['.'] + ext, '.') == ext,
{
    let s = seq!['.'] + ext;
    assert(s.drop_first() =~= ext);
    assert(trim_start_char(ext, '.') == ext);
    assert(trim_start_char(s, '.') == trim_start_char(s.drop_first(), '.'));
}

/// The extension recorded for a transfer is the stored extension without
/// its dot, so chunk files read `<index>.<ext>` with a single dot.
pub proof fn law_pinned_extension_has_no_dot(m: Seq<char>)
    ensures
        pinned_extension(m) == extension_for_mime(m).drop_first(),
        pinned_extension(m).len() > 0,
        pinned_extension(m)[0] != '.',
{
    reveal_strlit(".png");
    reveal_strlit(".jpg");
    reveal_strlit(".gif");
    reveal_strlit(".webp");
    reveal_strlit(".pdf");
    reveal_strlit(".mp4");
    reveal_strlit(".mov");
    reveal_strlit(".bin");
    let e = extension_for_mime(m);
    assert(e.len() > 1 && e[0] == '.' && e[1] != '.');
    assert(e =~= seq!['.'] + e.drop_first());
    lemma_trim_one_dot(e.drop_first());
}

/// Lowercasing ASCII text gives ASCII text, and lowercasing it again
/// changes nothing; so the type served for an ASCII extension is the same
/// whether or not the extension was lowercased before.
pub proof fn law_ascii_lowercase_idempotent(e: Seq<char>)
    requires
        all_ascii(e),
    ensures
        all_ascii(lowercase(e)),
        lowercase(lowercase(e)) == lowercase(e),
        header_for_extension(lowercase(lowercase(e))) == header_for_extension(lowercase(e)),
{
    let l = e.map_values(|c: char| ascii_lower(c));
    assert forall|i: int| 0 <= i < l.len() implies is_ascii_char(#[trigger] l[i]) by {
        assert(is_ascii_char(e[i]));
    }
    assert(l.map_values(|c: char| ascii_lower(c)) =~= l);
}

/// An extension that, lowercased, is none of the known ones is served as
/// `application/octet-stream`.
pub proof fn law_unknown_extension_falls_back(e: Seq<char>)
    requires
        ({
            let l = lowercase(e);
            &&& l != "mp4"@
            &&& l != "mkv"@
            &&& l != "mov"@
            &&& l != "png"@
            &&& l != "jpg"@
            &&& l != "jpeg"@
            &&& l != "pdf"@
            &&& l != "json"@
            &&& l != "html"@
        }),
    ensures
        header_for_extension(lowercase(e)) == "application/octet-stream"@,
{
}

proof fn lemma_div16(a: nat, b: nat, p: nat)
    requires
        a < b,
        b < 16 * p,
    ensures
        a / 16 <= b / 16,
        b / 16 < p,
        a / 16 == b / 16 ==> a % 16 < b % 16,
{
    assert(a / 16 <= b / 16) by (nonlinear_arith)
        requires
            a < b,
    ;
    assert(b / 16 < p) by (nonlinear_arith)
        requires
            b < 16 * p,
    ;
    assert(a / 16 == b / 16 ==> a % 16 < b % 16) by (nonlinear_arith)
        requires
            a < b,
    ;
}

proof fn lemma_hex_char_mono(d1: nat, d2: nat)
    requires
        d1 < d2 < 16,
    ensures
        (hex_char(d1) as u32) < (hex_char(d2) as u32),
{
}

proof fn lemma_hex_fixed_len(n: nat, k: nat)
    ensures
        hex_fixed(n, k).len() == k,
    decreases k,
{
    if k > 0 {
        lemma_hex_fixed_len(n / 16, (k - 1) as nat);
    }
}

proof fn lemma_hex_fixed_zero(k: nat)
    ensures
        hex_fixed(0, k) == Seq::new(k, |i: int| '0'),
    decreases k,
{
    if k > 0 {
        lemma_hex_fixed_zero((k - 1) as nat);
        assert(hex_char(0) == '0');
        assert(hex_fixed(0, k) =~= Seq::new(k, |i: int| '0'));
    }
}

proof fn lemma_hex_text_len(n: nat, j: nat)
    requires
        j >= 1,
        n < pow16(j),
    ensures
        hex_text(n).len() <= j,
    decreases j,
{
    if n >= 16 {
        if j == 1 {
            assert(pow16(1) == 16) by {
                assert(pow16(0) == 1);
            }
        }
        lemma_div16(0, n, pow16((j - 1) as nat));
        lemma_hex_text_len(n / 16, (j - 1) as nat);
    }
}

proof fn lemma_pad_is_fixed(n: nat, k: nat)
    requires
        k >= 1,
        n < pow16(k),
    ensures
        zero_pad(hex_text(n), k) == hex_fixed(n, k),
    decreases k,
{
    if n < 16 {
        lemma_hex_fixed_zero((k - 1) as nat);
        assert(n / 16 == 0 && n % 16 == n);
        assert(zero_pad(hex_text(n), k) =~= hex_fixed(n, k));
    } else {
        assert(k >= 2) by {
            if k == 1 {
                assert(pow16(0) == 1);
            }
        }
        let m = n / 16;
        lemma_div16(0, n, pow16((k - 1) as nat));
        lemma_pad_is_fixed(m, (k - 1) as nat);
        lemma_hex_text_len(m, (k - 1) as nat);
        assert(zero_pad(hex_text(n), k) =~= zero_pad(hex_text(m), (k - 1) as nat).push(
            hex_char(n % 16),
        ));
    }
}

proof fn lemma_lex_extend(x: Seq<char>, y: Seq<char>, p: Seq<char>, q: Seq<char>)
    requires
        lex_less(x, y),
        x.len() == y.len(),
    ensures
        lex_less(x + p, y + q),
{
    let i = choose|i: int|
        #![trigger x.take(i), y.take(i)]
        0 <= i <= x.len() && i <= y.len() && x.take(i) == y.take(i) && ((i == x.len() && i
            < y.len()) || (i < x.len() && i < y.len() && (x[i] as u32) < (y[i] as u32)));
    assert((x + p).take(i) =~= x.take(i));
    assert((y + q).take(i) =~= y.take(i));
    assert((x + p)[i] == x[i]);
    assert((y + q)[i] == y[i]);
}

proof fn lemma_fixed_mono(a: nat, b: nat, k: nat)
    requires
        a < b < pow16(k),
    ensures
        lex_less(hex_fixed(a, k), hex_fixed(b, k)),
    decreases k,
{
    if k == 0 {
        assert(false);
    } else {
        let k1 = (k - 1) as nat;
        lemma_div16(a, b, pow16(k1));
        lemma_hex_fixed_len(a / 16, k1);
        lemma_hex_fixed_len(b / 16, k1);
        let pa = hex_fixed(a / 16, k1);
        let pb = hex_fixed(b / 16, k1);
        if a / 16 == b / 16 {
            lemma_hex_char_mono(a % 16, b % 16);
            let sa = hex_fixed(a, k);
            let sb = hex_fixed(b, k);
            assert(sa.take(k1 as int) =~= pa);
            assert(sb.take(k1 as int) =~= pb);
            assert(sa[k1 as int] == hex_char(a % 16));
            assert(sb[k1 as int] == hex_char(b % 16));
        } else {
            lemma_fixed_mono(a / 16, b / 16, k1);
            lemma_lex_extend(pa, pb, seq![hex_char(a % 16)], seq![hex_char(b % 16)]);
            assert(pa + seq![hex_char(a % 16)] =~= hex_fixed(a, k));
            assert(pb + seq![hex_char(b % 16)] =~= hex_fixed(b, k));
        }
    }
}

/// File identifiers follow the clock: the identifier of an earlier
/// timestamp (below 2^64 nanoseconds, so that it fills its 16 digits) comes
/// before that of a later one in lexicographic order. The identifier is a
/// function of the timestamp alone, so one timestamp gives one identifier.
pub proof fn law_mime_ids_follow_time(ts1: u128, ts2: u128)
    requires
        ts1 < ts2,
        ts2 < 0x1_0000_0000_0000_0000,
    ensures
        lex_less(mime_id_text(ts1), mime_id_text(ts2)),
{
    assert(pow16(16) == 0x1_0000_0000_0000_0000) by {
        reveal_with_fuel(pow16, 17);
    }
    lemma_pad_is_fixed(ts1 as nat, 16);
    lemma_pad_is_fixed(ts2 as nat, 16);
    lemma_fixed_mono(ts1 as nat, ts2 as nat, 16);
    lemma_hex_fixed_len(ts1 as nat, 16);
    lemma_hex_fixed_len(ts2 as nat, 16);
    lemma_lex_extend(
        hex_fixed(ts1 as nat, 16),
        hex_fixed(ts2 as nat, 16),
        zero_pad(hex_text(crate::common::mime_id_mix(ts1) as nat), 16),
        zero_pad(hex_text(crate::common::mime_id_mix(ts2) as nat), 16),
    );
}

/// What a reassembly step reports when the action it took succeeded.
pub open spec fn success_event(a: ReassemblyAction) -> ReassemblyEvent {
    match a {
        ReassemblyAction::ClearStale => ReassemblyEvent::StaleCleared(true),
        ReassemblyAction::ReadChunk(i) => ReassemblyEvent::ChunkRead(i, true),
        ReassemblyAction::AppendChunk(i) => ReassemblyEvent::ChunkAppended(i, true),
        ReassemblyAction::RemovePartial(f) => ReassemblyEvent::PartialRemoved(f),
        ReassemblyAction::RemoveChunkDir => ReassemblyEvent::ChunkDirRemoved(true),
        ReassemblyAction::Finished => ReassemblyEvent::Started,
        ReassemblyAction::Failed(_) => ReassemblyEvent::Started,
    }
}

/// The `n`-th action (from 0) of a reassembly of `total` chunks in which
/// every action succeeds.
pub open spec fn clean_run(total: u32, n: nat) -> ReassemblyAction
    decreases n,
{
    if n == 0 {
        reassembly_next(total, ReassemblyEvent::Started)
    } else {
        reassembly_next(total, success_event(clean_run(total, (n - 1) as nat)))
    }
}

proof fn lemma_clean_run_chunk(total: u32, k: nat)
    requires
        k < total,
    ensures
        clean_run(total, 2 * k + 1) == ReassemblyAction::ReadChunk(k as u32),
        clean_run(total, 2 * k + 2) == ReassemblyAction::AppendChunk(k as u32),
    decreases k,
{
    if k == 0 {
        assert(clean_run(total, 0) == ReassemblyAction::ClearStale);
        assert(clean_run(total, 1) == ReassemblyAction::ReadChunk(0));
    } else {
        lemma_clean_run_chunk(total, (k - 1) as nat);
        assert(clean_run(total, 2 * k + 1) == reassembly_next(
            total,
            success_event(clean_run(total, (2 * (k - 1) + 2) as nat)),
        ));
    }
    assert(clean_run(total, 2 * k + 2) == reassembly_next(
        total,
        success_event(clean_run(total, 2 * k + 1)),
    ));
}

/// A reassembly in which every action succeeds clears the stale final file,
/// then reads and appends chunks `0, 1, …, total - 1` strictly in that
/// order, then removes the chunk directory and finishes.
pub proof fn law_reassembly_appends_in_index_order(total: u32, k: nat)
    ensures
        clean_run(total, 0) == ReassemblyAction::ClearStale,
        k < total ==> clean_run(total, 2 * k + 1) == ReassemblyAction::ReadChunk(k as u32),
        k < total ==> clean_run(total, 2 * k + 2) == ReassemblyAction::AppendChunk(k as u32),
        clean_run(total, 2 * (total as nat) + 1) == ReassemblyAction::RemoveChunkDir,
        clean_run(total, 2 * (total as nat) + 2) == ReassemblyAction::Finished,
{
    if k < total {
        lemma_clean_run_chunk(total, k);
    }
    if total == 0 {
        assert(clean_run(total, 0) == ReassemblyAction::ClearStale);
        assert(clean_run(total, 1) == ReassemblyAction::RemoveChunkDir);
    } else {
        let last = (total - 1) as nat;
        lemma_clean_run_chunk(total, last);
        assert(clean_run(total, 2 * (total as nat) + 1) == reassembly_next(
            total,
            success_event(clean_run(total, 2 * last + 2)),
        ));
    }
    assert(clean_run(total, 2 * (total as nat) + 2) == reassembly_next(
        total,
        success_event(clean_run(total, 2 * (total as nat) + 1)),
    ));
}

/// A failed read or append never finishes a reassembly directly: the
/// partial final file is removed first, and the reassembly then fails for
/// that reason. A chunk directory that cannot be removed does not fail it.
pub proof fn law_reassembly_failure_removes_partial(total: u32, index: u32, failure: ReassemblyFailure)
    ensures
        reassembly_next(total, ReassemblyEvent::ChunkRead(index, false))
            == ReassemblyAction::RemovePartial(ReassemblyFailure::ReadChunk),
        reassembly_next(total, ReassemblyEvent::ChunkAppended(index, false))
            == ReassemblyAction::RemovePartial(ReassemblyFailure::AppendChunk),
        reassembly_next(total, ReassemblyEvent::PartialRemoved(failure))
            == ReassemblyAction::Failed(failure),
        reassembly_next(total, ReassemblyEvent::ChunkDirRemoved(false))
            == ReassemblyAction::Finished,
{
}

} // verus!
