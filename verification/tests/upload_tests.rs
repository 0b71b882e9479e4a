use axum_video_upload::multipart::{
    classify_buffered_field, classify_field, multipart_request, multipart_stream_outcome,
    multipart_stream_target, unexpected_field_error, unnamed_field_error, FieldRole,
};
use axum_video_upload::reassembly::{
    failure_message, reassembly_chunk_path, reassembly_paths, reassembly_step, ReassemblyAction,
    ReassemblyEvent, ReassemblyFailure,
};
use axum_video_upload::registry::UploadRegistry;
use axum_video_upload::upload::{
    accept_chunked_chunk, accept_resumable_chunk, check_basic_upload, check_chunk,
    check_multipart_upload, check_stream_upload, sorted_indices, start_chunked_upload,
    start_resumable_upload, video_upload_chunked_init_handler, video_upload_resumable_init_handler,
    video_upload_resumable_status_handler,
};
use axum_video_upload::upload_types::{
    ChunkDetails, ChunkQuery, ChunkType, ChunkedUploadInitRequest, ProcessingStatus,
    ResumableChunkQuery, ResumableStatusQuery, ResumableUploadInitRequest,
};
use std::collections::HashSet;

fn chunked_init(reg: &mut UploadRegistry, total: u32, ct: &str, id: &str, name: &str) -> Result<String, (u16, String)> {
    let req = ChunkedUploadInitRequest { total_chunks: total, content_type: ct.to_string() };
    start_chunked_upload(reg, &req, id.to_string(), name.to_string()).map(|r| r.upload_id).map_err(|e| (e.status, e.message))
}

fn resumable_init(reg: &mut UploadRegistry, total: u32, ct: &str, id: &str, name: &str) -> Result<String, (u16, String)> {
    let req = ResumableUploadInitRequest { total_chunks: total, content_type: ct.to_string() };
    start_resumable_upload(reg, &req, id.to_string(), name.to_string()).map(|r| r.upload_id).map_err(|e| (e.status, e.message))
}

fn chunk(reg: &UploadRegistry, ct: &str, id: &str, idx: u32, kind: ChunkType) -> Result<String, (u16, String)> {
    check_chunk(reg, ct, id, idx, kind).map_err(|e| (e.status, e.message))
}

fn record(reg: &mut UploadRegistry, id: &str, idx: u32) {
    let q = ChunkQuery { upload_id: id.to_string(), chunk_index: idx };
    let r = accept_chunked_chunk(reg, &q).ok().unwrap();
    assert_eq!(r.upload_id, id);
    assert_eq!(r.chunk_index, idx);
    assert_eq!(r.message, "Chunk uploaded successfully");
}

#[test]
fn basic_upload_checks() {
    assert_eq!(check_basic_upload("image/PNG; charset=x", 10, "abc"), Ok("./uploads/basic/abc.png".to_string()));
    assert_eq!(check_basic_upload(" Video/MP4 ", 1, "id"), Ok("./uploads/basic/id.mp4".to_string()));
    assert_eq!(check_basic_upload("text/plain", 10, "abc"), Err("unsupported file type: text/plain".to_string()));
    assert_eq!(check_basic_upload(" Text/Plain ;x", 10, "abc"), Err("unsupported file type: text/plain".to_string()));
    assert_eq!(check_basic_upload("video/mp4", 0, "abc"), Err("empty body".to_string()));
    assert_eq!(check_basic_upload("", 3, "abc"), Err("unsupported file type: ".to_string()));
}

#[test]
fn multipart_upload_checks() {
    assert_eq!(check_multipart_upload(None, 5, "id"), Err("unsupported file type: application/octet-stream".to_string()));
    assert_eq!(check_multipart_upload(Some("image/gif"), 0, "id"), Err("empty file".to_string()));
    assert_eq!(check_multipart_upload(Some("image/gif"), 3, "id"), Ok("./uploads/multipart/id.gif".to_string()));
    assert_eq!(check_multipart_upload(Some("IMAGE/GIF"), 3, "id"), Err("unsupported file type: IMAGE/GIF".to_string()));
}

#[test]
fn stream_upload_checks() {
    assert_eq!(check_stream_upload("video/quicktime", "id"), Ok("./uploads/stream/id.mov".to_string()));
    assert_eq!(check_stream_upload("application/zip", "id"), Err("unsupported file type: application/zip".to_string()));
}

#[test]
fn chunked_init_checks() {
    let mut reg = UploadRegistry::new();
    assert_eq!(chunked_init(&mut reg, 0, "video/mp4", "u1", "f1"), Err((400, "Total Chunks must be greater than 0".to_string())));
    assert_eq!(chunked_init(&mut reg, 3, "text/plain", "u1", "f1"), Err((400, "Unsupported file type: text/plain".to_string())));
    assert_eq!(reg.len(), 0);
    assert_eq!(chunked_init(&mut reg, 3, "Video/MP4", "u1", "f1"), Ok("u1".to_string()));
    let d = reg.get_upload_state("u1").unwrap();
    assert_eq!(d.transfer_id, "u1");
    assert_eq!(d.file_name, "f1");
    assert_eq!(d.total_chunks, 3);
    assert_eq!(d.extension, "mp4");
    assert_eq!(d.chunk_type, ChunkType::Raw);
    assert_eq!(d.status, ProcessingStatus::Idle);
    assert!(d.received_chunks.is_empty());
}

#[test]
fn chunk_checks() {
    let mut reg = UploadRegistry::new();
    chunked_init(&mut reg, 3, "video/mp4", "u1", "f1").unwrap();
    assert_eq!(chunk(&reg, "video/mp4", "u1", 0, ChunkType::Raw), Ok("./uploads/chunk/f1/0.mp4".to_string()));
    assert_eq!(chunk(&reg, "video/mp4; codecs=x", "u1", 2, ChunkType::Raw), Ok("./uploads/chunk/f1/2.mp4".to_string()));
    assert_eq!(chunk(&reg, "video/mp4", "u1", 2, ChunkType::Resumable), Err((400, "Upload ID is not a resumable transfer".to_string())));
    resumable_init(&mut reg, 2, "video/mp4", "u2", "f2").unwrap();
    assert_eq!(chunk(&reg, "video/mp4", "u2", 1, ChunkType::Resumable), Ok("./uploads/resumable/f2/1.mp4".to_string()));
    assert_eq!(chunk(&reg, "video/mp4", "u2", 1, ChunkType::Raw), Err((400, "Upload ID is not a chunked transfer".to_string())));
    assert_eq!(chunk(&reg, "video/mp4", "u1", 3, ChunkType::Raw), Err((400, "Chunk Index out of range".to_string())));
    assert_eq!(chunk(&reg, "video/mp4", "nope", 0, ChunkType::Raw), Err((400, "Invalid upload ID".to_string())));
    assert_eq!(chunk(&reg, "image/png", "u1", 0, ChunkType::Raw), Err((400, "Chunk type `image/png` does not match upload type `.mp4`".to_string())));
    assert_eq!(chunk(&reg, "text/html", "u1", 0, ChunkType::Raw), Err((400, "Unsupported file type: text/html".to_string())));
}

#[test]
fn retried_chunk_counts_once() {
    let mut reg = UploadRegistry::new();
    chunked_init(&mut reg, 2, "image/png", "u1", "f1").unwrap();
    record(&mut reg, "u1", 1);
    record(&mut reg, "u1", 1);
    assert_eq!(reg.get_upload_state("u1").unwrap().received_chunks.len(), 1);
    assert!(reg.ready_transfers().is_empty());
    record(&mut reg, "u1", 0);
    assert_eq!(reg.get_upload_state("u1").unwrap().received_chunks.len(), 2);
    let q = ChunkQuery { upload_id: "zzz".to_string(), chunk_index: 0 };
    let e = accept_chunked_chunk(&mut reg, &q).err().unwrap();
    assert_eq!((e.status, e.message.as_str()), (400, "Invalid upload ID"));
}

#[test]
fn scheduler_hands_out_complete_transfers_once() {
    let mut reg = UploadRegistry::new();
    chunked_init(&mut reg, 2, "image/png", "u1", "f1").unwrap();
    resumable_init(&mut reg, 1, "video/mp4", "u2", "f2").unwrap();
    record(&mut reg, "u1", 0);
    record(&mut reg, "u1", 1);
    let ready = reg.ready_transfers();
    assert_eq!(ready.len(), 1);
    assert_eq!(ready[0].0, "u1");
    assert_eq!(ready[0].1.file_name, "f1");
    assert_eq!(reg.set_status("u1", ProcessingStatus::InProcess), Some(()));
    assert!(reg.ready_transfers().is_empty());
    reg.finish_reassembly("u1", false);
    assert_eq!(reg.get_upload_state("u1").unwrap().status, ProcessingStatus::Idle);
    assert_eq!(reg.ready_transfers().len(), 1);
    reg.finish_reassembly("u1", true);
    assert!(reg.get_upload_state("u1").is_none());
    assert_eq!(reg.len(), 1);
    assert_eq!(reg.set_status("gone", ProcessingStatus::InProcess), None);
}

#[test]
fn resumable_status_reports_sorted_progress() {
    let mut reg = UploadRegistry::new();
    resumable_init(&mut reg, 4, "video/mp4", "r1", "f9").unwrap();
    chunked_init(&mut reg, 4, "video/mp4", "c1", "f8").unwrap();
    for idx in [3u32, 0, 3, 2] {
        let q = ResumableChunkQuery { upload_id: "r1".to_string(), chunk_index: idx };
        let r = accept_resumable_chunk(&mut reg, &q).ok().unwrap();
        assert_eq!(r.chunk_index, idx);
    }
    let s = video_upload_resumable_status_handler(&reg, &ResumableStatusQuery { upload_id: "r1".to_string() }).ok().unwrap();
    assert_eq!(s.upload_id, "r1");
    assert_eq!(s.total_chunks, 4);
    assert_eq!(s.received_chunks, vec![0, 2, 3]);
    assert!(!s.complete);
    let q = ResumableChunkQuery { upload_id: "r1".to_string(), chunk_index: 1 };
    accept_resumable_chunk(&mut reg, &q).ok().unwrap();
    let s = video_upload_resumable_status_handler(&reg, &ResumableStatusQuery { upload_id: "r1".to_string() }).ok().unwrap();
    assert_eq!(s.received_chunks, vec![0, 1, 2, 3]);
    assert!(s.complete);
    let e = video_upload_resumable_status_handler(&reg, &ResumableStatusQuery { upload_id: "c1".to_string() }).err().unwrap();
    assert_eq!((e.status, e.message.as_str()), (400, "Upload ID is not a resumable transfer"));
    let e = video_upload_resumable_status_handler(&reg, &ResumableStatusQuery { upload_id: "x".to_string() }).err().unwrap();
    assert_eq!((e.status, e.message.as_str()), (404, "Unknown or completed upload ID"));
}

#[test]
fn registry_read_after_write() {
    let mut reg = UploadRegistry::new();
    let mut set = HashSet::new();
    set.insert(7u32);
    let d = ChunkDetails {
        transfer_id: "t".to_string(),
        status: ProcessingStatus::InProcess,
        file_name: "n".to_string(),
        total_chunks: 9,
        received_chunks: set,
        extension: "png".to_string(),
        chunk_type: ChunkType::Resumable,
    };
    reg.set_upload_state("t".to_string(), d);
    let got = reg.get_upload_state("t").unwrap();
    assert_eq!(got.total_chunks, 9);
    assert!(got.received_chunks.contains(&7));
    assert_eq!(got.status, ProcessingStatus::InProcess);
    let all = reg.get_all_upload_states();
    assert_eq!(all.len(), 1);
    assert_eq!(all[0].0, "t");
    reg.remove_upload_state("t");
    assert!(reg.get_upload_state("t").is_none());
    reg.remove_upload_state("t");
    assert_eq!(reg.len(), 0);
}

#[test]
fn sorted_indices_orders_distinct() {
    let s: HashSet<u32> = [5u32, 1, 3, 4000000000, 0].into_iter().collect();
    assert_eq!(sorted_indices(&s), vec![0, 1, 3, 5, 4000000000]);
    assert!(sorted_indices(&HashSet::new()).is_empty());
}

#[test]
fn reassembly_reads_where_chunks_were_written() {
    let mut reg = UploadRegistry::new();
    chunked_init(&mut reg, 13, "video/mp4", "u1", "abc").unwrap();
    let written = chunk(&reg, "video/mp4", "u1", 12, ChunkType::Raw).unwrap();
    let d = reg.get_upload_state("u1").unwrap();
    assert_eq!(reassembly_chunk_path(&d, 12), written);
    assert_eq!(written, "./uploads/chunk/abc/12.mp4");
    let (dir, fin) = reassembly_paths(&d);
    assert_eq!(dir, "./uploads/chunk/abc");
    assert_eq!(fin, "./uploads/chunk/final_data/abc.mp4");
    resumable_init(&mut reg, 2, "image/webp", "u2", "def").unwrap();
    let d = reg.get_upload_state("u2").unwrap();
    assert_eq!(reassembly_paths(&d), ("./uploads/resumable/def".to_string(), "./uploads/resumable/final_data/def.webp".to_string()));
    assert_eq!(reassembly_chunk_path(&d, 0), "./uploads/resumable/def/0.webp");
}

#[test]
fn multipart_decisions() {
    assert!(classify_field(Some("file")) == FieldRole::File);
    assert!(classify_field(Some("name")) == FieldRole::Ignored);
    assert!(classify_field(Some("title")) == FieldRole::Ignored);
    assert!(classify_field(None) == FieldRole::Unnamed);
    assert!(classify_buffered_field(Some("file")) == FieldRole::File);
    assert!(classify_buffered_field(Some("name")) == FieldRole::Ignored);
    assert!(classify_buffered_field(Some("title")) == FieldRole::Unexpected);
    assert!(classify_buffered_field(None) == FieldRole::Unnamed);
    assert_eq!(unexpected_field_error("title"), "multipart field `title` is not expected");
    assert_eq!(unnamed_field_error(), "multipart field is missing a name");
    assert_eq!(multipart_request(None, None, Some("n".to_string())).err().unwrap(), "missing required field `file`");
    assert_eq!(multipart_request(Some(vec![1]), None, None).err().unwrap(), "missing required field `name`");
    let r = multipart_request(Some(vec![1, 2]), Some("video/mp4".to_string()), Some("a.mp4".to_string())).ok().unwrap();
    assert_eq!(r.file, vec![1, 2]);
    assert_eq!(r.file_content_type.as_deref(), Some("video/mp4"));
    assert_eq!(r._name, "a.mp4");
    assert_eq!(multipart_stream_target(None), Err("missing file name".to_string()));
    assert_eq!(multipart_stream_target(Some("")), Err("empty file name".to_string()));
    assert_eq!(multipart_stream_target(Some("v.mp4")), Ok("./uploads/multipart_stream/v.mp4".to_string()));
    assert_eq!(multipart_stream_outcome(String::new()), Err("missing required field `file`".to_string()));
    assert_eq!(multipart_stream_outcome("p".to_string()), Ok("p".to_string()));
}

#[test]
fn init_handlers_generate_ids() {
    let mut reg = UploadRegistry::new();
    let req = ChunkedUploadInitRequest { total_chunks: 2, content_type: "image/png".to_string() };
    let r = video_upload_chunked_init_handler(&mut reg, &req, [0; 16]).ok().unwrap();
    assert_eq!(r.upload_id, "00000000-0000-4000-8000-000000000000");
    let d = reg.get_upload_state(&r.upload_id).unwrap();
    assert_eq!(d.transfer_id, r.upload_id);
    assert!(d.file_name.len() >= 32);
    assert_eq!(d.extension, "png");
    let req = ResumableUploadInitRequest { total_chunks: 0, content_type: "image/png".to_string() };
    let e = video_upload_resumable_init_handler(&mut reg, &req, [7; 16]).err().unwrap();
    assert_eq!((e.status, e.message.as_str()), (400, "Total Chunks must be greater than 0"));
    let req = ResumableUploadInitRequest { total_chunks: 5, content_type: "video/quicktime".to_string() };
    let r = video_upload_resumable_init_handler(&mut reg, &req, [0xff; 16]).ok().unwrap();
    assert_eq!(r.upload_id, "ffffffff-ffff-4fff-bfff-ffffffffffff");
    let d = reg.get_upload_state(&r.upload_id).unwrap();
    assert_eq!(d.chunk_type, ChunkType::Resumable);
    assert_eq!(d.extension, "mov");
    assert_eq!(reg.len(), 2);
}

#[test]
fn reassembly_steps_follow_chunk_order() {
    assert_eq!(reassembly_step(2, ReassemblyEvent::Started), ReassemblyAction::ClearStale);
    assert_eq!(reassembly_step(2, ReassemblyEvent::StaleCleared(true)), ReassemblyAction::ReadChunk(0));
    assert_eq!(reassembly_step(2, ReassemblyEvent::ChunkRead(0, true)), ReassemblyAction::AppendChunk(0));
    assert_eq!(reassembly_step(2, ReassemblyEvent::ChunkAppended(0, true)), ReassemblyAction::ReadChunk(1));
    assert_eq!(reassembly_step(2, ReassemblyEvent::ChunkAppended(1, true)), ReassemblyAction::RemoveChunkDir);
    assert_eq!(reassembly_step(2, ReassemblyEvent::ChunkDirRemoved(true)), ReassemblyAction::Finished);
    assert_eq!(reassembly_step(0, ReassemblyEvent::StaleCleared(true)), ReassemblyAction::RemoveChunkDir);
    assert_eq!(reassembly_step(u32::MAX, ReassemblyEvent::ChunkAppended(u32::MAX - 1, true)), ReassemblyAction::RemoveChunkDir);
}

#[test]
fn reassembly_failures_remove_partial_file() {
    assert_eq!(reassembly_step(3, ReassemblyEvent::StaleCleared(false)), ReassemblyAction::Failed(ReassemblyFailure::ClearStale));
    assert_eq!(reassembly_step(3, ReassemblyEvent::ChunkRead(1, false)), ReassemblyAction::RemovePartial(ReassemblyFailure::ReadChunk));
    assert_eq!(reassembly_step(3, ReassemblyEvent::ChunkAppended(2, false)), ReassemblyAction::RemovePartial(ReassemblyFailure::AppendChunk));
    assert_eq!(reassembly_step(3, ReassemblyEvent::PartialRemoved(ReassemblyFailure::ReadChunk)), ReassemblyAction::Failed(ReassemblyFailure::ReadChunk));
    assert_eq!(reassembly_step(3, ReassemblyEvent::ChunkDirRemoved(false)), ReassemblyAction::Finished);
    assert_eq!(failure_message(ReassemblyFailure::ClearStale), "Failed to clear stale final file before reassembly");
    assert_eq!(failure_message(ReassemblyFailure::ReadChunk), "Failed to read chunk file");
    assert_eq!(failure_message(ReassemblyFailure::AppendChunk), "Failed to append chunk to final file");
}

#[test]
fn dispatch_marks_only_handed_over_transfers() {
    let mut reg = UploadRegistry::new();
    chunked_init(&mut reg, 1, "image/png", "u1", "f1").unwrap();
    record(&mut reg, "u1", 0);
    reg.record_dispatch("u1", false);
    assert_eq!(reg.get_upload_state("u1").unwrap().status, ProcessingStatus::Idle);
    assert_eq!(reg.ready_transfers().len(), 1);
    reg.record_dispatch("u1", true);
    assert_eq!(reg.get_upload_state("u1").unwrap().status, ProcessingStatus::InProcess);
    assert!(reg.ready_transfers().is_empty());
    reg.record_dispatch("gone", true);
    assert_eq!(reg.len(), 1);
}
