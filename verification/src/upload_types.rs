//! The request, response and state records of the upload flows.
use vstd::prelude::*;
use std::collections::HashSet;

verus! {

broadcast use vstd::std_specs::hash::group_hash_axioms;

/// Body of the (retired) base64 chunk upload request.
pub struct ChunkedUploadRequest {
    pub transfer_id: Option<String>,
    pub data: String,
    pub filename: String,
}

/// Answer to an accepted chunk of a chunked upload.
pub struct ChunkedUploadResponse {
    pub upload_id: String,
    pub chunk_index: u32,
    pub message: String,
}

/// Start of a chunked upload: how many chunks will come and the file's type.
pub struct ChunkedUploadInitRequest {
    pub total_chunks: u32,
    pub content_type: String,
}

/// Answer to a chunked-upload start: the transfer's identifier.
pub struct ChunkedUploadInitResponse {
    pub upload_id: String,
}

/// Query of a chunk request: which transfer, which chunk.
pub struct ChunkQuery {
    pub upload_id: String,
    pub chunk_index: u32,
}

/// Which flow a transfer belongs to.
#[derive(Clone, Copy, Debug, PartialEq, Eq, Structural)]
pub enum ChunkType {
    Raw,
    Resumable,
}

/// Whether a transfer's reassembly has been handed out.
#[derive(Clone, Copy, Debug, PartialEq, Eq, Structural)]
pub enum ProcessingStatus {
    InProcess,
    Idle,
}

/// The state kept for one chunked or resumable transfer.
#[derive(Debug)]
pub struct ChunkDetails {
    pub transfer_id: String,
    pub status: ProcessingStatus,
    pub file_name: String,
    /// Number of chunks the client committed to at the start.
    pub total_chunks: u32,
    /// The distinct chunk indices stored so far.
    pub received_chunks: HashSet<u32>,
    pub extension: String,
    pub chunk_type: ChunkType,
}

/// The mathematical content of a `ChunkDetails`.
pub struct ChunkDetailsView {
    pub transfer_id: Seq<char>,
    pub status: ProcessingStatus,
    pub file_name: Seq<char>,
    pub total_chunks: u32,
    pub received: Set<u32>,
    pub extension: Seq<char>,
    pub chunk_type: ChunkType,
}

impl View for ChunkDetails {
    type V = ChunkDetailsView;

    open spec fn view(&self) -> ChunkDetailsView {
        ChunkDetailsView {
            transfer_id: self.transfer_id@,
            status: self.status,
            file_name: self.file_name@,
            total_chunks: self.total_chunks,
            received: self.received_chunks@,
            extension: self.extension@,
            chunk_type: self.chunk_type,
        }
    }
}

impl ChunkDetailsView {
    /// Every received index is a chunk of the transfer.
    pub open spec fn received_in_range(self) -> bool {
        forall|i: u32| #[trigger] self.received.contains(i) ==> i < self.total_chunks
    }

    /// Every chunk of the transfer has been received.
    pub open spec fn all_received(self) -> bool {
        forall|i: u32| i < self.total_chunks ==> #[trigger] self.received.contains(i)
    }
}

/// A copy of a set of chunk indices.
pub fn copy_index_set(s: &HashSet<u32>) -> (r: HashSet<u32>)
    ensures
        r@ == s@,
{
    let mut r: HashSet<u32> = HashSet::new();
    let ghost all = s@;
    for x in it: s.iter()
        invariant
            it.seq().unref().to_set() == all,
            it.seq().unref().take(it.seq().len() as int) == it.seq().unref(),
            r@ == it.seq().unref().take(it.index() as int).to_set(),
    {
        let v: u32 = *x;
        r.insert(v);
        assert(it.seq().unref().take(it.index() + 1) =~= it.seq().unref().take(
            it.index() as int,
        ).push(v));
    }
    r
}

impl ChunkDetails {
    /// A copy of these details.
    pub fn duplicate(&self) -> (r: ChunkDetails)
        ensures
            r@ == self@,
    {
        ChunkDetails {
            transfer_id: self.transfer_id.clone(),
            status: self.status,
            file_name: self.file_name.clone(),
            total_chunks: self.total_chunks,
            received_chunks: copy_index_set(&self.received_chunks),
            extension: self.extension.clone(),
            chunk_type: self.chunk_type,
        }
    }
}

/// Start of a resumable upload: how many chunks will come and the file's type.
pub struct ResumableUploadInitRequest {
    pub total_chunks: u32,
    pub content_type: String,
}

/// Answer to a resumable-upload start: the transfer's identifier.
pub struct ResumableUploadInitResponse {
    pub upload_id: String,
}

/// Query of a resumable chunk request: which transfer, which chunk.
pub struct ResumableChunkQuery {
    pub upload_id: String,
    pub chunk_index: u32,
}

/// Answer to an accepted chunk of a resumable upload.
pub struct ResumableUploadResponse {
    pub upload_id: String,
    pub chunk_index: u32,
    pub message: String,
}

/// Query of a resumable-upload progress request.
pub struct ResumableStatusQuery {
    pub upload_id: String,
}

/// What the server holds of a resumable transfer: the received chunk
/// indices, ascending and distinct, and whether that is all of them.
pub struct ResumableStatusResponse {
    pub upload_id: String,
    pub total_chunks: u32,
    pub received_chunks: Vec<u32>,
    pub complete: bool,
}

/// A buffered `multipart/form-data` upload: the file part's bytes and type,
/// and the file name it came with.
pub struct MultipartReq {
    pub file: Vec<u8>,
    pub file_content_type: Option<String>,
    pub _name: String,
}

} // verus!
