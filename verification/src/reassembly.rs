//! Where the reassembly of a completed transfer reads its chunks and
//! writes the whole file.
use vstd::prelude::*;
use crate::text::{chars_of, push_str, string_from_chars};
use crate::upload::{chunk_dir, chunk_file_path, chunk_path, chunk_root};
use crate::upload_types::{ChunkDetails, ChunkType};

verus! {

/// The reassembled file of a transfer:
/// `<chunk root>final_data/<file name>.<extension>`.
pub open spec fn final_path(kind: ChunkType, file_name: Seq<char>, extension: Seq<char>) -> Seq<char> {
    chunk_root(kind) + "final_data/"@ + file_name + seq!['.'] + extension
}

/// The chunk directory and the reassembled file of a transfer.
pub fn reassembly_paths(details: &ChunkDetails) -> (r: (String, String))
    ensures
        r.0@ == chunk_dir(details.chunk_type, details.file_name@),
        r.1@ == final_path(details.chunk_type, details.file_name@, details.extension@),
{
    let mut dir = match details.chunk_type {
        ChunkType::Raw => chars_of("./uploads/chunk/"),
        ChunkType::Resumable => chars_of("./uploads/resumable/"),
    };
    push_str(&mut dir, details.file_name.as_str());
    let mut fin = match details.chunk_type {
        ChunkType::Raw => chars_of("./uploads/chunk/"),
        ChunkType::Resumable => chars_of("./uploads/resumable/"),
    };
    push_str(&mut fin, "final_data/");
    push_str(&mut fin, details.file_name.as_str());
    fin.push('.');
    push_str(&mut fin, details.extension.as_str());
    assert(fin@ =~= final_path(details.chunk_type, details.file_name@, details.extension@));
    (string_from_chars(dir.as_slice()), string_from_chars(fin.as_slice()))
}

/// The file reassembly reads as chunk `index` of a transfer; chunks are
/// appended in index order `0..total_chunks`.
pub fn reassembly_chunk_path(details: &ChunkDetails, index: u32) -> (p: String)
    ensures
        p@ == chunk_path(details.chunk_type, details.file_name@, index, details.extension@),
{
    chunk_file_path(details.chunk_type, details.file_name.as_str(), index, details.extension.as_str())
}

/// Why a reassembly failed.
#[derive(Clone, Copy, Debug, PartialEq, Eq, Structural)]
pub enum ReassemblyFailure {
    /// A final file left by an earlier run could not be removed.
    ClearStale,
    /// A chunk file could not be read.
    ReadChunk,
    /// A chunk could not be appended to the final file.
    AppendChunk,
}

/// What the reassembly of a transfer does next.
#[derive(Clone, Copy, Debug, PartialEq, Eq, Structural)]
pub enum ReassemblyAction {
    /// Remove a final file left by an earlier run, so that appending starts
    /// from an empty file.
    ClearStale,
    /// Read chunk `index` from the chunk directory.
    ReadChunk(u32),
    /// Append the bytes just read for chunk `index` to the final file.
    AppendChunk(u32),
    /// Remove the partial final file, then fail for the given reason.
    RemovePartial(ReassemblyFailure),
    /// Remove the chunk directory once the final file is whole.
    RemoveChunkDir,
    /// Stop: the final file is whole.
    Finished,
    /// Stop: the reassembly failed.
    Failed(ReassemblyFailure),
}

/// What the last action of a reassembly reported.
#[derive(Clone, Copy, Debug, PartialEq, Eq, Structural)]
pub enum ReassemblyEvent {
    /// Nothing was done yet.
    Started,
    /// The stale final file was removed (or there was none): `true`, or not.
    StaleCleared(bool),
    /// Chunk `index` was read: `true`, or the read failed.
    ChunkRead(u32, bool),
    /// Chunk `index` was appended: `true`, or the write failed.
    ChunkAppended(u32, bool),
    /// The partial final file was removed after the given failure (whether
    /// the removal worked does not change the outcome).
    PartialRemoved(ReassemblyFailure),
    /// The chunk directory was removed: `true`, or not.
    ChunkDirRemoved(bool),
}

/// The next action of the reassembly of a transfer of `total` chunks after
/// `event`. Chunks are appended strictly in index order; a failed read or
/// append removes the partial final file and fails the reassembly, so a
/// truncated file is never left behind; a chunk directory that cannot be
/// removed does not fail it, since the final file is already whole.
pub open spec fn reassembly_next(total: u32, event: ReassemblyEvent) -> ReassemblyAction {
    match event {
        ReassemblyEvent::Started => ReassemblyAction::ClearStale,
        ReassemblyEvent::StaleCleared(ok) => if !ok {
            ReassemblyAction::Failed(ReassemblyFailure::ClearStale)
        } else if total == 0 {
            ReassemblyAction::RemoveChunkDir
        } else {
            ReassemblyAction::ReadChunk(0)
        },
        ReassemblyEvent::ChunkRead(index, ok) => if ok {
            ReassemblyAction::AppendChunk(index)
        } else {
            ReassemblyAction::RemovePartial(ReassemblyFailure::ReadChunk)
        },
        ReassemblyEvent::ChunkAppended(index, ok) => if !ok {
            ReassemblyAction::RemovePartial(ReassemblyFailure::AppendChunk)
        } else if index + 1 < total {
            ReassemblyAction::ReadChunk((index + 1) as u32)
        } else {
            ReassemblyAction::RemoveChunkDir
        },
        ReassemblyEvent::PartialRemoved(failure) => ReassemblyAction::Failed(failure),
        ReassemblyEvent::ChunkDirRemoved(_) => ReassemblyAction::Finished,
    }
}

/// Decides the next action of the reassembly of a transfer of
/// `total_chunks` chunks from what the last action reported.
pub fn reassembly_step(total_chunks: u32, event: ReassemblyEvent) -> (a: ReassemblyAction)
    ensures
        a == reassembly_next(total_chunks, event),
{
    match event {
        ReassemblyEvent::Started => ReassemblyAction::ClearStale,
        ReassemblyEvent::StaleCleared(ok) => {
            if !ok {
                ReassemblyAction::Failed(ReassemblyFailure::ClearStale)
            } else if total_chunks == 0 {
                ReassemblyAction::RemoveChunkDir
            } else {
                ReassemblyAction::ReadChunk(0)
            }
        },
        ReassemblyEvent::ChunkRead(index, ok) => {
            if ok {
                ReassemblyAction::AppendChunk(index)
            } else {
                ReassemblyAction::RemovePartial(ReassemblyFailure::ReadChunk)
            }
        },
        ReassemblyEvent::ChunkAppended(index, ok) => {
            if !ok {
                ReassemblyAction::RemovePartial(ReassemblyFailure::AppendChunk)
            } else if index < total_chunks && total_chunks - index > 1 {
                ReassemblyAction::ReadChunk(index + 1)
            } else {
                ReassemblyAction::RemoveChunkDir
            }
        },
        ReassemblyEvent::PartialRemoved(failure) => ReassemblyAction::Failed(failure),
        ReassemblyEvent::ChunkDirRemoved(_) => ReassemblyAction::Finished,
    }
}

/// The error text of a failed reassembly.
pub open spec fn failure_text(failure: ReassemblyFailure) -> Seq<char> {
    match failure {
        ReassemblyFailure::ClearStale => "Failed to clear stale final file before reassembly"@,
        ReassemblyFailure::ReadChunk => "Failed to read chunk file"@,
        ReassemblyFailure::AppendChunk => "Failed to append chunk to final file"@,
    }
}

/// The error text of a failed reassembly.
pub fn failure_message(failure: ReassemblyFailure) -> (m: String)
    ensures
        m@ == failure_text(failure),
{
    let cs = match failure {
        ReassemblyFailure::ClearStale => chars_of("Failed to clear stale final file before reassembly"),
        ReassemblyFailure::ReadChunk => chars_of("Failed to read chunk file"),
        ReassemblyFailure::AppendChunk => chars_of("Failed to append chunk to final file"),
    };
    string_from_chars(cs.as_slice())
}

} // verus!
