//! The verified copy engine: a chunked copy followed by a chunk-by-chunk
//! read-back check.
//!
//! The engine never touches a file. It is a state machine that tells its
//! caller what to do next (`CopyAction`) and is told what came of it. During
//! the write phase it accepts the source chunk by chunk until exactly the
//! announced number of bytes has been taken, recording length and digest of
//! every chunk. During the verify phase it asks for the same chunks again, in
//! the same order and with the same boundaries, and compares digests.

use vstd::prelude::*;
use crate::digest::{absorb, chunk_digest, differ_only_at, digest, fold, lemma_digest_detects_single_byte, lemma_fold_concat, FNV_OFFSET};

verus! {

/// Why a flash attempt failed.
#[derive(Clone, Copy, Debug, PartialEq, Eq, Hash, Structural)]
pub enum CopyError {
    /// The destination could not be opened.
    Open,
    /// Reading the source or writing the destination failed.
    Copy,
    /// The destination did not give back what was written to it.
    VerifyMismatch,
}

/// Where a copy stands. Each unfinished phase waits for the answer to one
/// request.
#[derive(Clone, Copy, Debug, PartialEq, Eq, Hash, Structural)]
pub enum CopyPhase {
    /// Waiting for the next chunk of the source.
    AwaitingSource,
    /// Waiting for the last chunk to be written and flushed.
    AwaitingWrite,
    /// Waiting for the destination to be synchronised and rewound.
    AwaitingSync,
    /// Waiting for bytes read back from the destination.
    AwaitingReadBack,
    /// Every chunk was written and read back with its digest.
    Succeeded,
    /// The attempt is over and failed.
    Failed(CopyError),
}

/// What was recorded of one chunk when it was written.
#[derive(Clone, Copy, Debug, PartialEq, Eq, Hash, Structural)]
pub struct ChunkRecord {
    pub len: usize,
    pub digest: u64,
}

/// What the caller has to do next.
#[derive(Clone, Copy, Debug, PartialEq, Eq)]
pub enum CopyAction {
    /// Read at most `max_len` bytes from the source and hand them to
    /// `source_read`.
    ReadSource { max_len: usize },
    /// Write the `len` bytes just handed in to the destination, flush it,
    /// and call `chunk_written`.
    WriteChunk { len: usize },
    /// Force the destination to stable storage, reposition it at its start
    /// and call `synced`.
    Sync,
    /// Read at most `max_len` bytes from the destination and hand them to
    /// `read_back`.
    ReadBack { max_len: usize },
    /// Nothing: the attempt is over with this result.
    Done(Result<(), CopyError>),
}

/// The mathematical state of a copy.
pub struct CopyState {
    /// The announced length of the source.
    pub source_bytes: nat,
    /// The largest chunk that is ever asked for.
    pub chunk_size: nat,
    pub phase: CopyPhase,
    /// How many bytes of the source were accepted so far.
    pub copied: nat,
    /// One record per accepted chunk, in the order of acceptance.
    pub chunks: Seq<ChunkRecord>,
    /// The chunk that is being read back.
    pub cursor: nat,
    /// How much of that chunk has been read back.
    pub filled: nat,
    /// The digest folded over that much of it.
    pub running: u64,
    /// The bytes of every accepted chunk.
    pub accepted: Seq<Seq<u8>>,
    /// The bytes of every chunk that was read back completely.
    pub replayed: Seq<Seq<u8>>,
    /// The bytes read back of the chunk under the cursor.
    pub partial: Seq<u8>,
}

impl CopyState {
    /// A copy of `source_bytes` bytes before its first request. An empty
    /// source has nothing to accept; a chunk size of zero can accept nothing.
    pub open spec fn initial(source_bytes: nat, chunk_size: nat) -> CopyState {
        CopyState {
            source_bytes,
            chunk_size,
            phase: if source_bytes == 0 {
                CopyPhase::AwaitingSync
            } else if chunk_size == 0 {
                CopyPhase::Failed(CopyError::Copy)
            } else {
                CopyPhase::AwaitingSource
            },
            copied: 0,
            chunks: Seq::empty(),
            cursor: 0,
            filled: 0,
            running: FNV_OFFSET,
            accepted: Seq::empty(),
            replayed: Seq::empty(),
            partial: Seq::empty(),
        }
    }

    /// Whether the attempt is over.
    pub open spec fn finished(self) -> bool {
        self.phase == CopyPhase::Succeeded || self.phase is Failed
    }

    /// The result of an attempt that is over.
    pub open spec fn outcome(self) -> Option<Result<(), CopyError>> {
        match self.phase {
            CopyPhase::Succeeded => Some(Ok(())),
            CopyPhase::Failed(e) => Some(Err(e)),
            _ => None,
        }
    }

    /// The most bytes that the pending read may deliver.
    pub open spec fn request_len(self) -> nat {
        match self.phase {
            CopyPhase::AwaitingSource => if self.source_bytes - self.copied < self.chunk_size {
                (self.source_bytes - self.copied) as nat
            } else {
                self.chunk_size
            },
            CopyPhase::AwaitingReadBack => (self.chunks[self.cursor as int].len - self.filled) as nat,
            _ => 0,
        }
    }

    /// What the caller has to do in this state.
    pub open spec fn request(self) -> CopyAction {
        match self.phase {
            CopyPhase::AwaitingSource => CopyAction::ReadSource { max_len: self.request_len() as usize },
            CopyPhase::AwaitingWrite => CopyAction::WriteChunk { len: self.chunks.last().len },
            CopyPhase::AwaitingSync => CopyAction::Sync,
            CopyPhase::AwaitingReadBack => CopyAction::ReadBack { max_len: self.request_len() as usize },
            CopyPhase::Succeeded => CopyAction::Done(Ok(())),
            CopyPhase::Failed(e) => CopyAction::Done(Err(e)),
        }
    }

    /// The state after something went wrong: a finished attempt stays as it
    /// is, the verify phase ends in a mismatch, every earlier phase in a
    /// failed copy.
    pub open spec fn failed(self) -> CopyState {
        match self.phase {
            CopyPhase::Succeeded => self,
            CopyPhase::Failed(_) => self,
            CopyPhase::AwaitingReadBack => CopyState {
                phase: CopyPhase::Failed(CopyError::VerifyMismatch),
                ..self
            },
            _ => CopyState { phase: CopyPhase::Failed(CopyError::Copy), ..self },
        }
    }

    /// The state after the source delivered `chunk`. A chunk is accepted when
    /// it was asked for, is not empty and is no longer than asked.
    pub open spec fn on_source(self, chunk: Seq<u8>) -> CopyState {
        if self.phase == CopyPhase::AwaitingSource && 0 < chunk.len() <= self.request_len() {
            CopyState {
                phase: CopyPhase::AwaitingWrite,
                copied: self.copied + chunk.len(),
                chunks: self.chunks.push(
                    ChunkRecord { len: chunk.len() as usize, digest: digest(chunk) },
                ),
                accepted: self.accepted.push(chunk),
                ..self
            }
        } else {
            self.failed()
        }
    }

    /// The state after the last accepted chunk was written and flushed. The
    /// write phase ends exactly when the announced length has been accepted.
    pub open spec fn on_written(self) -> CopyState {
        if self.phase == CopyPhase::AwaitingWrite {
            CopyState {
                phase: if self.copied == self.source_bytes {
                    CopyPhase::AwaitingSync
                } else {
                    CopyPhase::AwaitingSource
                },
                ..self
            }
        } else {
            self.failed()
        }
    }

    /// The state after the destination was synchronised and rewound.
    pub open spec fn on_synced(self) -> CopyState {
        if self.phase == CopyPhase::AwaitingSync {
            CopyState {
                phase: if self.chunks.len() == 0 {
                    CopyPhase::Succeeded
                } else {
                    CopyPhase::AwaitingReadBack
                },
                ..self
            }
        } else {
            self.failed()
        }
    }

    /// The state after the destination gave back `chunk`. Less than asked,
    /// even nothing, only extends the chunk under the cursor; more than asked
    /// is a mismatch. A chunk that is complete must have the recorded digest.
    pub open spec fn on_read_back(self, chunk: Seq<u8>) -> CopyState {
        if self.phase == CopyPhase::AwaitingReadBack {
            if chunk.len() > self.request_len() {
                self.failed()
            } else {
                let record = self.chunks[self.cursor as int];
                let partial = self.partial + chunk;
                let running = fold(self.running, chunk);
                if self.filled + chunk.len() < record.len {
                    CopyState { filled: self.filled + chunk.len(), running, partial, ..self }
                } else if running != record.digest {
                    CopyState {
                        phase: CopyPhase::Failed(CopyError::VerifyMismatch),
                        filled: self.filled + chunk.len(),
                        running,
                        partial,
                        ..self
                    }
                } else {
                    CopyState {
                        phase: if self.cursor + 1 == self.chunks.len() {
                            CopyPhase::Succeeded
                        } else {
                            CopyPhase::AwaitingReadBack
                        },
                        cursor: self.cursor + 1,
                        filled: 0,
                        running: FNV_OFFSET,
                        replayed: self.replayed.push(partial),
                        partial: Seq::empty(),
                        ..self
                    }
                }
            }
        } else {
            self.failed()
        }
    }

    /// What the records say of the accepted chunks.
    pub open spec fn records_accepted(self) -> bool {
        &&& self.accepted.len() == self.chunks.len()
        &&& forall|k: int|
            0 <= k < self.chunks.len() ==> {
                &&& 1 <= (#[trigger] self.chunks[k]).len <= self.chunk_size
                &&& self.accepted[k].len() == self.chunks[k].len
                &&& self.chunks[k].digest == digest(self.accepted[k])
            }
    }

    /// What is known of the chunks that were read back completely.
    pub open spec fn records_replayed(self) -> bool {
        &&& self.replayed.len() == self.cursor
        &&& self.cursor <= self.chunks.len()
        &&& forall|k: int|
            0 <= k < self.cursor ==> {
                &&& (#[trigger] self.replayed[k]).len() == self.chunks[k].len
                &&& digest(self.replayed[k]) == self.chunks[k].digest
            }
    }

    /// The invariant of the engine.
    pub open spec fn wf(self) -> bool {
        &&& self.source_bytes <= u64::MAX
        &&& self.chunk_size <= usize::MAX
        &&& self.copied <= self.source_bytes
        &&& self.copied == self.accepted.flatten().len()
        &&& self.records_accepted()
        &&& self.records_replayed()
        &&& self.partial.len() == self.filled
        &&& self.running == fold(FNV_OFFSET, self.partial)
        &&& match self.phase {
            CopyPhase::AwaitingSource => {
                &&& self.copied < self.source_bytes
                &&& self.chunk_size > 0
                &&& self.cursor == 0
                &&& self.filled == 0
            },
            CopyPhase::AwaitingWrite => {
                &&& self.chunks.len() > 0
                &&& self.cursor == 0
                &&& self.filled == 0
            },
            CopyPhase::AwaitingSync => {
                &&& self.copied == self.source_bytes
                &&& self.cursor == 0
                &&& self.filled == 0
            },
            CopyPhase::AwaitingReadBack => {
                &&& self.copied == self.source_bytes
                &&& self.cursor < self.chunks.len()
                &&& self.filled < self.chunks[self.cursor as int].len
            },
            CopyPhase::Succeeded => {
                &&& self.copied == self.source_bytes
                &&& self.cursor == self.chunks.len()
                &&& self.filled == 0
            },
            CopyPhase::Failed(_) => true,
        }
    }
}

/// A fresh copy is well formed.
pub proof fn lemma_initial_is_well_formed(source_bytes: nat, chunk_size: nat)
    requires
        source_bytes <= u64::MAX,
        chunk_size <= usize::MAX,
    ensures
        CopyState::initial(source_bytes, chunk_size).wf(),
{
    let s = CopyState::initial(source_bytes, chunk_size);
    assert(s.accepted.flatten() =~= Seq::<u8>::empty());
}

/// A failure keeps the engine well formed.
pub proof fn lemma_failed_keeps_well_formed(s: CopyState)
    requires
        s.wf(),
    ensures
        s.failed().wf(),
{
}

/// Accepting or refusing a source chunk keeps the engine well formed.
pub proof fn lemma_on_source_keeps_well_formed(s: CopyState, chunk: Seq<u8>)
    requires
        s.wf(),
    ensures
        s.on_source(chunk).wf(),
{
    let t = s.on_source(chunk);
    if s.phase == CopyPhase::AwaitingSource && 0 < chunk.len() <= s.request_len() {
        s.accepted.lemma_flatten_push(chunk);
        assert forall|k: int| 0 <= k < t.chunks.len() implies {
            &&& 1 <= (#[trigger] t.chunks[k]).len <= t.chunk_size
            &&& t.accepted[k].len() == t.chunks[k].len
            &&& t.chunks[k].digest == digest(t.accepted[k])
        } by {
            if k < s.chunks.len() {
                assert(t.chunks[k] == s.chunks[k]);
                assert(t.accepted[k] == s.accepted[k]);
            }
        }
    }
}

/// Every other answer of the write phase keeps the engine well formed.
pub proof fn lemma_write_steps_keep_well_formed(s: CopyState)
    requires
        s.wf(),
    ensures
        s.on_written().wf(),
        s.on_synced().wf(),
{
    if s.phase == CopyPhase::AwaitingSync && s.chunks.len() > 0 {
        assert(s.chunks[0].len >= 1);
    }
}

/// Taking in bytes that were read back keeps the engine well formed.
pub proof fn lemma_on_read_back_keeps_well_formed(s: CopyState, chunk: Seq<u8>)
    requires
        s.wf(),
    ensures
        s.on_read_back(chunk).wf(),
{
    let t = s.on_read_back(chunk);
    if s.phase == CopyPhase::AwaitingReadBack && chunk.len() <= s.request_len() {
        let record = s.chunks[s.cursor as int];
        lemma_fold_concat(FNV_OFFSET, s.partial, chunk);
        if s.filled + chunk.len() < record.len {
        } else if fold(s.running, chunk) != record.digest {
        } else {
            assert(fold(FNV_OFFSET, Seq::<u8>::empty()) == FNV_OFFSET);
            assert forall|k: int| 0 <= k < t.cursor implies {
                &&& (#[trigger] t.replayed[k]).len() == t.chunks[k].len
                &&& digest(t.replayed[k]) == t.chunks[k].digest
            } by {
                if k < s.cursor {
                    assert(t.replayed[k] == s.replayed[k]);
                }
            }
            if t.cursor < t.chunks.len() {
                assert(t.chunks[t.cursor as int].len >= 1);
            }
        }
    }
}

/// A finished attempt is final: no answer changes it, so a failure never
/// turns into a success.
pub proof fn lemma_finished_is_final(s: CopyState, chunk: Seq<u8>)
    requires
        s.finished(),
    ensures
        s.on_source(chunk) == s,
        s.on_written() == s,
        s.on_synced() == s,
        s.on_read_back(chunk) == s,
        s.failed() == s,
{
}

/// Success means that every chunk that was written came back, in the same
/// order, with the same length and the same digest, and that the announced
/// number of bytes was written.
pub proof fn lemma_success_reproduces_every_chunk(s: CopyState)
    requires
        s.wf(),
        s.phase == CopyPhase::Succeeded,
    ensures
        s.accepted.flatten().len() == s.source_bytes,
        s.replayed.len() == s.accepted.len(),
        forall|k: int|
            0 <= k < s.accepted.len() ==> {
                &&& (#[trigger] s.replayed[k]).len() == s.accepted[k].len()
                &&& digest(s.replayed[k]) == digest(s.accepted[k])
            },
{
    assert forall|k: int| 0 <= k < s.accepted.len() implies {
        &&& (#[trigger] s.replayed[k]).len() == s.accepted[k].len()
        &&& digest(s.replayed[k]) == digest(s.accepted[k])
    } by {
        assert(s.chunks[k].digest == digest(s.accepted[k]));
    }
}

/// A chunk that came back with exactly one byte altered is never part of a
/// success.
pub proof fn lemma_success_excludes_single_altered_byte(s: CopyState, k: int, at: int)
    requires
        s.wf(),
        0 <= k < s.replayed.len(),
        differ_only_at(s.accepted[k], s.replayed[k], at),
    ensures
        s.phase != CopyPhase::Succeeded,
{
    assert(s.chunks[k].digest == digest(s.accepted[k]));
    assert(digest(s.replayed[k]) == s.chunks[k].digest);
    lemma_digest_detects_single_byte(s.accepted[k], s.replayed[k], at);
}

/// A chunk that completes with another digest than the recorded one ends the
/// attempt in a mismatch.
pub proof fn lemma_wrong_digest_fails(s: CopyState, chunk: Seq<u8>)
    requires
        s.wf(),
        s.phase == CopyPhase::AwaitingReadBack,
        chunk.len() == s.request_len(),
        digest(s.partial + chunk) != s.chunks[s.cursor as int].digest,
    ensures
        s.on_read_back(chunk).phase == CopyPhase::Failed(CopyError::VerifyMismatch),
{
    lemma_fold_concat(FNV_OFFSET, s.partial, chunk);
}

/// A destination that gives back the accepted bytes of the chunk under the
/// cursor, in pieces of any size, never causes a mismatch.
pub proof fn lemma_faithful_read_back_never_fails(s: CopyState, chunk: Seq<u8>)
    requires
        s.wf(),
        s.phase == CopyPhase::AwaitingReadBack,
        chunk.len() <= s.request_len(),
        s.partial + chunk == s.accepted[s.cursor as int].take(s.filled + chunk.len() as int),
    ensures
        !(s.on_read_back(chunk).phase is Failed),
{
    let record = s.chunks[s.cursor as int];
    lemma_fold_concat(FNV_OFFSET, s.partial, chunk);
    if s.filled + chunk.len() == record.len {
        let whole = s.accepted[s.cursor as int];
        assert(whole.take(whole.len() as int) =~= whole);
    }
}

/// The copy engine. Its fields are private: it is driven through the
/// answers below and read through `request` and the getters.
pub struct CopyEngine {
    source_bytes: u64,
    chunk_size: usize,
    phase: CopyPhase,
    copied: u64,
    chunks: Vec<ChunkRecord>,
    cursor: usize,
    filled: usize,
    running: u64,
    accepted: Ghost<Seq<Seq<u8>>>,
    replayed: Ghost<Seq<Seq<u8>>>,
    partial: Ghost<Seq<u8>>,
}

impl View for CopyEngine {
    type V = CopyState;

    closed spec fn view(&self) -> CopyState {
        CopyState {
            source_bytes: self.source_bytes as nat,
            chunk_size: self.chunk_size as nat,
            phase: self.phase,
            copied: self.copied as nat,
            chunks: self.chunks@,
            cursor: self.cursor as nat,
            filled: self.filled as nat,
            running: self.running,
            accepted: self.accepted@,
            replayed: self.replayed@,
            partial: self.partial@,
        }
    }
}

impl CopyEngine {
    /// The invariant that `new` establishes and every answer keeps.
    pub open spec fn wf(&self) -> bool {
        self@.wf()
    }

    /// An engine for a source of `source_bytes` bytes, copied in chunks of at
    /// most `chunk_size` bytes.
    pub fn new(source_bytes: u64, chunk_size: usize) -> (engine: CopyEngine)
        ensures
            engine.wf(),
            engine@ == CopyState::initial(source_bytes as nat, chunk_size as nat),
    {
        proof {
            lemma_initial_is_well_formed(source_bytes as nat, chunk_size as nat);
        }
        let phase = if source_bytes == 0 {
            CopyPhase::AwaitingSync
        } else if chunk_size == 0 {
            CopyPhase::Failed(CopyError::Copy)
        } else {
            CopyPhase::AwaitingSource
        };
        CopyEngine {
            source_bytes,
            chunk_size,
            phase,
            copied: 0,
            chunks: Vec::new(),
            cursor: 0,
            filled: 0,
            running: FNV_OFFSET,
            accepted: Ghost(Seq::empty()),
            replayed: Ghost(Seq::empty()),
            partial: Ghost(Seq::empty()),
        }
    }

    /// Where the copy stands.
    pub fn phase(&self) -> (phase: CopyPhase)
        ensures
            phase == self@.phase,
    {
        self.phase
    }

    /// The result, once the attempt is over.
    pub fn outcome(&self) -> (result: Option<Result<(), CopyError>>)
        ensures
            result == self@.outcome(),
    {
        match self.phase {
            CopyPhase::Succeeded => Some(Ok(())),
            CopyPhase::Failed(e) => Some(Err(e)),
            _ => None,
        }
    }

    /// How many bytes of the source were accepted so far.
    pub fn bytes_copied(&self) -> (copied: u64)
        ensures
            copied == self@.copied,
    {
        self.copied
    }

    /// How many chunks were recorded so far.
    pub fn chunk_count(&self) -> (count: usize)
        ensures
            count == self@.chunks.len(),
    {
        self.chunks.len()
    }

    /// How many chunks were read back with their digest so far.
    pub fn chunks_verified(&self) -> (count: usize)
        ensures
            count == self@.cursor,
    {
        self.cursor
    }

    /// The record of chunk `index`, if there is one.
    pub fn chunk(&self, index: usize) -> (record: Option<ChunkRecord>)
        ensures
            record == if index < self@.chunks.len() {
                Some(self@.chunks[index as int])
            } else {
                None
            },
    {
        if index < self.chunks.len() {
            Some(self.chunks[index])
        } else {
            None
        }
    }

    fn pending_len(&self) -> (len: usize)
        requires
            self.wf(),
        ensures
            len == self@.request_len(),
    {
        match self.phase {
            CopyPhase::AwaitingSource => {
                let remaining: u64 = self.source_bytes - self.copied;
                if remaining < self.chunk_size as u64 {
                    remaining as usize
                } else {
                    self.chunk_size
                }
            },
            CopyPhase::AwaitingReadBack => self.chunks[self.cursor].len - self.filled,
            _ => 0,
        }
    }

    /// What the caller has to do next.
    pub fn request(&self) -> (action: CopyAction)
        requires
            self.wf(),
        ensures
            action == self@.request(),
    {
        match self.phase {
            CopyPhase::AwaitingSource => CopyAction::ReadSource { max_len: self.pending_len() },
            CopyPhase::AwaitingWrite => {
                let last: usize = self.chunks.len() - 1;
                CopyAction::WriteChunk { len: self.chunks[last].len }
            },
            CopyPhase::AwaitingSync => CopyAction::Sync,
            CopyPhase::AwaitingReadBack => CopyAction::ReadBack { max_len: self.pending_len() },
            CopyPhase::Succeeded => CopyAction::Done(Ok(())),
            CopyPhase::Failed(e) => CopyAction::Done(Err(e)),
        }
    }

    fn fail_now(&mut self)
        ensures
            final(self)@ == old(self)@.failed(),
    {
        match self.phase {
            CopyPhase::Succeeded => {},
            CopyPhase::Failed(_) => {},
            CopyPhase::AwaitingReadBack => {
                self.phase = CopyPhase::Failed(CopyError::VerifyMismatch);
            },
            _ => {
                self.phase = CopyPhase::Failed(CopyError::Copy);
            },
        }
    }

    /// The caller could not do what was asked (a read, a write or the
    /// synchronisation failed), or cannot go on.
    pub fn io_failed(&mut self) -> (next: CopyAction)
        requires
            old(self).wf(),
        ensures
            final(self).wf(),
            final(self)@ == old(self)@.failed(),
            next == final(self)@.request(),
    {
        proof {
            lemma_failed_keeps_well_formed(self@);
        }
        self.fail_now();
        self.request()
    }

    /// The source delivered `chunk`.
    pub fn source_read(&mut self, chunk: &[u8]) -> (next: CopyAction)
        requires
            old(self).wf(),
        ensures
            final(self).wf(),
            final(self)@ == old(self)@.on_source(chunk@),
            next == final(self)@.request(),
    {
        proof {
            lemma_on_source_keeps_well_formed(self@, chunk@);
        }
        let limit = self.pending_len();
        if matches!(self.phase, CopyPhase::AwaitingSource) && 0 < chunk.len() && chunk.len() <= limit {
            let record = ChunkRecord { len: chunk.len(), digest: chunk_digest(chunk) };
            self.chunks.push(record);
            self.copied = self.copied + chunk.len() as u64;
            self.accepted = Ghost(self.accepted@.push(chunk@));
            self.phase = CopyPhase::AwaitingWrite;
        } else {
            self.fail_now();
        }
        self.request()
    }

    /// The chunk that was handed in last has been written and flushed.
    pub fn chunk_written(&mut self) -> (next: CopyAction)
        requires
            old(self).wf(),
        ensures
            final(self).wf(),
            final(self)@ == old(self)@.on_written(),
            next == final(self)@.request(),
    {
        proof {
            lemma_write_steps_keep_well_formed(self@);
        }
        if matches!(self.phase, CopyPhase::AwaitingWrite) {
            if self.copied == self.source_bytes {
                self.phase = CopyPhase::AwaitingSync;
            } else {
                self.phase = CopyPhase::AwaitingSource;
            }
        } else {
            self.fail_now();
        }
        self.request()
    }

    /// The destination has been forced to stable storage and rewound.
    pub fn synced(&mut self) -> (next: CopyAction)
        requires
            old(self).wf(),
        ensures
            final(self).wf(),
            final(self)@ == old(self)@.on_synced(),
            next == final(self)@.request(),
    {
        proof {
            lemma_write_steps_keep_well_formed(self@);
        }
        if matches!(self.phase, CopyPhase::AwaitingSync) {
            if self.chunks.len() == 0 {
                self.phase = CopyPhase::Succeeded;
            } else {
                self.phase = CopyPhase::AwaitingReadBack;
            }
        } else {
            self.fail_now();
        }
        self.request()
    }

    /// The destination gave back `chunk`.
    pub fn read_back(&mut self, chunk: &[u8]) -> (next: CopyAction)
        requires
            old(self).wf(),
        ensures
            final(self).wf(),
            final(self)@ == old(self)@.on_read_back(chunk@),
            next == final(self)@.request(),
    {
        proof {
            lemma_on_read_back_keeps_well_formed(self@, chunk@);
        }
        let limit = self.pending_len();
        if matches!(self.phase, CopyPhase::AwaitingReadBack) && chunk.len() <= limit {
            let count = self.chunks.len();
            let record = self.chunks[self.cursor];
            let next_cursor: usize = self.cursor + 1;
            let running = absorb(self.running, chunk);
            let filled: usize = self.filled + chunk.len();
            if filled < record.len {
                self.filled = filled;
                self.running = running;
                self.partial = Ghost(self.partial@ + chunk@);
            } else if running != record.digest {
                self.filled = filled;
                self.running = running;
                self.partial = Ghost(self.partial@ + chunk@);
                self.phase = CopyPhase::Failed(CopyError::VerifyMismatch);
            } else {
                self.replayed = Ghost(self.replayed@.push(self.partial@ + chunk@));
                self.partial = Ghost(Seq::empty());
                self.cursor = next_cursor;
                self.filled = 0;
                self.running = FNV_OFFSET;
                if next_cursor == count {
                    self.phase = CopyPhase::Succeeded;
                } else {
                    self.phase = CopyPhase::AwaitingReadBack;
                }
            }
        } else {
            self.fail_now();
        }
        self.request()
    }
}

} // verus!
