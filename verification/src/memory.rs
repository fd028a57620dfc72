//! The copy engine run against memory.
//!
//! Here the source is a slice and the destination a vector that stores
//! faithfully what is written to it. What the destination gives back when it
//! is read again can be the vector itself or any other bytes, which is how a
//! destination that alters data is described.

use vstd::prelude::*;
use vstd::slice::slice_subrange;
use crate::copy::{CopyAction, CopyEngine, CopyError, CopyPhase, CopyState};
use crate::digest::{differ_only_at, digest, fold, lemma_digest_detects_single_byte};

verus! {

/// The length of the next piece when `remaining` bytes are left and pieces
/// have `size` bytes.
pub open spec fn piece_len(remaining: nat, size: nat) -> nat {
    if remaining < size {
        remaining
    } else {
        size
    }
}

/// Whether `read_back` gives every piece of `source` back with its digest,
/// the pieces being cut from the start, `size` bytes each and the last one
/// shorter if need be.
pub open spec fn reproduces(source: Seq<u8>, read_back: Seq<u8>, size: nat) -> bool
    decreases source.len(),
{
    if source.len() == 0 {
        true
    } else if size == 0 {
        false
    } else {
        let n = piece_len(source.len(), size) as int;
        &&& read_back.len() >= n
        &&& digest(read_back.take(n)) == digest(source.take(n))
        &&& reproduces(source.skip(n), read_back.skip(n), size)
    }
}

/// Why a copy of `source` in pieces of `size` bytes fails when the
/// destination gives `read_back` back, if it fails: nothing can be copied in
/// pieces of no bytes, and what comes back has to reproduce every piece.
pub open spec fn copy_failure(source: Seq<u8>, read_back: Seq<u8>, size: nat) -> Option<
    CopyError,
> {
    if source.len() > 0 && size == 0 {
        Some(CopyError::Copy)
    } else if reproduces(source, read_back, size) {
        None
    } else {
        Some(CopyError::VerifyMismatch)
    }
}

/// A destination that gives back what was written reproduces every piece.
pub proof fn lemma_faithful_destination_reproduces(source: Seq<u8>, size: nat)
    requires
        size > 0,
    ensures
        reproduces(source, source, size),
        copy_failure(source, source, size) is None,
    decreases source.len(),
{
    if source.len() > 0 {
        let n = piece_len(source.len(), size) as int;
        lemma_faithful_destination_reproduces(source.skip(n), size);
    }
}

/// A destination that gives back the written bytes with exactly one of
/// them altered is always found out.
pub proof fn lemma_single_altered_byte_is_detected(
    source: Seq<u8>,
    read_back: Seq<u8>,
    size: nat,
    at: int,
)
    requires
        size > 0,
        differ_only_at(source, read_back, at),
    ensures
        !reproduces(source, read_back, size),
        copy_failure(source, read_back, size) == Some(CopyError::VerifyMismatch),
    decreases source.len(),
{
    let n = piece_len(source.len(), size) as int;
    if at < n {
        let a = source.take(n);
        let b = read_back.take(n);
        assert(differ_only_at(a, b, at));
        lemma_digest_detects_single_byte(a, b, at);
    } else {
        let a = source.skip(n);
        let b = read_back.skip(n);
        assert(differ_only_at(a, b, at - n)) by {
            assert(a[at - n] == source[at]);
            assert(b[at - n] == read_back[at]);
            assert forall|i: int| 0 <= i < a.len() && i != at - n implies a[i] == b[i] by {
                assert(a[i] == source[i + n]);
                assert(b[i] == read_back[i + n]);
            }
        }
        lemma_single_altered_byte_is_detected(a, b, size, at - n);
    }
}

/// A destination that gives back too little is always found out.
pub proof fn lemma_short_read_back_is_detected(source: Seq<u8>, read_back: Seq<u8>, size: nat)
    requires
        read_back.len() < source.len(),
    ensures
        !reproduces(source, read_back, size),
    decreases source.len(),
{
    if size > 0 {
        let n = piece_len(source.len(), size) as int;
        if read_back.len() >= n {
            lemma_short_read_back_is_detected(source.skip(n), read_back.skip(n), size);
        }
    }
}

/// Whether chunk `k` of the engine is the piece of `source` that starts at
/// `starts[k]`: it is as long as a piece can be there and holds the bytes of
/// `source` from there on.
spec fn is_piece(s: CopyState, source: Seq<u8>, starts: Seq<int>, k: int) -> bool {
    &&& 0 <= starts[k]
    &&& starts[k + 1] <= source.len()
    &&& s.chunks[k].len == piece_len((source.len() - starts[k]) as nat, s.chunk_size)
    &&& starts[k + 1] == starts[k] + s.chunks[k].len
    &&& s.accepted[k] == source.subrange(starts[k], starts[k + 1])
}

/// Whether the engine has accepted `source` from its start in pieces, one
/// after the other.
spec fn accepted_in_pieces(s: CopyState, source: Seq<u8>, starts: Seq<int>) -> bool {
    &&& starts.len() == s.chunks.len() + 1
    &&& starts[0] == 0
    &&& starts.last() == s.copied
    &&& s.copied <= source.len()
    &&& forall|k: int| 0 <= k < s.chunks.len() ==> #[trigger] is_piece(s, source, starts, k)
}

/// What accepting the next piece of `source` does to an engine that has
/// accepted `source` in pieces so far.
proof fn lemma_next_piece_is_accepted(s: CopyState, source: Seq<u8>, starts: Seq<int>, n: int)
    requires
        s.wf(),
        s.phase == CopyPhase::AwaitingSource,
        s.source_bytes == source.len(),
        accepted_in_pieces(s, source, starts),
        n == piece_len((source.len() - s.copied) as nat, s.chunk_size),
    ensures
        ({
            let chunk = source.subrange(s.copied as int, s.copied + n);
            let t = s.on_source(chunk).on_written();
            &&& n > 0
            &&& s.copied + n <= source.len()
            &&& t.copied == s.copied + n
            &&& t.cursor == s.cursor
            &&& t.filled == s.filled
            &&& t.phase == if t.copied < source.len() {
                CopyPhase::AwaitingSource
            } else {
                CopyPhase::AwaitingSync
            }
            &&& accepted_in_pieces(t, source, starts.push(s.copied + n))
        }),
{
    let chunk = source.subrange(s.copied as int, s.copied + n);
    let mid = s.on_source(chunk);
    assert(0 < chunk.len() <= s.request_len());
    let t = mid.on_written();
    let next = starts.push(s.copied + n);
    assert forall|k: int| 0 <= k < t.chunks.len() implies #[trigger] is_piece(
        t,
        source,
        next,
        k,
    ) by {
        if k < s.chunks.len() {
            assert(is_piece(s, source, starts, k));
            assert(t.chunks[k] == s.chunks[k]);
            assert(t.accepted[k] == s.accepted[k]);
            assert(next[k] == starts[k]);
            assert(next[k + 1] == starts[k + 1]);
        } else {
            assert(next[k] == s.copied);
            assert(next[k + 1] == s.copied + n);
        }
    }
}

/// The pieces stay the pieces when the engine only moves on in its verify
/// phase or fails.
proof fn lemma_pieces_stay(s: CopyState, t: CopyState, source: Seq<u8>, starts: Seq<int>)
    requires
        accepted_in_pieces(s, source, starts),
        t.chunks == s.chunks,
        t.accepted == s.accepted,
        t.copied == s.copied,
        t.chunk_size == s.chunk_size,
    ensures
        accepted_in_pieces(t, source, starts),
{
    assert forall|k: int| 0 <= k < t.chunks.len() implies #[trigger] is_piece(
        t,
        source,
        starts,
        k,
    ) by {
        assert(is_piece(s, source, starts, k));
    }
}

/// What reading the piece under the cursor back in one go does to an engine
/// that has accepted `source` in pieces, and what it means for whether
/// `read_back` reproduces `source` from `pos` on.
proof fn lemma_piece_is_checked(
    s: CopyState,
    source: Seq<u8>,
    starts: Seq<int>,
    read_back: Seq<u8>,
    pos: int,
)
    requires
        s.wf(),
        s.phase == CopyPhase::AwaitingReadBack,
        s.filled == 0,
        s.chunk_size > 0,
        s.copied == source.len(),
        accepted_in_pieces(s, source, starts),
        pos == starts[s.cursor as int],
        0 <= pos <= read_back.len(),
    ensures
        ({
            let n = s.request_len() as int;
            let rest = source.skip(pos);
            let back = read_back.skip(pos);
            &&& n > 0
            &&& n <= usize::MAX
            &&& accepted_in_pieces(s.failed(), source, starts)
            &&& read_back.len() - pos < n ==> !reproduces(rest, back, s.chunk_size)
            &&& read_back.len() - pos >= n ==> {
                let t = s.on_read_back(read_back.subrange(pos, pos + n));
                &&& accepted_in_pieces(t, source, starts)
                &&& t.chunks == s.chunks
                &&& t.accepted == s.accepted
                &&& t.copied == s.copied
                &&& t.chunk_size == s.chunk_size
                &&& t.phase is Failed ==> {
                    &&& t.phase == CopyPhase::Failed(CopyError::VerifyMismatch)
                    &&& !reproduces(rest, back, s.chunk_size)
                    &&& t.cursor == s.cursor
                }
                &&& !(t.phase is Failed) ==> {
                    &&& t.cursor == s.cursor + 1
                    &&& t.filled == 0
                    &&& reproduces(rest, back, s.chunk_size) <==> reproduces(
                        source.skip(pos + n),
                        read_back.skip(pos + n),
                        s.chunk_size,
                    )
                    &&& t.phase == CopyPhase::AwaitingReadBack ==> pos + n == starts[t.cursor as int]
                    &&& t.phase == CopyPhase::Succeeded ==> pos + n == source.len()
                    &&& t.phase == CopyPhase::AwaitingReadBack || t.phase == CopyPhase::Succeeded
                }
            }
        }),
{
    let k = s.cursor as int;
    let n = s.request_len() as int;
    let rest = source.skip(pos);
    let back = read_back.skip(pos);
    assert(is_piece(s, source, starts, k));
    assert(s.chunks[k].len >= 1);
    assert(s.partial =~= Seq::<u8>::empty());
    assert(n == piece_len(rest.len(), s.chunk_size));
    lemma_pieces_stay(s, s.failed(), source, starts);
    assert(rest.take(n) =~= source.subrange(starts[k], starts[k + 1]));
    assert(rest.skip(n) =~= source.skip(pos + n));
    if read_back.len() - pos >= n {
        let chunk = read_back.subrange(pos, pos + n);
        assert(back.take(n) =~= chunk);
        assert(back.skip(n) =~= read_back.skip(pos + n));
        assert(s.partial + chunk =~= chunk);
        assert(fold(s.running, chunk) == digest(chunk));
        assert(s.chunks[k].digest == digest(s.accepted[k]));
        let t = s.on_read_back(chunk);
        lemma_pieces_stay(s, t, source, starts);
        if t.phase == CopyPhase::AwaitingReadBack {
            assert(is_piece(s, source, starts, k + 1));
        }
    }
}

fn append_bytes(destination: &mut Vec<u8>, bytes: &[u8])
    ensures
        final(destination)@ == old(destination)@ + bytes@,
{
    let mut i: usize = 0;
    assert(destination@ =~= old(destination)@ + bytes@.take(0));
    while i < bytes.len()
        invariant
            i <= bytes.len(),
            destination@ == old(destination)@ + bytes@.take(i as int),
        decreases bytes.len() - i,
    {
        destination.push(bytes[i]);
        i = i + 1;
        assert(destination@ =~= old(destination)@ + bytes@.take(i as int));
    }
    assert(bytes@.take(i as int) =~= bytes@);
}

fn write_phase(source: &[u8], destination: &mut Vec<u8>, chunk_size: usize) -> (run: (
    CopyEngine,
    Ghost<Seq<int>>,
))
    ensures
        run.0.wf(),
        run.0@.chunk_size == chunk_size,
        run.0@.source_bytes == source@.len(),
        source@.len() > 0 && chunk_size == 0 ==> {
            &&& run.0@.phase == CopyPhase::Failed(CopyError::Copy)
            &&& final(destination)@ == Seq::<u8>::empty()
        },
        source@.len() == 0 || chunk_size > 0 ==> {
            &&& final(destination)@ == source@
            &&& run.0@.phase == if source@.len() == 0 {
                CopyPhase::Succeeded
            } else {
                CopyPhase::AwaitingReadBack
            }
            &&& run.0@.copied == source@.len()
            &&& run.0@.cursor == 0
            &&& run.0@.filled == 0
            &&& accepted_in_pieces(run.0@, source@, run.1@)
        },
{
    destination.clear();
    let total = source.len();
    let mut engine = CopyEngine::new(total as u64, chunk_size);
    let ghost mut starts: Seq<int> = seq![0int];
    let mut pos: usize = 0;
    assert(destination@ =~= source@.take(0));
    while pos < total && chunk_size > 0
        invariant
            total == source@.len(),
            pos <= total,
            engine.wf(),
            engine@.chunk_size == chunk_size,
            engine@.source_bytes == total,
            engine@.copied == pos,
            engine@.cursor == 0,
            engine@.filled == 0,
            destination@ == source@.take(pos as int),
            accepted_in_pieces(engine@, source@, starts),
            chunk_size > 0 || total == 0 ==> engine@.phase == if pos < total {
                CopyPhase::AwaitingSource
            } else {
                CopyPhase::AwaitingSync
            },
            chunk_size == 0 && total > 0 ==> engine@.phase == CopyPhase::Failed(CopyError::Copy),
        decreases total - pos,
    {
        let remaining = total - pos;
        let n = if remaining < chunk_size {
            remaining
        } else {
            chunk_size
        };
        proof {
            lemma_next_piece_is_accepted(engine@, source@, starts, n as int);
            starts = starts.push(pos + n);
        }
        let chunk = slice_subrange(source, pos, pos + n);
        engine.source_read(chunk);
        append_bytes(destination, chunk);
        engine.chunk_written();
        assert(destination@ =~= source@.take(pos + n));
        pos = pos + n;
    }
    if total == 0 || chunk_size > 0 {
        assert(source@.take(pos as int) =~= source@);
        let ghost before = engine@;
        proof {
            if before.chunks.len() > 0 {
                assert(is_piece(before, source@, starts, 0));
                assert(before.chunks[0].len >= 1);
            } else {
                assert(starts.last() == starts[0]);
            }
            lemma_pieces_stay(before, before.on_synced(), source@, starts);
        }
        engine.synced();
    } else {
        assert(destination@ =~= Seq::<u8>::empty());
    }
    (engine, Ghost(starts))
}

fn verify_phase(
    engine: &mut CopyEngine,
    read_back: &[u8],
    Ghost(source): Ghost<Seq<u8>>,
    Ghost(starts): Ghost<Seq<int>>,
) -> (result: Result<(), CopyError>)
    requires
        old(engine).wf(),
        old(engine)@.chunk_size > 0 || source.len() == 0,
        old(engine)@.source_bytes == source.len(),
        old(engine)@.copied == source.len(),
        old(engine)@.cursor == 0,
        old(engine)@.filled == 0,
        old(engine)@.phase == if source.len() == 0 {
            CopyPhase::Succeeded
        } else {
            CopyPhase::AwaitingReadBack
        },
        accepted_in_pieces(old(engine)@, source, starts),
    ensures
        final(engine).wf(),
        result is Ok <==> reproduces(source, read_back@, old(engine)@.chunk_size),
        result is Err ==> result->Err_0 == CopyError::VerifyMismatch,
{
    let ghost size = engine@.chunk_size;
    let mut pos: usize = 0;
    assert(source.skip(0) =~= source);
    assert(read_back@.skip(0) =~= read_back@);
    while matches!(engine.phase(), CopyPhase::AwaitingReadBack)
        invariant
            engine.wf(),
            engine@.chunk_size == size,
            engine@.copied == source.len(),
            accepted_in_pieces(engine@, source, starts),
            pos <= read_back@.len(),
            engine@.phase == CopyPhase::AwaitingReadBack ==> {
                &&& size > 0
                &&& engine@.filled == 0
                &&& pos == starts[engine@.cursor as int]
                &&& reproduces(source, read_back@, size) <==> reproduces(
                    source.skip(pos as int),
                    read_back@.skip(pos as int),
                    size,
                )
            },
            engine@.phase == CopyPhase::Succeeded ==> reproduces(source, read_back@, size),
            engine@.phase is Failed ==> {
                &&& engine@.phase == CopyPhase::Failed(CopyError::VerifyMismatch)
                &&& !reproduces(source, read_back@, size)
            },
            engine@.phase == CopyPhase::AwaitingReadBack || engine@.finished(),
        decreases
                engine@.chunks.len() - engine@.cursor + (if engine@.phase
                    == CopyPhase::AwaitingReadBack {
                    1int
                } else {
                    0int
                }),
    {
        proof {
            lemma_piece_is_checked(engine@, source, starts, read_back@, pos as int);
        }
        match engine.request() {
            CopyAction::ReadBack { max_len } => {
                if read_back.len() - pos < max_len {
                    engine.io_failed();
                } else {
                    let chunk = slice_subrange(read_back, pos, pos + max_len);
                    engine.read_back(chunk);
                    pos = pos + max_len;
                    proof {
                        if engine@.phase == CopyPhase::Succeeded {
                            assert(source.skip(pos as int).len() == 0);
                        }
                    }
                }
            },
            _ => {
                engine.io_failed();
            },
        }
    }
    match engine.outcome() {
        Some(Ok(())) => Ok(()),
        Some(Err(e)) => Err(e),
        None => Err(CopyError::VerifyMismatch),
    }
}

/// Copies `source` into `destination` in chunks of at most `chunk_size`
/// bytes and then checks the chunks against `read_back`, which stands for
/// what the destination gives when it is read again.
///
/// `destination` is overwritten from its start. The result is that of the
/// copy engine: success if and only if `read_back` reproduces every chunk.
pub fn copy_and_verify_against(
    source: &[u8],
    destination: &mut Vec<u8>,
    chunk_size: usize,
    read_back: &[u8],
) -> (result: Result<(), CopyError>)
    ensures
        result is Ok <==> copy_failure(source@, read_back@, chunk_size as nat) is None,
        result is Err ==> copy_failure(source@, read_back@, chunk_size as nat) == Some(
            result->Err_0,
        ),
        final(destination)@ == if source@.len() > 0 && chunk_size == 0 {
            Seq::<u8>::empty()
        } else {
            source@
        },
{
    let (mut engine, Ghost(starts)) = write_phase(source, destination, chunk_size);
    if source.len() > 0 && chunk_size == 0 {
        return Err(CopyError::Copy);
    }
    verify_phase(&mut engine, read_back, Ghost(source@), Ghost(starts))
}

/// Copies `source` into `destination` in chunks of at most `chunk_size`
/// bytes and checks the copy by reading `destination` again.
///
/// A destination that stores what is written to it always passes: the copy
/// succeeds and `destination` holds the bytes of `source`, whatever the
/// length of `source` is. Only a chunk size of zero with a source that is not
/// empty fails, since then nothing can be copied.
pub fn copy_and_verify(source: &[u8], destination: &mut Vec<u8>, chunk_size: usize) -> (result:
    Result<(), CopyError>)
    ensures
        source@.len() == 0 || chunk_size > 0 ==> result is Ok && final(destination)@ == source@,
        source@.len() > 0 && chunk_size == 0 ==> result == Err::<(), CopyError>(CopyError::Copy)
            && final(destination)@ == Seq::<u8>::empty(),
{
    let (mut engine, Ghost(starts)) = write_phase(source, destination, chunk_size);
    if source.len() > 0 && chunk_size == 0 {
        return Err(CopyError::Copy);
    }
    proof {
        if chunk_size > 0 {
            lemma_faithful_destination_reproduces(source@, chunk_size as nat);
        }
    }
    verify_phase(&mut engine, destination.as_slice(), Ghost(source@), Ghost(starts))
}

} // verus!
