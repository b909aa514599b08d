use vstd::prelude::*;

use crate::kind::ErrorKind;

verus! {

/// Whether a drain reads again after a read with this outcome: only a read
/// that returned bytes asks for another. End of stream, a timeout or any
/// other error ends the drain, silently and without a reconnect.
pub open spec fn keeps_draining(outcome: Result<usize, ErrorKind>) -> bool {
    outcome matches Ok(n) && n != 0
}

/// How many reads a drain makes when its successive reads report `reads`.
pub open spec fn drain_reads(reads: Seq<Result<usize, ErrorKind>>) -> nat
    decreases reads.len(),
{
    if reads.len() == 0 {
        0
    } else if keeps_draining(reads[0]) {
        1 + drain_reads(reads.drop_first())
    } else {
        1
    }
}

/// How many bytes the same drain discards.
pub open spec fn drained(reads: Seq<Result<usize, ErrorKind>>) -> nat
    decreases reads.len(),
{
    if reads.len() == 0 {
        0
    } else if keeps_draining(reads[0]) {
        (reads[0]->Ok_0 + drained(reads.drop_first())) as nat
    } else {
        0
    }
}

/// The sum of a sequence of byte counts.
pub open spec fn total(counts: Seq<usize>) -> nat
    decreases counts.len(),
{
    if counts.len() == 0 {
        0
    } else {
        (counts[0] + total(counts.drop_first())) as nat
    }
}

/// Decides, after one read of a drain, whether to read again.
pub fn drain_continues(outcome: &Result<usize, ErrorKind>) -> (r: bool)
    ensures
        r == keeps_draining(*outcome),
{
    match outcome {
        Ok(n) => *n != 0,
        Err(_) => false,
    }
}

/// With nothing pending, the first read of a drain returns no bytes (end of
/// stream, a timeout or another error): the drain stops after that one read
/// and discards nothing.
pub proof fn lemma_drain_idle(reads: Seq<Result<usize, ErrorKind>>)
    requires
        reads.len() > 0,
        !(reads[0] matches Ok(n) && n != 0),
    ensures
        drain_reads(reads) == 1,
        drained(reads) == 0,
{
}

/// When the pending bytes arrive in the chunks `pending` and the read after
/// them returns none, the drain discards exactly those bytes and stops right
/// after the read that found nothing more.
pub proof fn lemma_drain_consumes_pending(reads: Seq<Result<usize, ErrorKind>>, pending: Seq<usize>)
    requires
        pending.len() < reads.len(),
        forall|i: int| 0 <= i < pending.len() ==> #[trigger] pending[i] > 0 && reads[i] == Ok::<usize, ErrorKind>(pending[i]),
        !keeps_draining(reads[pending.len() as int]),
    ensures
        drained(reads) == total(pending),
        drain_reads(reads) == pending.len() + 1,
    decreases pending.len(),
{
    if pending.len() > 0 {
        let rest = reads.drop_first();
        let more = pending.drop_first();
        assert(pending[0] > 0 && reads[0] == Ok::<usize, ErrorKind>(pending[0]));
        assert forall|i: int| 0 <= i < more.len() implies #[trigger] more[i] > 0 && rest[i] == Ok::<usize, ErrorKind>(more[i]) by {
            assert(more[i] == pending[i + 1]);
            assert(pending[i + 1] > 0 && reads[i + 1] == Ok::<usize, ErrorKind>(pending[i + 1]));
        }
        assert(rest[more.len() as int] == reads[pending.len() as int]);
        lemma_drain_consumes_pending(rest, more);
    }
}

} // verus!
