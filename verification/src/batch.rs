//! Batch product fetches: how many ids one run resolves, and what the whole
//! batch exits with.
//!
//! The fetching itself (one browser, one page per id, each result printed as
//! soon as it is ready) belongs to the caller. This module settles the exit
//! code: a failing id does not take the batch with it, and the batch exits
//! non-zero only when every id failed, with the highest exit code among the
//! failures.
use crate::error::{exit_code_of, ErrorKind};
use vstd::prelude::*;

verus! {

/// The exit code of a batch whose ids resolved as `outcomes`, in order:
/// `None` for an id that succeeded, the kind of its failure otherwise.
pub open spec fn batch_exit(outcomes: Seq<Option<ErrorKind>>) -> u8
    decreases outcomes.len(),
{
    if outcomes.len() == 0 {
        0
    } else {
        let rest = batch_exit(outcomes.drop_last());
        match outcomes.last() {
            None => rest,
            Some(k) => if exit_code_of(k) > rest {
                exit_code_of(k)
            } else {
                rest
            },
        }
    }
}

/// The exit code an id's outcome contributes: its failure's, or 0.
pub open spec fn code_of(o: Option<ErrorKind>) -> u8 {
    match o {
        Some(k) => exit_code_of(k),
        None => 0,
    }
}

/// Whether any id in the batch succeeded.
pub open spec fn any_succeeded(outcomes: Seq<Option<ErrorKind>>) -> bool {
    exists|i: int| 0 <= i < outcomes.len() && outcomes[i] is None
}

/// The process exit code of a batch: 0 if any id succeeded, otherwise the
/// highest exit code among the failures.
pub open spec fn batch_code(outcomes: Seq<Option<ErrorKind>>) -> u8 {
    if any_succeeded(outcomes) {
        0
    } else {
        batch_exit(outcomes)
    }
}

/// The batch's running verdict, folded one resolved id at a time.
#[derive(Debug, Clone, Copy)]
pub struct BatchVerdict {
    any_success: bool,
    worst_exit_code: u8,
}

impl BatchVerdict {
    /// Whether an id has succeeded so far.
    pub closed spec fn succeeded(&self) -> bool {
        self.any_success
    }

    /// The highest exit code among the failures so far, 0 when none failed.
    pub closed spec fn worst(&self) -> u8 {
        self.worst_exit_code
    }

    /// The verdict of a batch that has resolved nothing yet.
    pub fn new() -> (v: Self)
        ensures
            !v.succeeded(),
            v.worst() == 0,
    {
        BatchVerdict { any_success: false, worst_exit_code: 0 }
    }

    /// Fold in one id that succeeded.
    pub fn note_success(&mut self)
        ensures
            final(self).succeeded(),
            final(self).worst() == old(self).worst(),
    {
        self.any_success = true;
    }

    /// Fold in one id that failed with `kind`.
    pub fn note_failure(&mut self, kind: ErrorKind)
        ensures
            final(self).succeeded() == old(self).succeeded(),
            final(self).worst() == (if exit_code_of(kind) > old(self).worst() {
                exit_code_of(kind)
            } else {
                old(self).worst()
            }),
    {
        let code = kind.exit_code();
        if code > self.worst_exit_code {
            self.worst_exit_code = code;
        }
    }

    /// The process exit code for the whole batch: 0 if any id succeeded,
    /// otherwise the highest exit code among the ids that failed.
    pub fn exit_code(&self) -> (code: u8)
        ensures
            code == (if self.succeeded() {
                0
            } else {
                self.worst()
            }),
    {
        if self.any_success {
            0
        } else {
            self.worst_exit_code
        }
    }
}

/// The exit code of a whole batch from how each id resolved: `None` for an
/// id that succeeded, the kind of its failure otherwise. A failing id does
/// not take the batch with it: the batch exits 0 if any id succeeded, and
/// otherwise with the highest exit code among the failures.
pub fn batch_exit_code(outcomes: &Vec<Option<ErrorKind>>) -> (code: u8)
    ensures
        code == batch_code(outcomes@),
{
    let mut verdict = BatchVerdict::new();
    let mut i: usize = 0;
    assert(outcomes@.take(0) =~= Seq::<Option<ErrorKind>>::empty());
    while i < outcomes.len()
        invariant
            i <= outcomes.len(),
            verdict.worst() == batch_exit(outcomes@.take(i as int)),
            verdict.succeeded() == any_succeeded(outcomes@.take(i as int)),
        decreases outcomes.len() - i,
    {
        assert(outcomes@.take(i + 1).drop_last() =~= outcomes@.take(i as int));
        assert(outcomes@.take(i + 1).last() == outcomes@[i as int]);
        match outcomes[i] {
            None => {
                verdict.note_success();
                assert(outcomes@.take(i + 1)[i as int] is None);
            },
            Some(kind) => {
                verdict.note_failure(kind);
                assert(any_succeeded(outcomes@.take(i + 1)) == any_succeeded(
                    outcomes@.take(i as int),
                )) by {
                    if any_succeeded(outcomes@.take(i + 1)) {
                        let j = choose|j: int|
                            0 <= j < i + 1 && (#[trigger] outcomes@.take(i + 1)[j]) is None;
                        assert(j < i);
                        assert(outcomes@.take(i as int)[j] == outcomes@.take(i + 1)[j]);
                    }
                    if any_succeeded(outcomes@.take(i as int)) {
                        let j = choose|j: int|
                            0 <= j < i && (#[trigger] outcomes@.take(i as int)[j]) is None;
                        assert(outcomes@.take(i as int)[j] == outcomes@.take(i + 1)[j]);
                    }
                }
            },
        }
        i = i + 1;
    }
    assert(outcomes@.take(outcomes.len() as int) =~= outcomes@);
    verdict.exit_code()
}

/// How many workers fetch the cache misses: never more than there is work.
pub fn worker_count(concurrency: usize, misses: usize) -> (n: usize)
    ensures
        n == (if concurrency < misses {
            concurrency
        } else {
            misses
        }),
{
    if concurrency < misses {
        concurrency
    } else {
        misses
    }
}

/// A batch exits non-zero exactly when it resolved at least one id and
/// every id failed; and then its exit code is that of a failure in it, and
/// no failure in it has a higher one.
pub proof fn batch_fails_only_when_every_id_failed(outcomes: Seq<Option<ErrorKind>>)
    ensures
        (batch_code(outcomes) != 0) <==> (outcomes.len() > 0 && forall|i: int|
            0 <= i < outcomes.len() ==> (#[trigger] outcomes[i]) is Some),
        batch_code(outcomes) != 0 ==> exists|i: int|
            0 <= i < outcomes.len() && (#[trigger] outcomes[i]) is Some && code_of(outcomes[i])
                == batch_code(outcomes),
        batch_code(outcomes) != 0 ==> forall|i: int|
            0 <= i < outcomes.len() ==> code_of(#[trigger] outcomes[i])
                <= batch_code(outcomes),
{
    lemma_batch_exit(outcomes);
    if outcomes.len() > 0 && forall|i: int| 0 <= i < outcomes.len() ==> (#[trigger] outcomes[i]) is Some {
        assert(!any_succeeded(outcomes));
    }
    if any_succeeded(outcomes) {
        let j = choose|j: int| 0 <= j < outcomes.len() && outcomes[j] is None;
        assert(outcomes[j] is None);
    }
}

/// Every exit code is at least 1.
proof fn lemma_exit_codes_positive(k: ErrorKind)
    ensures
        exit_code_of(k) >= 1,
{
}

/// The running maximum: 0 only for a batch with no failure, at least every
/// failure's code, and equal to one of them otherwise.
proof fn lemma_batch_exit(outcomes: Seq<Option<ErrorKind>>)
    ensures
        (batch_exit(outcomes) == 0) <==> (forall|i: int|
            0 <= i < outcomes.len() ==> (#[trigger] outcomes[i]) is None),
        forall|i: int|
            0 <= i < outcomes.len() ==> code_of(#[trigger] outcomes[i])
                <= batch_exit(outcomes),
        batch_exit(outcomes) != 0 ==> exists|i: int|
            0 <= i < outcomes.len() && (#[trigger] outcomes[i]) is Some && code_of(outcomes[i])
                == batch_exit(outcomes),
    decreases outcomes.len(),
{
    if outcomes.len() > 0 {
        let rest = outcomes.drop_last();
        let last = outcomes.len() - 1;
        lemma_batch_exit(rest);
        assert forall|i: int| 0 <= i < last implies outcomes[i] == rest[i] by {}
        match outcomes[last] {
            Some(k) => {
                lemma_exit_codes_positive(k);
                assert(batch_exit(outcomes) != 0);
                assert(!(outcomes[last] is None));
                if exit_code_of(k) > batch_exit(rest) {
                    assert(code_of(outcomes[last]) == batch_exit(outcomes));
                } else {
                    let j = choose|j: int|
                        0 <= j < rest.len() && (#[trigger] rest[j]) is Some && code_of(rest[j])
                            == batch_exit(rest);
                    assert(outcomes[j] == rest[j]);
                }
            },
            None => {
                if batch_exit(rest) != 0 {
                    let j = choose|j: int|
                        0 <= j < rest.len() && (#[trigger] rest[j]) is Some && code_of(rest[j])
                            == batch_exit(rest);
                    assert(outcomes[j] == rest[j]);
                } else {
                    assert forall|i: int| 0 <= i < outcomes.len() implies (#[trigger] outcomes[i]) is None by {
                        if i < last {
                            assert(rest[i] is None);
                        }
                    }
                }
            },
        }
        assert forall|i: int|
            0 <= i < outcomes.len() implies code_of(#[trigger] outcomes[i]) <= batch_exit(outcomes) by {
            if i < last {
                assert(rest[i] == outcomes[i]);
            }
        }
    }
}

} // verus!
