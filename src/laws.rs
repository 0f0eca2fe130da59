//! Laws of the error model: promotion, the override rule, the fold, and the
//! severity kept by a sequence.

use vstd::prelude::*;

use crate::error::{
    blamed_result, fold_tags, is_incomplete, promote_tags, tags, ErrorStack, Merge, PreservedError,
    PreservedErrorInner,
};
use crate::sequence::sequence_result;

verus! {

/// Promoting the newest entry twice leaves the same tags as promoting it
/// once: a blamed entry stays as it is.
pub proof fn lemma_promote_idempotent<E>(t: Seq<PreservedErrorInner<E>>)
    ensures
        promote_tags(promote_tags(t)) == promote_tags(t),
{
    if t.len() > 0 {
        let p = promote_tags(t);
        assert(p.drop_last() =~= t.drop_last());
        assert(promote_tags(p) =~= p);
    }
}

/// Running `blame` over a parser that `blame` already wraps gives what one
/// `blame` gives: the same output, the same rest of the input, the same
/// failure, and the same tags on the stack.
pub proof fn lemma_blame_twice<I, O, E>(
    inner: nom::IResult<I, (O, ErrorStack<I, E>), E>,
    once: nom::IResult<I, (O, ErrorStack<I, E>), E>,
    twice: nom::IResult<I, (O, ErrorStack<I, E>), E>,
)
    requires
        blamed_result(inner, once),
        blamed_result(once, twice),
    ensures
        blamed_result(inner, twice),
{
    match (inner, once, twice) {
        (Ok((_, (_, s0))), Ok((_, (_, s1))), Ok((_, (_, s2)))) => {
            lemma_promote_idempotent(tags(s0@));
        },
        _ => {},
    }
}

/// Promotion leaves an empty stack empty.
pub proof fn lemma_promote_empty<E>(t: Seq<PreservedErrorInner<E>>)
    requires
        t.len() == 0,
    ensures
        promote_tags(t) == t,
{
}

/// The override rule never turns a blamed diagnosis into a provisional one
/// and never changes what it holds; a provisional one stays provisional.
pub proof fn lemma_override_keeps_blame<E: Merge>(t: PreservedErrorInner<E>, candidate: E)
    ensures
        t.is_blamed() ==> t.overridden(candidate) == t,
        !t.is_blamed() ==> !t.overridden(candidate).is_blamed(),
{
}

/// When a blamed entry is followed only by provisional ones, the fold
/// reports that entry's error, whatever the other entries and the seed hold.
pub proof fn lemma_fold_blame_precedence<E: Merge>(base: E, entries: Seq<PreservedErrorInner<E>>, k: int)
    requires
        0 <= k < entries.len(),
        entries[k] is Blamed,
        forall|j: int| k < j < entries.len() ==> #[trigger] entries[j] is Default,
    ensures
        fold_tags(base, entries) == PreservedErrorInner::Blamed(entries[k].raw()),
    decreases entries.len(),
{
    if k < entries.len() - 1 {
        let shorter = entries.drop_last();
        assert forall|j: int| k < j < shorter.len() implies #[trigger] shorter[j] is Default by {
            assert(entries[j] is Default);
        }
        lemma_fold_blame_precedence(base, shorter, k);
        assert(entries.last() == entries[entries.len() - 1]);
    }
}

/// The fold goes in stack order: the same two blamed entries, taken in the
/// two orders, report the newer one each time.
pub proof fn lemma_fold_in_stack_order<E: Merge>(base: E, a: E, b: E)
    ensures
        fold_tags(base, seq![PreservedErrorInner::Blamed(a), PreservedErrorInner::Blamed(b)]).raw() == b,
        fold_tags(base, seq![PreservedErrorInner::Blamed(b), PreservedErrorInner::Blamed(a)]).raw() == a,
        a != b ==> fold_tags(base, seq![PreservedErrorInner::Blamed(a), PreservedErrorInner::Blamed(b)])
            != fold_tags(base, seq![PreservedErrorInner::Blamed(b), PreservedErrorInner::Blamed(a)]),
{
    let ab = seq![PreservedErrorInner::Blamed(a), PreservedErrorInner::Blamed(b)];
    let ba = seq![PreservedErrorInner::Blamed(b), PreservedErrorInner::Blamed(a)];
    assert(ab.drop_last() =~= seq![PreservedErrorInner::Blamed(a)]);
    assert(ba.drop_last() =~= seq![PreservedErrorInner::Blamed(b)]);
}

/// A sequence fails with the severity of its last step: recoverable for a
/// recoverable failure, fatal for a fatal one, whatever the stack held.
pub proof fn lemma_sequence_keeps_severity<I, O, O2, E: Merge>(
    output: O,
    stack: Seq<PreservedError<I, E>>,
    last: nom::IResult<I, O2, E>,
    r: nom::IResult<I, (O, Vec<E>), E>,
)
    requires
        !is_incomplete(last),
        sequence_result(output, stack, last, r),
    ensures
        (last is Ok) == (r is Ok),
        (match last { Err(nom::Err::Error(_)) => true, _ => false }) == (match r { Err(nom::Err::Error(_)) => true, _ => false }),
        (match last { Err(nom::Err::Failure(_)) => true, _ => false }) == (match r { Err(nom::Err::Failure(_)) => true, _ => false }),
{
}

/// A sequence whose stack-carrying step went through `blame` and whose last
/// step then failed: the failure keeps the last step's severity. Its content
/// is the near-miss that `blame` promoted, where the step's stack held one,
/// and the last step's own error where the stack was empty.
pub proof fn lemma_blamed_step_decides_failure<I, O, O2, E: Merge>(
    inner: nom::IResult<I, (O, ErrorStack<I, E>), E>,
    head: nom::IResult<I, (O, ErrorStack<I, E>), E>,
    last: nom::IResult<I, O2, E>,
    r: nom::IResult<I, (O, Vec<E>), E>,
)
    requires
        inner is Ok,
        blamed_result(inner, head),
        !is_incomplete(last),
        !(last is Ok),
        match head {
            Ok((_, (o, s))) => sequence_result(o, s@, last, r),
            Err(_) => false,
        },
    ensures
        match (inner, last, r) {
            (Ok((_, (_, s0))), Err(nom::Err::Error(e2)), Err(nom::Err::Error(e))) =>
                e == if s0@.len() == 0 { e2 } else { s0@.last().inner.raw() },
            (Ok((_, (_, s0))), Err(nom::Err::Failure(e2)), Err(nom::Err::Failure(e))) =>
                e == if s0@.len() == 0 { e2 } else { s0@.last().inner.raw() },
            _ => false,
        },
{
    match (inner, head) {
        (Ok((_, (_, s0))), Ok((_, (_, s1)))) => {
            let t0 = tags(s0@);
            let t1 = tags(s1@);
            assert(t1 == promote_tags(t0));
            if s0@.len() > 0 {
                let k = t1.len() - 1;
                assert(t1[k] == PreservedErrorInner::Blamed(t0.last().raw()));
                match last {
                    Err(nom::Err::Error(e2)) => lemma_fold_blame_precedence(e2, t1, k),
                    Err(nom::Err::Failure(e2)) => lemma_fold_blame_precedence(e2, t1, k),
                    _ => {},
                }
            } else {
                assert(t1.len() == 0);
            }
        },
        _ => {},
    }
}

} // verus!
