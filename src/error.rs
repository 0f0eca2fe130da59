//! The tagged error model: provisional and blamed diagnoses, and the stack
//! that holds them in the order they were found.

use vstd::prelude::*;

verus! {

/// The two-way merge that a raw error type offers: of two candidate
/// diagnoses, the one (or the combination) worth keeping.
pub trait Merge: Sized {
    /// The merge, as a mathematical function of the two errors.
    spec fn merged(self, other: Self) -> Self;

    fn merge(self, other: Self) -> (r: Self)
        ensures
            r == self.merged(other),
    ;
}

/// A diagnosis, tagged with how much weight it carries.
#[derive(Debug)]
pub enum PreservedErrorInner<E> {
    /// Provisional: a later candidate may still be merged into it.
    Default(E),
    /// Authoritative: no later candidate replaces or weakens it.
    Blamed(E),
}

impl<E> PreservedErrorInner<E> {
    /// The raw error, whatever the tag.
    pub open spec fn raw(self) -> E {
        match self {
            PreservedErrorInner::Default(e) => e,
            PreservedErrorInner::Blamed(e) => e,
        }
    }

    /// Whether the diagnosis is authoritative.
    pub open spec fn is_blamed(self) -> bool {
        self is Blamed
    }
}

impl<E: Merge> PreservedErrorInner<E> {
    /// The override rule: a provisional diagnosis absorbs the candidate by
    /// merging; a blamed one stays as it is.
    pub open spec fn overridden(self, candidate: E) -> Self {
        match self {
            PreservedErrorInner::Default(e) => PreservedErrorInner::Default(e.merged(candidate)),
            PreservedErrorInner::Blamed(e) => PreservedErrorInner::Blamed(e),
        }
    }

    /// One step of the fold: a provisional entry is offered to the running
    /// diagnosis; a blamed entry replaces it.
    pub open spec fn absorb(self, entry: Self) -> Self {
        match entry {
            PreservedErrorInner::Default(e) => self.overridden(e),
            PreservedErrorInner::Blamed(e) => PreservedErrorInner::Blamed(e),
        }
    }
}

/// The tags of a stack, oldest first.
pub open spec fn tags<I, E>(stack: Seq<PreservedError<I, E>>) -> Seq<PreservedErrorInner<E>> {
    stack.map_values(|p: PreservedError<I, E>| p.inner)
}

/// The running diagnosis after folding `entries` from oldest to newest, with
/// `base` as the provisional seed.
pub open spec fn fold_tags<E: Merge>(base: E, entries: Seq<PreservedErrorInner<E>>) -> PreservedErrorInner<E>
    decreases entries.len(),
{
    if entries.len() == 0 {
        PreservedErrorInner::Default(base)
    } else {
        fold_tags(base, entries.drop_last()).absorb(entries.last())
    }
}

/// The raw error that folding `stack` onto `base` reports.
pub open spec fn folded<I, E: Merge>(base: E, stack: Seq<PreservedError<I, E>>) -> E {
    fold_tags(base, tags(stack)).raw()
}

/// A tagged diagnosis for a parser over input `I`.
#[derive(Debug)]
pub struct PreservedError<I, E> {
    pub _marker: core::marker::PhantomData<I>,
    pub inner: PreservedErrorInner<E>,
}

/// The failures found along one parse, oldest first.
pub type ErrorStack<I, E> = Vec<PreservedError<I, E>>;

impl<I, E> PreservedError<I, E> {
    /// Drops the tag and hands back the raw error.
    pub fn into_inner(self) -> (r: E)
        ensures
            r == self.inner.raw(),
    {
        match self.inner {
            PreservedErrorInner::Blamed(e) => e,
            PreservedErrorInner::Default(e) => e,
        }
    }
}

impl<I, E: Merge> PreservedError<I, E> {
    /// Offers `other` to this diagnosis under the override rule.
    pub fn or(self, other: E) -> (r: Self)
        ensures
            r.inner == self.inner.overridden(other),
    {
        let inner = match self.inner {
            PreservedErrorInner::Default(e) => PreservedErrorInner::Default(e.merge(other)),
            PreservedErrorInner::Blamed(e) => PreservedErrorInner::Blamed(e),
        };
        PreservedError { _marker: core::marker::PhantomData, inner }
    }
}

impl<I, E> From<E> for PreservedError<I, E> {
    /// Lifts a raw error to a provisional diagnosis.
    fn from(value: E) -> (r: Self)
        ensures
            r.inner == PreservedErrorInner::Default(value),
    {
        PreservedError { _marker: core::marker::PhantomData, inner: PreservedErrorInner::Default(value) }
    }
}

impl<I, E> vstd::std_specs::convert::FromSpecImpl<E> for PreservedError<I, E> {
    open spec fn obeys_from_spec() -> bool {
        true
    }

    open spec fn from_spec(value: E) -> Self {
        PreservedError { _marker: core::marker::PhantomData, inner: PreservedErrorInner::Default(value) }
    }
}

/// Whether `after` is `before` with a provisional copy of `e` appended.
pub open spec fn recorded<I, E: Clone>(before: Seq<PreservedError<I, E>>, after: Seq<PreservedError<I, E>>, e: E) -> bool {
    &&& after.len() == before.len() + 1
    &&& tags(after).drop_last() == tags(before)
    &&& after.last().inner is Default
    &&& cloned(e, after.last().inner.raw())
}

/// Runs `parser` on `input` and hands back exactly what it returned. When that
/// is a failure, recoverable or fatal, a copy of the error is also appended
/// to `stack` as a provisional entry; on success `stack` is left as it was.
///
/// The entry stays even where an enclosing alternation later backtracks
/// past this parse: the stack logs every failure that was tried.
pub fn preserve<I, O, E: Clone, F>(stack: &mut ErrorStack<I, E>, parser: &mut F, input: I) -> (r: nom::IResult<I, O, E>)
    where
        F: FnMut(I) -> nom::IResult<I, O, E>,
    requires
        call_requires(*old(parser), (input,)),
    ensures
        call_ensures(*old(parser), (input,), r),
        match r {
            Err(nom::Err::Error(e)) => recorded(old(stack)@, final(stack)@, e),
            Err(nom::Err::Failure(e)) => recorded(old(stack)@, final(stack)@, e),
            _ => final(stack)@ == old(stack)@,
        },
{
    let r = parser(input);
    match r {
        Err(nom::Err::Error(e)) => {
            let copy = e.clone();
            let ghost before = stack@;
            stack.push(PreservedError::from(copy));
            proof {
                assert(tags(stack@).drop_last() =~= tags(before));
            }
            Err(nom::Err::Error(e))
        },
        Err(nom::Err::Failure(e)) => {
            let copy = e.clone();
            let ghost before = stack@;
            stack.push(PreservedError::from(copy));
            proof {
                assert(tags(stack@).drop_last() =~= tags(before));
            }
            Err(nom::Err::Failure(e))
        },
        other => other,
    }
}

/// The tags after promoting the newest entry: its raw error becomes blamed.
/// An empty stack has nothing to promote.
pub open spec fn promote_tags<E>(t: Seq<PreservedErrorInner<E>>) -> Seq<PreservedErrorInner<E>> {
    if t.len() == 0 {
        t
    } else {
        t.drop_last().push(PreservedErrorInner::Blamed(t.last().raw()))
    }
}

/// Promotes the newest entry of `stack` from provisional to blamed; a blamed
/// entry stays blamed, and an empty stack stays empty.
pub fn promote_last<I, E>(stack: &mut ErrorStack<I, E>)
    ensures
        final(stack)@.len() == old(stack)@.len(),
        tags(final(stack)@) == promote_tags(tags(old(stack)@)),
{
    let ghost before = stack@;
    if let Some(last) = stack.pop() {
        let inner = match last.inner {
            PreservedErrorInner::Default(e) => PreservedErrorInner::Blamed(e),
            PreservedErrorInner::Blamed(e) => PreservedErrorInner::Blamed(e),
        };
        stack.push(PreservedError { _marker: core::marker::PhantomData, inner });
        proof {
            assert(tags(before).drop_last() =~= tags(before.drop_last()));
            assert(tags(stack@) =~= promote_tags(tags(before)));
        }
    }
}

/// How the result of `blame` relates to what its parser returned.
pub open spec fn blamed_result<I, O, E>(
    inner: nom::IResult<I, (O, ErrorStack<I, E>), E>,
    r: nom::IResult<I, (O, ErrorStack<I, E>), E>,
) -> bool {
    match (inner, r) {
        (Ok((i0, (o0, s0))), Ok((i, (o, s)))) => i == i0 && o == o0 && tags(s@) == promote_tags(tags(s0@)),
        (Err(e0), Err(e)) => e == e0,
        _ => false,
    }
}

/// Runs a stack-carrying `parser` on `input`. On success the newest entry of
/// its stack is promoted to blamed, and the output and the rest of the input
/// are handed back untouched; a failure passes through unchanged.
pub fn blame<I, O, E, F>(parser: &mut F, input: I) -> (r: nom::IResult<I, (O, ErrorStack<I, E>), E>)
    where
        F: FnMut(I) -> nom::IResult<I, (O, ErrorStack<I, E>), E>,
    requires
        call_requires(*old(parser), (input,)),
    ensures
        exists|inner| #[trigger] call_ensures(*old(parser), (input,), inner) && blamed_result(inner, r),
{
    let ghost input0 = input;
    let r = parser(input);
    let ghost inner = r;
    assert(call_ensures(*old(parser), (input0,), inner));
    match r {
        Ok((rest, (output, stack))) => {
            let mut stack = stack;
            promote_last(&mut stack);
            let out = Ok((rest, (output, stack)));
            assert(blamed_result(inner, out));
            out
        },
        Err(e) => Err(e),
    }
}

/// Whether a parse result is a failure that asks for more input.
pub open spec fn is_incomplete<I, O, E>(r: nom::IResult<I, O, E>) -> bool {
    match r {
        Err(nom::Err::Incomplete(_)) => true,
        _ => false,
    }
}

/// How the result of `wrap` relates to what its parser returned.
pub open spec fn lifted_result<I, O, E>(
    inner: nom::IResult<I, O, E>,
    r: nom::IResult<I, O, PreservedError<I, E>>,
) -> bool {
    match (inner, r) {
        (Ok(v0), Ok(v)) => v == v0,
        (Err(nom::Err::Error(e0)), Err(nom::Err::Error(e))) => e.inner == PreservedErrorInner::Default(e0),
        (Err(nom::Err::Failure(e0)), Err(nom::Err::Failure(e))) => e.inner == PreservedErrorInner::Default(e0),
        _ => false,
    }
}

/// Runs `parser` on `input` and lifts a failure to a provisional tagged
/// error of the same severity; a success passes through unchanged. The
/// parser must not ask for more input: this layer has no rule for that.
pub fn wrap<I, O, E, F>(parser: &mut F, input: I) -> (r: nom::IResult<I, (O, ErrorStack<I, E>), PreservedError<I, E>>)
    where
        F: FnMut(I) -> nom::IResult<I, (O, ErrorStack<I, E>), E>,
    requires
        call_requires(*old(parser), (input,)),
        forall|inner| #[trigger] call_ensures(*old(parser), (input,), inner) ==> !is_incomplete(inner),
    ensures
        exists|inner| #[trigger] call_ensures(*old(parser), (input,), inner) && lifted_result(inner, r),
{
    let ghost input0 = input;
    let r = parser(input);
    let ghost inner = r;
    assert(call_ensures(*old(parser), (input0,), inner));
    let out = match r {
        Ok(v) => Ok(v),
        Err(nom::Err::Error(e)) => Err(nom::Err::Error(PreservedError::from(e))),
        Err(nom::Err::Failure(e)) => Err(nom::Err::Failure(PreservedError::from(e))),
        Err(nom::Err::Incomplete(n)) => {
            assert(false);
            Err(nom::Err::Incomplete(n))
        },
    };
    assert(lifted_result(inner, out));
    out
}

/// Folds `stack`, oldest entry first, onto the error `base` of the step that
/// just failed, and reports the resulting raw error.
pub fn fold_stack<I, E: Merge>(base: E, stack: ErrorStack<I, E>) -> (r: E)
    ensures
        r == folded(base, stack@),
{
    let ghost all = stack@;
    let mut rest = stack;
    let mut acc: PreservedError<I, E> = PreservedError::from(base);
    while rest.len() > 0
        invariant
            rest@.len() <= all.len(),
            rest@ == all.subrange(all.len() - rest@.len(), all.len() as int),
            acc.inner == fold_tags(base, tags(all.subrange(0, all.len() - rest@.len()))),
        decreases rest@.len(),
    {
        let ghost done = all.len() - rest@.len();
        let entry = rest.remove(0);
        proof {
            let pre = all.subrange(0, done);
            let post = all.subrange(0, done + 1);
            assert(entry == all[done]);
            assert(post.drop_last() =~= pre);
            assert(tags(post).drop_last() =~= tags(pre));
            assert(tags(post).last() == entry.inner);
            assert(rest@ =~= all.subrange(all.len() - rest@.len(), all.len() as int));
        }
        acc = match entry.inner {
            PreservedErrorInner::Default(e) => acc.or(e),
            PreservedErrorInner::Blamed(e) => PreservedError {
                _marker: core::marker::PhantomData,
                inner: PreservedErrorInner::Blamed(e),
            },
        };
    }
    proof {
        assert(all.subrange(0, all.len() as int) =~= all);
    }
    acc.into_inner()
}

} // verus!
