//! Sequencing that carries an error stack: run the steps in order and, when
//! a later step fails, fold the stack gathered so far into its error.

use vstd::prelude::*;

use crate::error::{fold_stack, folded, is_incomplete, ErrorStack, PreservedError};

verus! {

/// The raw errors of a stack, oldest first.
pub open spec fn raws<I, E>(stack: Seq<PreservedError<I, E>>) -> Seq<E> {
    stack.map_values(|p: PreservedError<I, E>| p.inner.raw())
}

/// Drops the tags of a spent stack and keeps its raw errors in order.
pub fn into_raw_errors<I, E>(stack: ErrorStack<I, E>) -> (r: Vec<E>)
    ensures
        r@ == raws(stack@),
{
    let ghost all = stack@;
    let mut rest = stack;
    let mut out: Vec<E> = Vec::new();
    while rest.len() > 0
        invariant
            rest@.len() <= all.len(),
            rest@ == all.subrange(all.len() - rest@.len(), all.len() as int),
            out@ == raws(all.subrange(0, all.len() - rest@.len())),
        decreases rest@.len(),
    {
        let ghost done = all.len() - rest@.len();
        let entry = rest.remove(0);
        proof {
            assert(entry == all[done]);
            assert(rest@ =~= all.subrange(all.len() - rest@.len(), all.len() as int));
        }
        out.push(entry.into_inner());
        proof {
            assert(out@ =~= raws(all.subrange(0, done + 1)));
        }
    }
    proof {
        assert(all.subrange(0, all.len() as int) =~= all);
    }
    out
}

/// What a sequence returns once its last step has run: on success, the kept
/// output with the raw errors of the stack and the input that the last step
/// left; on failure, the stack folded into the last step's error, with that
/// step's severity.
pub open spec fn sequence_result<I, O, O2, E: crate::error::Merge>(
    output: O,
    stack: Seq<PreservedError<I, E>>,
    last: nom::IResult<I, O2, E>,
    r: nom::IResult<I, (O, Vec<E>), E>,
) -> bool {
    match (last, r) {
        (Ok((i0, _)), Ok((i, (o, errors)))) => i == i0 && o == output && errors@ == raws(stack),
        (Err(nom::Err::Error(e0)), Err(nom::Err::Error(e))) => e == folded(e0, stack),
        (Err(nom::Err::Failure(e0)), Err(nom::Err::Failure(e))) => e == folded(e0, stack),
        _ => false,
    }
}

/// Closes a sequence on the result of its last step, given the output and
/// the stack that the stack-carrying step produced.
pub fn finish_sequence<I, O, O2, E: crate::error::Merge>(
    output: O,
    stack: ErrorStack<I, E>,
    last: nom::IResult<I, O2, E>,
) -> (r: nom::IResult<I, (O, Vec<E>), E>)
    requires
        !is_incomplete(last),
    ensures
        sequence_result(output, stack@, last, r),
{
    match last {
        Ok((rest, _)) => Ok((rest, (output, into_raw_errors(stack)))),
        Err(nom::Err::Error(e)) => Err(nom::Err::Error(fold_stack(e, stack))),
        Err(nom::Err::Failure(e)) => Err(nom::Err::Failure(fold_stack(e, stack))),
        Err(nom::Err::Incomplete(n)) => Err(nom::Err::Incomplete(n)),
    }
}

/// How the result of `terminated` relates to what `second` returned after
/// `first` returned `head`.
pub open spec fn terminated_result<I, O1, O2, E: crate::error::Merge, G>(
    head: nom::IResult<I, (O1, ErrorStack<I, E>), E>,
    second: G,
    r: nom::IResult<I, (O1, Vec<E>), E>,
) -> bool
    where
        G: FnMut(I) -> nom::IResult<I, O2, E>,
{
    match head {
        Err(e) => r == Err::<(I, (O1, Vec<E>)), nom::Err<E>>(e),
        Ok((rest, (o1, stack))) => exists|last| #[trigger] call_ensures(second, (rest,), last)
            && sequence_result(o1, stack@, last, r),
    }
}

/// What the last step of a sequence needs once the step before it returned
/// `head`: where that succeeded, the last step accepts what was left and
/// never asks for more input on it.
pub open spec fn ready_after<I, O, O2, E, G>(head: nom::IResult<I, O, E>, last: G) -> bool
    where
        G: FnMut(I) -> nom::IResult<I, O2, E>,
{
    match head {
        Ok((rest, _)) => call_requires(last, (rest,))
            && forall|out| #[trigger] call_ensures(last, (rest,), out) ==> !is_incomplete(out),
        Err(_) => true,
    }
}

/// Runs the stack-carrying `first`, then `second` on what it left. On
/// success, hands back `first`'s output with the raw errors of its stack. A
/// failure of `first` passes through; a failure of `second` comes back with
/// its own severity and the stack folded into its error.
pub fn terminated<I, O1, O2, E: crate::error::Merge, F, G>(
    first: &mut F,
    second: &mut G,
    input: I,
) -> (r: nom::IResult<I, (O1, Vec<E>), E>)
    where
        F: FnMut(I) -> nom::IResult<I, (O1, ErrorStack<I, E>), E>,
        G: FnMut(I) -> nom::IResult<I, O2, E>,
    requires
        call_requires(*old(first), (input,)),
        forall|head| #[trigger] call_ensures(*old(first), (input,), head) ==> ready_after(head, *old(second)),
    ensures
        exists|head| #[trigger] call_ensures(*old(first), (input,), head)
            && terminated_result(head, *old(second), r),
{
    let ghost input0 = input;
    let head = first(input);
    let ghost head0 = head;
    assert(call_ensures(*old(first), (input0,), head0));
    match head {
        Err(e) => Err(e),
        Ok((rest, (o1, stack))) => {
            let ghost rest0 = rest;
            let last = second(rest);
            assert(call_ensures(*old(second), (rest0,), last));
            let r = finish_sequence(o1, stack, last);
            assert(terminated_result(head0, *old(second), r));
            r
        },
    }
}

/// How the result of `delimited` relates to what `first` returned, and then
/// to what `second` and `third` returned after it.
pub open spec fn delimited_result<I, O1, O2, O3, E: crate::error::Merge, G, H>(
    head: nom::IResult<I, O1, E>,
    second: G,
    third: H,
    r: nom::IResult<I, (O2, Vec<E>), E>,
) -> bool
    where
        G: FnMut(I) -> nom::IResult<I, (O2, ErrorStack<I, E>), E>,
        H: FnMut(I) -> nom::IResult<I, O3, E>,
{
    match head {
        Err(e) => r == Err::<(I, (O2, Vec<E>)), nom::Err<E>>(e),
        Ok((rest, _)) => exists|middle| #[trigger] call_ensures(second, (rest,), middle)
            && terminated_result(middle, third, r),
    }
}

/// What the two later steps of `delimited` need once `first` returned `head`:
/// `second` accepts what was left, and `third` is ready after each of its
/// outcomes.
pub open spec fn middle_ready_after<I, O1, O2, O3, E, G, H>(head: nom::IResult<I, O1, E>, second: G, third: H) -> bool
    where
        G: FnMut(I) -> nom::IResult<I, (O2, ErrorStack<I, E>), E>,
        H: FnMut(I) -> nom::IResult<I, O3, E>,
{
    match head {
        Ok((rest, _)) => call_requires(second, (rest,))
            && forall|middle| #[trigger] call_ensures(second, (rest,), middle) ==> ready_after(middle, third),
        Err(_) => true,
    }
}

/// Runs `first`, the stack-carrying `second` and `third` in order, and keeps
/// only `second`'s output. A failure of `first` or `second` passes through
/// untouched; after that, `third`'s outcome is handled as in `terminated`,
/// against `second`'s stack.
pub fn delimited<I, O1, O2, O3, E: crate::error::Merge, F, G, H>(
    first: &mut F,
    second: &mut G,
    third: &mut H,
    input: I,
) -> (r: nom::IResult<I, (O2, Vec<E>), E>)
    where
        F: FnMut(I) -> nom::IResult<I, O1, E>,
        G: FnMut(I) -> nom::IResult<I, (O2, ErrorStack<I, E>), E>,
        H: FnMut(I) -> nom::IResult<I, O3, E>,
    requires
        call_requires(*old(first), (input,)),
        forall|head| #[trigger] call_ensures(*old(first), (input,), head)
            ==> middle_ready_after(head, *old(second), *old(third)),
    ensures
        exists|head| #[trigger] call_ensures(*old(first), (input,), head)
            && delimited_result(head, *old(second), *old(third), r),
{
    let ghost input0 = input;
    let head = first(input);
    let ghost head0 = head;
    assert(call_ensures(*old(first), (input0,), head0));
    match head {
        Err(e) => Err(e),
        Ok((rest, _)) => {
            let r = terminated(second, third, rest);
            assert(delimited_result(head0, *old(second), *old(third), r));
            r
        },
    }
}

} // verus!
