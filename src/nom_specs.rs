//! Declarations of the nom types that the combinators carry, and the merge
//! operation of nom's own error types.

use vstd::prelude::*;

use crate::error::Merge;

verus! {

/// nom's `Needed`, held only inside `nom::Err::Incomplete`.
#[verifier::external_type_specification]
#[verifier::external_body]
pub struct ExNeeded(nom::Needed);

/// nom's three-way failure: `Incomplete`, `Error` (recoverable) and
/// `Failure` (fatal). Its variants are read from nom's definition.
#[verifier::external_type_specification]
#[verifier::reject_recursive_types(E)]
pub struct ExErr<E>(nom::Err<E>);

/// nom's default error type: an input position and an error kind.
#[verifier::external_type_specification]
#[verifier::external_body]
#[verifier::reject_recursive_types(I)]
pub struct ExError<I>(nom::error::Error<I>);

/// nom's error type that keeps a trail of positions and contexts.
#[verifier::external_type_specification]
#[verifier::external_body]
#[verifier::reject_recursive_types(I)]
pub struct ExVerboseError<I>(nom::error::VerboseError<I>);

/// Relies on `ParseError::or` for `nom::error::Error`, which keeps the
/// trait's default body: it returns `other`.
#[verifier::external_body]
fn error_or<I>(e: nom::error::Error<I>, other: nom::error::Error<I>) -> (r: nom::error::Error<I>)
    ensures
        r == other,
{
    nom::error::ParseError::<I>::or(e, other)
}

/// Relies on `ParseError::or` for `nom::error::VerboseError`, which keeps the
/// trait's default body: it returns `other`.
#[verifier::external_body]
fn verbose_error_or<I>(e: nom::error::VerboseError<I>, other: nom::error::VerboseError<I>) -> (r: nom::error::VerboseError<I>)
    ensures
        r == other,
{
    nom::error::ParseError::<I>::or(e, other)
}

/// nom's kind of parse error.
#[verifier::external_type_specification]
#[verifier::external_body]
pub struct ExErrorKind(nom::error::ErrorKind);

/// Relies on `ParseError::or` for `(I, ErrorKind)`, which keeps the trait's
/// default body: it returns `other`.
#[verifier::external_body]
fn pair_or<I>(e: (I, nom::error::ErrorKind), other: (I, nom::error::ErrorKind)) -> (r: (I, nom::error::ErrorKind))
    ensures
        r == other,
{
    nom::error::ParseError::<I>::or(e, other)
}

/// Relies on `ParseError::or` for `()`, which keeps the trait's default body:
/// it returns `other`.
#[verifier::external_body]
fn unit_or(e: (), other: ()) -> (r: ())
    ensures
        r == other,
{
    nom::error::ParseError::<()>::or(e, other)
}

impl<I> Merge for nom::error::Error<I> {
    open spec fn merged(self, other: Self) -> Self {
        other
    }

    fn merge(self, other: Self) -> (r: Self) {
        error_or(self, other)
    }
}

impl<I> Merge for nom::error::VerboseError<I> {
    open spec fn merged(self, other: Self) -> Self {
        other
    }

    fn merge(self, other: Self) -> (r: Self) {
        verbose_error_or(self, other)
    }
}

impl<I> Merge for (I, nom::error::ErrorKind) {
    open spec fn merged(self, other: Self) -> Self {
        other
    }

    fn merge(self, other: Self) -> (r: Self) {
        pair_or(self, other)
    }
}

impl Merge for () {
    open spec fn merged(self, other: Self) -> Self {
        other
    }

    fn merge(self, other: Self) -> (r: Self) {
        unit_or(self, other)
    }
}

} // verus!
