use vstd::prelude::*;

use crate::errors::SignalJniError;

verus! {

/// The placeholder returned by a boundary call while an exception is
/// pending. It carries no meaning and exists only to satisfy the call's
/// declared return type.
pub trait JniDummyValue: Sized {
    spec fn spec_dummy() -> Self;

    fn dummy_value() -> (r: Self)
        ensures
            r == Self::spec_dummy(),
    ;
}

impl JniDummyValue for i64 {
    open spec fn spec_dummy() -> i64 {
        0
    }

    fn dummy_value() -> (r: i64)
        ensures
            r == Self::spec_dummy(),
    {
        0
    }
}

impl JniDummyValue for i32 {
    open spec fn spec_dummy() -> i32 {
        0
    }

    fn dummy_value() -> (r: i32)
        ensures
            r == Self::spec_dummy(),
    {
        0
    }
}

impl JniDummyValue for u8 {
    open spec fn spec_dummy() -> u8 {
        0
    }

    fn dummy_value() -> (r: u8)
        ensures
            r == Self::spec_dummy(),
    {
        0
    }
}

impl JniDummyValue for () {
    open spec fn spec_dummy() -> () {
        ()
    }

    fn dummy_value() -> (r: ())
        ensures
            r == Self::spec_dummy(),
    {
    }
}

/// How a guarded boundary call came out: a value, a typed failure, or an
/// uncontrolled native fault caught at the boundary, with its message when
/// one was available.
pub enum CallOutcome<R> {
    Success(R),
    Failure(SignalJniError),
    Fault(Option<String>),
}

/// Settles a guarded boundary call: a success passes its value through with
/// no exception pending; a typed failure yields the type's dummy value and
/// that error; an uncontrolled fault yields the dummy value and an
/// `UnexpectedPanic` error carrying the fault's message. The caller is never
/// left without a well-typed result.
pub fn settle_call<R: JniDummyValue>(outcome: CallOutcome<R>) -> (res: (R, Option<SignalJniError>))
    ensures
        outcome matches CallOutcome::Success(v) ==> (res.0 == v && res.1 is None),
        outcome matches CallOutcome::Failure(e) ==> (res.0 == R::spec_dummy() && res.1 == Some(e)),
        outcome matches CallOutcome::Fault(m) ==> (res.0 == R::spec_dummy() && res.1 == Some(
            SignalJniError::UnexpectedPanic(m),
        )),
{
    match outcome {
        CallOutcome::Success(v) => (v, None),
        CallOutcome::Failure(e) => (R::dummy_value(), Some(e)),
        CallOutcome::Fault(m) => (R::dummy_value(), Some(SignalJniError::UnexpectedPanic(m))),
    }
}

} // verus!
