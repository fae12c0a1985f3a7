use vstd::prelude::*;

verus! {

/// A general-purpose sum type with two alternatives.
pub enum Either<L, R> {
    Left(L),
    Right(R),
}

} // verus!
