use vstd::prelude::*;

verus! {

/// A type with one distinguished "empty" value that can be constructed
/// from nothing, such as a node that does nothing.
pub trait Empty: Sized {
    /// The empty value. A type that leaves this as it is says no more
    /// than that `empty` always constructs the same value.
    open spec fn empty_spec() -> Self {
        arbitrary()
    }

    /// Constructs the empty value.
    fn empty() -> (value: Self)
        ensures
            value == Self::empty_spec(),
    ;
}

} // verus!
