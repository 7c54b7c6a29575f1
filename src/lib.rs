//! Derives, for a type that holds borrowed data, an owned twin and the
//! conversions between the two, and provides the conversion traits that the
//! generated code calls.
use vstd::prelude::*;

pub mod attr;
pub mod borrow;
pub mod borrow_mut;
pub mod ctxt;
pub mod implement;
pub mod to_owned;
pub mod ty;

pub use crate::borrow::Borrow;
pub use crate::borrow_mut::BorrowMut;
pub use crate::to_owned::ToOwned;

verus! {

/// Converts a value into its owned form.
pub fn to_owned<T: ToOwned>(value: T) -> (r: T::Owned)
    ensures
        value.owns(r),
{
    value.to_owned()
}

/// Borrows a value as its borrowed form.
pub fn borrow<T: ?Sized + Borrow>(value: &T) -> (r: T::Target<'_>)
    ensures
        value.lends(r),
{
    value.borrow()
}

/// Borrows a value mutably as its borrowed form.
pub fn borrow_mut<T: ?Sized + BorrowMut>(value: &mut T) -> (r: T::TargetMut<'_>)
    ensures
        old(value).lends_mut(r),
{
    value.borrow_mut()
}

/// Round trip on strings: a string made owned and borrowed back holds what
/// it held at first.
pub proof fn string_round_trip(x: &str, owned: String, back: &str)
    requires
        x.owns(owned),
        owned.lends(back),
    ensures
        back@ == x@,
{
}

/// Round trip on optional strings: made owned and borrowed back, an
/// optional string is what it was.
pub proof fn option_round_trip(x: Option<&str>, owned: Option<String>, back: Option<&str>)
    requires
        x.owns(owned),
        owned.lends(back),
    ensures
        match (x, back) {
            (Some(a), Some(b)) => a@ == b@,
            (None, None) => true,
            _ => false,
        },
{
}

/// Round trip on lists of strings: made owned and borrowed back, a list of
/// strings holds the same strings in the same order.
pub proof fn vec_round_trip(x: Vec<&str>, owned: Vec<String>, back: Vec<&str>)
    requires
        x.owns(owned),
        owned.lends(back),
    ensures
        back@.len() == x@.len(),
        forall|i: int| 0 <= i < x@.len() ==> (#[trigger] back@[i])@ == x@[i]@,
{
    assert forall|i: int| 0 <= i < x@.len() implies (#[trigger] back@[i])@ == x@[i]@ by {
        assert(<&str as ToOwned>::owns(&x@[i], owned@[i]));
    }
}

} // verus!
