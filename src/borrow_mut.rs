//! The conversion from an owned value to its mutably borrowed form.
use vstd::prelude::*;

verus! {

/// Borrows an owned value mutably as its borrowed form.
pub trait BorrowMut {
    /// The mutably borrowed form, living as long as the borrow of `self`.
    type TargetMut<'a> where Self: 'a;

    /// `target` holds the same contents as `self`.
    spec fn lends_mut(&self, target: Self::TargetMut<'_>) -> bool;

    fn borrow_mut(&mut self) -> (r: Self::TargetMut<'_>)
        ensures
            old(self).lends_mut(r),
    ;
}

impl BorrowMut for String {
    type TargetMut<'a> = &'a mut String;

    open spec fn lends_mut(&self, target: &mut String) -> bool {
        target@ == self@
    }

    fn borrow_mut(&mut self) -> (r: &mut String) {
        self
    }
}

// Verus takes a lifetime-generic associated type only in an impl without
// type parameters, so the container impls name their element type.
impl BorrowMut for Option<String> {
    type TargetMut<'a> = Option<&'a mut String>;

    open spec fn lends_mut(&self, target: Option<&mut String>) -> bool {
        match (self, target) {
            (Some(a), Some(b)) => b@ == a@,
            (None, None) => true,
            _ => false,
        }
    }

    fn borrow_mut(&mut self) -> (r: Option<&mut String>) {
        match self {
            Some(s) => Some(s),
            None => None,
        }
    }
}

} // verus!
