//! The conversion from an owned value back to its borrowed form.
use vstd::prelude::*;

verus! {

/// Borrows an owned value as its borrowed form.
pub trait Borrow {
    /// The borrowed form, living as long as the borrow of `self`.
    type Target<'a> where Self: 'a;

    /// `target` holds the same contents as `self`.
    spec fn lends(&self, target: Self::Target<'_>) -> bool;

    fn borrow(&self) -> (r: Self::Target<'_>)
        ensures
            self.lends(r),
    ;
}

impl Borrow for String {
    type Target<'a> = &'a str;

    open spec fn lends(&self, target: &str) -> bool {
        target@ == self@
    }

    fn borrow(&self) -> (r: &str) {
        self.as_str()
    }
}

// Verus takes a lifetime-generic associated type only in an impl without
// type parameters, so the container impls name their element type.
impl Borrow for Option<String> {
    type Target<'a> = Option<&'a str>;

    open spec fn lends(&self, target: Option<&str>) -> bool {
        match (self, target) {
            (Some(a), Some(b)) => b@ == a@,
            (None, None) => true,
            _ => false,
        }
    }

    fn borrow(&self) -> (r: Option<&str>) {
        match self {
            Some(s) => Some(s.as_str()),
            None => None,
        }
    }
}

impl Borrow for Vec<String> {
    type Target<'a> = Vec<&'a str>;

    open spec fn lends(&self, target: Vec<&str>) -> bool {
        &&& target@.len() == self@.len()
        &&& forall|i: int| 0 <= i < self@.len() ==> (#[trigger] target@[i])@ == self@[i]@
    }

    fn borrow(&self) -> (r: Vec<&str>) {
        let mut out: Vec<&str> = Vec::with_capacity(self.len());
        let mut i: usize = 0;
        while i < self.len()
            invariant
                i <= self@.len(),
                out@.len() == i,
                forall|k: int| 0 <= k < i ==> (#[trigger] out@[k])@ == self@[k]@,
            decreases self@.len() - i,
        {
            out.push(self[i].as_str());
            i += 1;
        }
        out
    }
}

} // verus!
