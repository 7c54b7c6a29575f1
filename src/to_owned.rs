//! The conversion from a borrowed value to its owned form.
use vstd::prelude::*;
use vstd::string::*;

verus! {

// Impls are given where the owned form can be related to the borrowed one
// exactly. The keyed collections (`HashMap`, `HashSet`, `BTreeMap`,
// `BTreeSet`) are left out: their keys change type on the way, and two
// distinct borrowed keys may own equal keys, so how many entries the owned
// collection keeps depends on the owned key type's `Eq`/`Ord`, which a generic
// contract cannot see. `LinkedList`, `Cow` and `Path` have no specification in
// vstd to build on, and `OsStr` and `CStr` live in `std::ffi`, which this
// library does not use.

/// Converts a borrowed value into an owned one.
pub trait ToOwned {
    /// The owned form.
    type Owned;

    /// `owned` holds the same contents as `self`.
    spec fn owns(&self, owned: Self::Owned) -> bool;

    fn to_owned(&self) -> (r: Self::Owned)
        ensures
            self.owns(r),
    ;
}

impl<'b, T: ?Sized + ToOwned> ToOwned for &'b T {
    type Owned = T::Owned;

    open spec fn owns(&self, owned: T::Owned) -> bool {
        (**self).owns(owned)
    }

    fn to_owned(&self) -> (r: T::Owned) {
        T::to_owned(*self)
    }
}

impl ToOwned for str {
    type Owned = String;

    open spec fn owns(&self, owned: String) -> bool {
        owned@ == self@
    }

    fn to_owned(&self) -> (r: String) {
        String::from_str(self)
    }
}

impl ToOwned for String {
    type Owned = String;

    open spec fn owns(&self, owned: String) -> bool {
        owned@ == self@
    }

    fn to_owned(&self) -> (r: String) {
        String::from_str(self.as_str())
    }
}

impl<T: ToOwned> ToOwned for Option<T> {
    type Owned = Option<T::Owned>;

    open spec fn owns(&self, owned: Option<T::Owned>) -> bool {
        match (self, owned) {
            (Some(a), Some(b)) => a.owns(b),
            (None, None) => true,
            _ => false,
        }
    }

    fn to_owned(&self) -> (r: Option<T::Owned>) {
        match self {
            Some(v) => Some(v.to_owned()),
            None => None,
        }
    }
}

impl<T: ToOwned> ToOwned for Vec<T> {
    type Owned = Vec<T::Owned>;

    open spec fn owns(&self, owned: Vec<T::Owned>) -> bool {
        &&& owned@.len() == self@.len()
        &&& forall|i: int| 0 <= i < self@.len() ==> #[trigger] self@[i].owns(owned@[i])
    }

    fn to_owned(&self) -> (r: Vec<T::Owned>) {
        let mut out: Vec<T::Owned> = Vec::with_capacity(self.len());
        let mut i: usize = 0;
        while i < self.len()
            invariant
                i <= self@.len(),
                out@.len() == i,
                forall|k: int| 0 <= k < i ==> #[trigger] self@[k].owns(out@[k]),
            decreases self@.len() - i,
        {
            out.push(self[i].to_owned());
            i += 1;
        }
        out
    }
}

impl<'b> ToOwned for &'b mut String {
    type Owned = String;

    open spec fn owns(&self, owned: String) -> bool {
        owned@ == (**self)@
    }

    fn to_owned(&self) -> (r: String) {
        String::from_str((**self).as_str())
    }
}

impl<'b> ToOwned for &'b mut str {
    type Owned = String;

    open spec fn owns(&self, owned: String) -> bool {
        owned@ == (**self)@
    }

    fn to_owned(&self) -> (r: String) {
        String::from_str(&**self)
    }
}

impl<T: Clone> ToOwned for [T] {
    type Owned = Vec<T>;

    open spec fn owns(&self, owned: Vec<T>) -> bool {
        &&& owned@.len() == self@.len()
        &&& forall|i: int| 0 <= i < self@.len() ==> cloned(#[trigger] self@[i], owned@[i])
    }

    fn to_owned(&self) -> (r: Vec<T>) {
        let mut out: Vec<T> = Vec::with_capacity(self.len());
        let mut i: usize = 0;
        while i < self.len()
            invariant
                i <= self@.len(),
                out@.len() == i,
                forall|k: int| 0 <= k < i ==> cloned(#[trigger] self@[k], out@[k]),
            decreases self@.len() - i,
        {
            out.push(self[i].clone());
            i += 1;
        }
        out
    }
}

} // verus!
