//! The diagnostics of one expansion and the list that collects them.
use vstd::prelude::*;

verus! {

/// The option that a duplicate setting names.
#[derive(PartialEq, Eq, Structural, Clone, Copy, Debug)]
pub enum Setting {
    Name,
    ContainerKind,
    VariantKind,
    KindFromCopy,
    KindFromNoCopy,
    FieldKind,
    Owned,
    Mutability,
    ToOwnedWith,
    BorrowWith,
    BorrowMutWith,
}

/// What went wrong.
#[derive(PartialEq, Eq, Structural, Clone, Copy, Debug)]
pub enum Problem {
    /// The option was set before; the earlier place follows as `ExistingHere`.
    Duplicate(Setting),
    /// Where a duplicated option was first set.
    ExistingHere,
    /// A key inside the tool's own attribute that it does not know.
    Unsupported,
    /// `copy` or `no_copy` written with arguments.
    ExpectedNoArguments,
    /// A key that needs `= value` has none, or one of the wrong kind.
    ExpectedValue,
    /// A key that takes no value was given one.
    UnexpectedValue,
    /// The arguments of an attribute do not read as it expects.
    Malformed,
    /// A named lifetime in a field marked copy.
    LifetimeNotSupported,
    /// An anonymous reference in a field marked copy.
    AnonymousReferenceNotSupported,
    /// Suggests naming the owned type of a field explicitly.
    OwnedTypeHint,
    /// The declaration is neither a struct nor an enum.
    NotStructOrEnum,
}

/// One diagnostic: the place it points at and what it says.
#[derive(PartialEq, Eq, Structural, Clone, Copy, Debug)]
pub struct Diagnostic {
    pub loc: u64,
    pub problem: Problem,
}

/// Collects the diagnostics of one expansion.
pub struct Ctxt {
    pub errors: Vec<Diagnostic>,
}

impl Ctxt {
    pub fn new() -> (r: Ctxt)
        ensures
            r.errors@ == Seq::<Diagnostic>::empty(),
    {
        Ctxt { errors: Vec::new() }
    }

    /// The diagnostics collected so far.
    pub fn into_errors(self) -> (r: Vec<Diagnostic>)
        ensures
            r@ == self.errors@,
    {
        self.errors
    }

    /// Records a diagnostic.
    pub fn span_error(&mut self, loc: u64, problem: Problem)
        ensures
            final(self).errors@ == old(self).errors@.push(Diagnostic { loc, problem }),
    {
        self.errors.push(Diagnostic { loc, problem });
    }

    pub fn has_errors(&self) -> (r: bool)
        ensures
            r == (self.errors@.len() > 0),
    {
        self.errors.len() > 0
    }
}

} // verus!
