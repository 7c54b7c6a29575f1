//! The expansion: decides how each field is converted and plans the owned
//! twin of a struct or enum together with both conversions.
use vstd::prelude::*;
use crate::attr::{
    container, variant, Container, Variant,
    field, resolved, stripped, strip, Attribute, Attributes, Callee, FieldTypeKind, Level, PathSource,
    Source, State,
};
use crate::ctxt::{Ctxt, Diagnostic, Problem};
use crate::ty::{
    contains_mut, contains_mut_reference, hint_of, is_bound_reference, lifetimes_of, process_type,
    referenced, sanitized, take_referenced,
    LifetimeUse, Ty, TypeHint,
};

verus! {

broadcast use vstd::std_specs::vec::group_vec_axioms;

/// How a field is reached in generated code.
#[derive(PartialEq, Eq, Structural, Clone, Copy, Debug)]
pub enum Access {
    /// Through `self`, as in `self.field`.
    SelfAccess,
    /// Through a variable bound by a match pattern.
    BindingAccess,
}

/// A field of a struct or variant: by name, or by position.
pub enum Binding {
    Named(String),
    Unnamed(usize),
}

/// A field in a field expression or struct literal.
pub enum Member {
    Named(String),
    Unnamed(usize),
}

/// The variable a pattern binds a field to: the field's name, or `f` and
/// its position.
pub enum Variable {
    Named(String),
    Positional(usize),
}

/// `member: variable` in a pattern.
pub struct Pattern {
    pub member: Member,
    pub variable: Variable,
}

/// A generated expression.
pub enum Expr {
    /// `self.member`, `&self.member`, or `&mut self.member` when both are set.
    SelfField { member: Member, by_ref: bool, mutable: bool },
    /// A variable bound by a pattern.
    Var(Variable),
    /// `callee(arg)`
    Call(Callee, Box<Expr>),
}

/// `member: expr` in a struct literal.
pub struct FieldValue {
    pub member: Member,
    pub expr: Expr,
}

pub open spec fn member_of(b: Binding) -> Member {
    match b {
        Binding::Named(id) => Member::Named(id),
        Binding::Unnamed(i) => Member::Unnamed(i),
    }
}

pub open spec fn variable_of(b: Binding) -> Variable {
    match b {
        Binding::Named(id) => Variable::Named(id),
        Binding::Unnamed(i) => Variable::Positional(i),
    }
}

impl Binding {
    pub fn as_member(&self) -> (r: Member)
        ensures
            r == member_of(*self),
    {
        match self {
            Binding::Named(id) => Member::Named(id.clone()),
            Binding::Unnamed(i) => Member::Unnamed(*i),
        }
    }

    /// The variable that a pattern binds this field to.
    pub fn as_variable(&self) -> (r: Variable)
        ensures
            r == variable_of(*self),
    {
        match self {
            Binding::Named(id) => Variable::Named(id.clone()),
            Binding::Unnamed(i) => Variable::Positional(*i),
        }
    }

    /// The `member: variable` pattern for this field.
    pub fn as_field_value(&self) -> (r: Pattern)
        ensures
            r == (Pattern { member: member_of(*self), variable: variable_of(*self) }),
    {
        Pattern { member: self.as_member(), variable: self.as_variable() }
    }
}

/// A field as reached in generated code.
pub struct BoundAccess {
    /// The field is copied rather than referenced.
    pub copy: bool,
    /// A field that is referenced is referenced mutably.
    pub mutable: bool,
    pub access: Access,
    pub binding: Binding,
}

pub open spec fn access_expr(b: BoundAccess) -> Expr {
    match b.access {
        Access::SelfAccess => Expr::SelfField {
            member: member_of(b.binding),
            by_ref: !b.copy,
            mutable: b.mutable && !b.copy,
        },
        Access::BindingAccess => Expr::Var(variable_of(b.binding)),
    }
}

impl BoundAccess {
    /// `self.field` for a copied field, `&self.field` or `&mut self.field`
    /// otherwise; the bound variable inside a match arm.
    pub fn as_expr(&self) -> (r: Expr)
        ensures
            r == access_expr(*self),
    {
        match self.access {
            Access::SelfAccess => Expr::SelfField {
                member: self.binding.as_member(),
                by_ref: !self.copy,
                mutable: self.mutable && !self.copy,
            },
            Access::BindingAccess => Expr::Var(self.binding.as_variable()),
        }
    }
}

/// What is done with a field in one direction.
#[derive(PartialEq, Eq, Structural, Clone, Copy, Debug)]
pub enum Call {
    /// Passed to a function.
    Path(Callee),
    /// Used as reached.
    Ref,
}

pub open spec fn call_expr(c: Call, b: BoundAccess) -> Expr {
    match c {
        Call::Path(callee) => Expr::Call(callee, Box::new(access_expr(b))),
        Call::Ref => access_expr(b),
    }
}

impl Call {
    pub fn as_expr(self, access: &BoundAccess) -> (r: Expr)
        ensures
            r == call_expr(self, *access),
    {
        match self {
            Call::Path(callee) => Expr::Call(callee, Box::new(access.as_expr())),
            Call::Ref => access.as_expr(),
        }
    }
}

/// How a field is converted, from the strongest signal down.
#[derive(PartialEq, Eq, Structural, Clone, Copy, Debug)]
pub enum Strategy {
    /// Copied both ways; its type is kept.
    Copy,
    /// `std` on a reference: cloned out, referenced back.
    StdReference,
    /// A named owned type, converted by the field's functions.
    Owned,
    /// Converted by the field's functions into the owned type that
    /// `ToOwned` projects from the field type.
    Projection,
}

/// The strategy of a field, by priority: explicit copy, then `std` on a
/// reference, then a named owned type, then a type that reads as copy unless
/// marked `no_copy`, then the projection through `ToOwned`.
pub open spec fn decide(
    kind: FieldTypeKind,
    reference: bool,
    owned: bool,
    hint: TypeHint,
) -> Strategy {
    if kind == FieldTypeKind::Copy(true) {
        Strategy::Copy
    } else if kind == FieldTypeKind::Std && reference {
        Strategy::StdReference
    } else if owned {
        Strategy::Owned
    } else if hint == TypeHint::Copy && kind != FieldTypeKind::Copy(false) {
        Strategy::Copy
    } else {
        Strategy::Projection
    }
}

pub fn strategy(kind: FieldTypeKind, reference: bool, owned: bool, hint: TypeHint) -> (r: Strategy)
    ensures
        r == decide(kind, reference, owned, hint),
{
    if kind == FieldTypeKind::Copy(true) {
        Strategy::Copy
    } else if kind == FieldTypeKind::Std && reference {
        Strategy::StdReference
    } else if owned {
        Strategy::Owned
    } else if hint == TypeHint::Copy && kind != FieldTypeKind::Copy(false) {
        Strategy::Copy
    } else {
        Strategy::Projection
    }
}

/// The order in which the signals on a field decide its strategy: an
/// explicit copy wins over `std` on a reference, which wins over a named
/// owned type, which wins over a type that reads as copy; when none applies,
/// or the copy reading is vetoed by `no_copy`, the owned type is projected
/// through `ToOwned`.
pub proof fn classification_priority(
    kind: FieldTypeKind,
    reference: bool,
    owned: bool,
    hint: TypeHint,
)
    ensures
        kind == FieldTypeKind::Copy(true) ==> decide(kind, reference, owned, hint) == Strategy::Copy,
        kind == FieldTypeKind::Std && reference ==> decide(kind, reference, owned, hint)
            == Strategy::StdReference,
        kind != FieldTypeKind::Copy(true) && !(kind == FieldTypeKind::Std && reference) && owned
            ==> decide(kind, reference, owned, hint) == Strategy::Owned,
        kind != FieldTypeKind::Copy(true) && kind != FieldTypeKind::Copy(false) && !(kind
            == FieldTypeKind::Std && reference) && !owned && hint == TypeHint::Copy ==> decide(
            kind,
            reference,
            owned,
            hint,
        ) == Strategy::Copy,
        kind != FieldTypeKind::Copy(true) && !(kind == FieldTypeKind::Std && reference) && !owned
            && (hint != TypeHint::Copy || kind == FieldTypeKind::Copy(false)) ==> decide(
            kind,
            reference,
            owned,
            hint,
        ) == Strategy::Projection,
{
}

/// The calls of each direction for a strategy: to the owned value, and back.
pub open spec fn calls_of(s: Strategy, to_owned: Callee, borrow: Callee) -> (Call, Call) {
    match s {
        Strategy::Copy => (Call::Ref, Call::Ref),
        Strategy::StdReference => (Call::Path(Callee::Clone), Call::Ref),
        Strategy::Owned | Strategy::Projection => (Call::Path(to_owned), Call::Path(borrow)),
    }
}

pub fn calls(s: Strategy, to_owned: Callee, borrow: Callee) -> (r: (Call, Call))
    ensures
        r == calls_of(s, to_owned, borrow),
{
    match s {
        Strategy::Copy => (Call::Ref, Call::Ref),
        Strategy::StdReference => (Call::Path(Callee::Clone), Call::Ref),
        Strategy::Owned | Strategy::Projection => (Call::Path(to_owned), Call::Path(borrow)),
    }
}

/// The call that borrows the field in the mutable conversion. A field that
/// is not mutable is borrowed as in the shared one; a mutable field is
/// reached mutably and, unless copied or referenced, passed to its mutable
/// borrowing function.
pub open spec fn borrow_mut_call_of(s: Strategy, is_mut: bool, borrow: Callee, borrow_mut: Callee) -> Call {
    if !is_mut {
        calls_of(s, Callee::ToOwned, borrow).1
    } else {
        match s {
            Strategy::Copy | Strategy::StdReference => Call::Ref,
            Strategy::Owned | Strategy::Projection => Call::Path(borrow_mut),
        }
    }
}

pub fn borrow_mut_call(s: Strategy, is_mut: bool, borrow: Callee, borrow_mut: Callee) -> (r: Call)
    ensures
        r == borrow_mut_call_of(s, is_mut, borrow, borrow_mut),
{
    if !is_mut {
        calls(s, Callee::ToOwned, borrow).1
    } else {
        match s {
            Strategy::Copy | Strategy::StdReference => Call::Ref,
            Strategy::Owned | Strategy::Projection => Call::Path(borrow_mut),
        }
    }
}

/// The type of a field in the owned declaration.
pub enum OwnedTy {
    /// The field's own type.
    Same,
    /// The type the field references.
    Referenced(Ty),
    /// The type named by the user.
    Given(Source),
    /// `<ty as ToOwned>::Owned`
    Projection(Ty),
}


/// A field of the annotated declaration.
pub struct FieldDecl {
    /// Its name; `None` in a tuple struct or variant.
    pub ident: Option<String>,
    pub ty: Ty,
    pub attrs: Vec<Attribute>,
    /// Where the field stands.
    pub loc: u64,
}

/// What the expansion makes of one field.
pub struct FieldPlan {
    pub strategy: Strategy,
    /// The field's type in the owned declaration.
    pub owned_ty: OwnedTy,
    /// The field's attributes without those of this tool, for both declarations.
    pub attrs: Vec<Attribute>,
    /// Attributes forwarded to one declaration only.
    pub forward: Attributes,
    /// Whether the field is borrowed mutably: marked so, or holding a mutable reference.
    pub is_mut: bool,
    /// `member: expr` that makes the owned field from the borrowed one.
    pub to_owned: FieldValue,
    /// `member: expr` that borrows the owned field back.
    pub borrow: FieldValue,
    /// `member: expr` that borrows the owned field back mutably.
    pub borrow_mut: FieldValue,
}

pub open spec fn binding_of(ident: Option<String>, index: usize) -> Binding {
    match ident {
        Some(id) => Binding::Named(id),
        None => Binding::Unnamed(index),
    }
}

/// The kind of a field: its own, else the inherited one, else `Default`.
pub open spec fn effective_kind(
    own: Option<(u64, FieldTypeKind)>,
    inherited: Option<(u64, FieldTypeKind)>,
) -> FieldTypeKind {
    match own {
        Some((_, k)) => k,
        None => match inherited {
            Some((_, k)) => k,
            None => FieldTypeKind::Default,
        },
    }
}

pub open spec fn callee_of(p: Option<(u64, PathSource)>, default: Callee) -> Callee {
    match p {
        Some((_, path)) => Callee::User(path),
        None => default,
    }
}

/// The error for a lifetime in a field marked copy: a named lifetime, or an
/// anonymous reference.
pub open spec fn lifetime_problem(u: LifetimeUse) -> Problem {
    if u.name is Some {
        Problem::LifetimeNotSupported
    } else {
        Problem::AnonymousReferenceNotSupported
    }
}

/// The errors for the lifetimes of a field marked copy: one at each
/// lifetime, each followed by a hint at the field to name its owned type.
pub open spec fn copy_errors(lts: Seq<LifetimeUse>, loc: u64) -> Seq<Diagnostic>
    decreases lts.len(),
{
    if lts.len() == 0 {
        seq![]
    } else {
        copy_errors(lts.drop_last(), loc) + seq![
            Diagnostic { loc: lts.last().loc, problem: lifetime_problem(lts.last()) },
            Diagnostic { loc, problem: Problem::OwnedTypeHint },
        ]
    }
}

pub open spec fn no_names() -> Seq<String> {
    Seq::<String>::empty()
}

/// The options a field's attributes give it.
pub open spec fn field_options(decl: FieldDecl) -> State {
    resolved(decl.attrs@, Level::Field, seq![])
}

pub open spec fn field_strategy(
    decl: FieldDecl,
    inherited: Option<(u64, FieldTypeKind)>,
) -> Strategy {
    let st = field_options(decl);
    decide(
        effective_kind(st.kind, inherited),
        is_bound_reference(decl.ty, no_names()),
        st.owned is Some,
        hint_of(decl.ty, no_names()),
    )
}

/// The errors after processing a field, starting from `errors`.
pub open spec fn field_errors(
    decl: FieldDecl,
    inherited: Option<(u64, FieldTypeKind)>,
    errors: Seq<Diagnostic>,
) -> Seq<Diagnostic> {
    let st = resolved(decl.attrs@, Level::Field, errors);
    st.errors + if effective_kind(st.kind, inherited) == FieldTypeKind::Copy(true) {
        copy_errors(lifetimes_of(decl.ty, no_names()), decl.loc)
    } else {
        seq![]
    }
}

/// `plan` is what the field at `index` becomes.
pub open spec fn plan_matches(
    decl: FieldDecl,
    index: usize,
    access: Access,
    inherited: Option<(u64, FieldTypeKind)>,
    plan: FieldPlan,
) -> bool {
    let st = field_options(decl);
    let s = field_strategy(decl, inherited);
    let b = binding_of(decl.ident, index);
    let bound = BoundAccess { copy: s == Strategy::Copy, mutable: false, access, binding: b };
    let is_mut = st.is_mut is Some || contains_mut_reference(decl.ty);
    let bound_mut = BoundAccess { copy: s == Strategy::Copy, mutable: is_mut, access, binding: b };
    let borrow = callee_of(st.borrow, Callee::Borrow);
    let c = calls_of(s, callee_of(st.to_owned, Callee::ToOwned), borrow);
    let m = borrow_mut_call_of(s, is_mut, borrow, callee_of(st.borrow_mut, Callee::BorrowMut));
    &&& plan.strategy == s
    &&& plan.attrs@ == stripped(decl.attrs@)
    &&& plan.forward.own@ == st.own
    &&& plan.forward.borrow@ == st.lend
    &&& plan.is_mut == is_mut
    &&& plan.to_owned == (FieldValue { member: member_of(b), expr: call_expr(c.0, bound) })
    &&& plan.borrow == (FieldValue { member: member_of(b), expr: call_expr(c.1, bound) })
    &&& plan.borrow_mut == (FieldValue { member: member_of(b), expr: call_expr(m, bound_mut) })
    &&& match s {
        Strategy::Copy => plan.owned_ty is Same,
        Strategy::StdReference => plan.owned_ty == match st.owned {
            Some((_, src)) => OwnedTy::Given(src),
            None => OwnedTy::Referenced(referenced(decl.ty)),
        },
        Strategy::Owned => plan.owned_ty == OwnedTy::Given(st.owned->Some_0.1),
        Strategy::Projection => plan.owned_ty matches OwnedTy::Projection(t) && sanitized(
            decl.ty,
            t,
            no_names(),
        ),
    }
}

/// The options read from a list do not depend on the errors before it.
proof fn lemma_options_ignore_errors(e: Seq<Diagnostic>, ds: Seq<crate::attr::Directive>)
    ensures
        ({
            let a = crate::attr::run(crate::attr::initial(e), ds);
            let b = crate::attr::run(crate::attr::initial(seq![]), ds);
            &&& a.name == b.name
            &&& a.kind == b.kind
            &&& a.owned == b.owned
            &&& a.is_mut == b.is_mut
            &&& a.to_owned == b.to_owned
            &&& a.borrow == b.borrow
            &&& a.borrow_mut == b.borrow_mut
            &&& a.own == b.own
            &&& a.lend == b.lend
        }),
    decreases ds.len(),
{
    if ds.len() > 0 {
        lemma_options_ignore_errors(e, ds.drop_last());
    }
}

/// Reports each lifetime of a field marked copy.
fn report_copy_lifetimes(cx: &mut Ctxt, lts: &Vec<LifetimeUse>, loc: u64)
    ensures
        final(cx).errors@ == old(cx).errors@ + copy_errors(lts@, loc),
{
    let mut i: usize = 0;
    while i < lts.len()
        invariant
            i <= lts@.len(),
            cx.errors@ == old(cx).errors@ + copy_errors(lts@.subrange(0, i as int), loc),
        decreases lts@.len() - i,
    {
        let problem = match &lts[i].name {
            Some(_) => Problem::LifetimeNotSupported,
            None => Problem::AnonymousReferenceNotSupported,
        };
        cx.span_error(lts[i].loc, problem);
        cx.span_error(loc, Problem::OwnedTypeHint);
        i += 1;
        proof {
            assert(lts@.subrange(0, i as int).drop_last() =~= lts@.subrange(0, i - 1));
            assert(cx.errors@ =~= old(cx).errors@ + copy_errors(lts@.subrange(0, i as int), loc));
        }
    }
    proof {
        assert(lts@.subrange(0, lts@.len() as int) =~= lts@);
    }
}

/// Processes one field: reads its options, classifies its type and builds
/// its conversions in both directions.
pub fn process_field(
    cx: &mut Ctxt,
    access: Access,
    decl: FieldDecl,
    index: usize,
    inherited: Option<(u64, FieldTypeKind)>,
) -> (r: FieldPlan)
    ensures
        final(cx).errors@ == field_errors(decl, inherited, old(cx).errors@),
        plan_matches(decl, index, access, inherited, r),
{
    let ghost d0 = decl;
    let FieldDecl { ident, ty, attrs, loc } = decl;
    let attr = field(cx, &attrs, inherited);
    proof {
        lemma_options_ignore_errors(old(cx).errors@, crate::attr::directives(attrs@, Level::Field, attrs@.len()));
    }
    let kept = strip(attrs);
    let ignore: Vec<String> = Vec::new();
    proof {
        assert(ignore@ =~= no_names());
    }
    let mut lifetimes: Vec<LifetimeUse> = Vec::new();
    let mutable = contains_mut(&ty);
    let walked = process_type(ty, &ignore, &mut lifetimes);
    proof {
        assert(lifetimes@ =~= lifetimes_of(d0.ty, no_names()));
    }
    let kind = attr.ty.kind();
    if kind == FieldTypeKind::Copy(true) {
        report_copy_lifetimes(cx, &lifetimes, loc);
    } else {
        proof {
            assert(cx.errors@ + seq![] =~= cx.errors@);
        }
    }
    let s = strategy(kind, walked.reference, attr.ty.owned.is_some(), walked.hint);
    let (to_owned, borrow) = calls(s, attr.to_owned(), attr.borrow());
    let is_mut = attr.is_mut() || mutable;
    let borrow_mut = borrow_mut_call(s, is_mut, attr.borrow(), attr.borrow_mut());
    let owned_ty = match s {
        Strategy::Copy => OwnedTy::Same,
        Strategy::StdReference => match attr.ty.owned() {
            Some(src) => OwnedTy::Given(src),
            None => OwnedTy::Referenced(take_referenced(walked.ty, Ghost(d0.ty), &ignore)),
        },
        Strategy::Owned => match attr.ty.owned() {
            Some(src) => OwnedTy::Given(src),
            None => OwnedTy::Same,
        },
        Strategy::Projection => OwnedTy::Projection(walked.ty),
    };
    let binding = match ident {
        Some(id) => Binding::Named(id),
        None => Binding::Unnamed(index),
    };
    let mut bound = BoundAccess { copy: s == Strategy::Copy, mutable: false, access, binding };
    let to_owned = FieldValue { member: bound.binding.as_member(), expr: to_owned.as_expr(&bound) };
    let borrow = FieldValue { member: bound.binding.as_member(), expr: borrow.as_expr(&bound) };
    bound.mutable = is_mut;
    let borrow_mut = FieldValue {
        member: bound.binding.as_member(),
        expr: borrow_mut.as_expr(&bound),
    };
    FieldPlan {
        strategy: s,
        owned_ty,
        attrs: kept,
        forward: attr.attributes,
        is_mut,
        to_owned,
        borrow,
        borrow_mut,
    }
}

/// The errors after processing the first `n` fields, starting from `errors`.
pub open spec fn fields_errors(
    fields: Seq<FieldDecl>,
    inherited: Option<(u64, FieldTypeKind)>,
    errors: Seq<Diagnostic>,
    n: nat,
) -> Seq<Diagnostic>
    decreases n,
{
    if n == 0 || n > fields.len() {
        errors
    } else {
        field_errors(fields[n - 1], inherited, fields_errors(fields, inherited, errors, (n - 1) as nat))
    }
}

/// Processes the fields of a struct or variant in order.
pub fn process_fields(
    cx: &mut Ctxt,
    access: Access,
    fields: Vec<FieldDecl>,
    inherited: Option<(u64, FieldTypeKind)>,
) -> (r: Vec<FieldPlan>)
    ensures
        r@.len() == fields@.len(),
        forall|i: int| 0 <= i < r@.len() ==> plan_matches(fields@[i], i as usize, access, inherited, #[trigger] r@[i]),
        final(cx).errors@ == fields_errors(fields@, inherited, old(cx).errors@, fields@.len()),
{
    let ghost f0 = fields@;
    let mut rest = fields;
    let mut out: Vec<FieldPlan> = Vec::new();
    let mut i: usize = 0;
    let len = rest.len();
    while i < len
        invariant
            len == f0.len(),
            i <= len,
            rest@ == f0.subrange(i as int, len as int),
            out@.len() == i,
            forall|k: int| 0 <= k < i ==> plan_matches(f0[k], k as usize, access, inherited, #[trigger] out@[k]),
            cx.errors@ == fields_errors(f0, inherited, old(cx).errors@, i as nat),
        decreases len - i,
    {
        let decl = rest.remove(0);
        let plan = process_field(cx, access, decl, i, inherited);
        out.push(plan);
        i += 1;
        proof {
            assert(rest@ =~= f0.subrange(i as int, len as int));
        }
    }
    out
}

/// A generic parameter of the declaration, by its place in the list.
#[derive(PartialEq, Eq, Structural, Clone, Copy, Debug)]
pub struct GenericParam {
    pub id: usize,
    pub is_lifetime: bool,
}

/// A generic argument of the borrowed type that `borrow` returns.
#[derive(PartialEq, Eq, Structural, Clone, Copy, Debug)]
pub enum TargetArg {
    /// The lifetime of the borrow of `self`.
    This,
    /// The parameter with this id, unchanged.
    Param(usize),
}

/// The parameters of `s` that are not lifetimes, in order.
pub open spec fn non_lifetimes(s: Seq<GenericParam>) -> Seq<GenericParam>
    decreases s.len(),
{
    if s.len() == 0 {
        s
    } else if s.last().is_lifetime {
        non_lifetimes(s.drop_last())
    } else {
        non_lifetimes(s.drop_last()).push(s.last())
    }
}

pub open spec fn target_arg(p: GenericParam) -> TargetArg {
    if p.is_lifetime {
        TargetArg::This
    } else {
        TargetArg::Param(p.id)
    }
}

/// The generic parameters of the owned declaration: those of the borrowed
/// one without its lifetimes.
pub fn strip_lifetimes(params: &Vec<GenericParam>) -> (r: Vec<GenericParam>)
    ensures
        r@ == non_lifetimes(params@),
{
    let mut out: Vec<GenericParam> = Vec::new();
    let mut i: usize = 0;
    while i < params.len()
        invariant
            i <= params@.len(),
            out@ == non_lifetimes(params@.subrange(0, i as int)),
        decreases params@.len() - i,
    {
        proof {
            assert(params@.subrange(0, i + 1).drop_last() =~= params@.subrange(0, i as int));
        }
        if !params[i].is_lifetime {
            out.push(params[i]);
        }
        i += 1;
    }
    proof {
        assert(params@.subrange(0, params@.len() as int) =~= params@);
    }
    out
}

/// The arguments of the type that `borrow` returns: every lifetime becomes
/// the lifetime of the borrow of `self`.
pub fn borrow_target(params: &Vec<GenericParam>) -> (r: Vec<TargetArg>)
    ensures
        r@.len() == params@.len(),
        forall|i: int| 0 <= i < r@.len() ==> #[trigger] r@[i] == target_arg(params@[i]),
{
    let mut out: Vec<TargetArg> = Vec::new();
    let mut i: usize = 0;
    while i < params.len()
        invariant
            i <= params@.len(),
            out@.len() == i,
            forall|k: int| 0 <= k < i ==> #[trigger] out@[k] == target_arg(params@[k]),
        decreases params@.len() - i,
    {
        let p = params[i];
        out.push(if p.is_lifetime { TargetArg::This } else { TargetArg::Param(p.id) });
        i += 1;
    }
    out
}

/// A variant of the annotated enum.
pub struct VariantDecl {
    pub ident: String,
    pub attrs: Vec<Attribute>,
    pub fields: Vec<FieldDecl>,
}

/// What the annotated declaration is.
pub enum DeclBody {
    Struct(Vec<FieldDecl>),
    Enum(Vec<VariantDecl>),
    /// Any other item, and where it stands.
    Other(u64),
}

/// The annotated declaration.
pub struct Decl {
    pub ident: String,
    pub attrs: Vec<Attribute>,
    pub generics: Vec<GenericParam>,
    pub body: DeclBody,
}

/// What the expansion makes of one variant.
pub struct VariantPlan {
    pub ident: String,
    /// The variant's attributes without those of this tool.
    pub attrs: Vec<Attribute>,
    pub forward: Attributes,
    /// The pattern that binds each field, in order.
    pub patterns: Vec<Pattern>,
    pub fields: Vec<FieldPlan>,
}

pub enum BodyPlan {
    Struct(Vec<FieldPlan>),
    Enum(Vec<VariantPlan>),
}

/// Both declarations and both conversions, ready to be written out.
pub struct Expansion {
    pub borrowed_ident: String,
    pub owned_ident: String,
    /// The declaration's attributes without those of this tool.
    pub attrs: Vec<Attribute>,
    pub forward: Attributes,
    pub owned_generics: Vec<GenericParam>,
    pub target_args: Vec<TargetArg>,
    pub body: BodyPlan,
    /// Some field is borrowed mutably, so the mutable conversion is planned too.
    pub mutable: bool,
}

/// Some field of the list is borrowed mutably.
pub open spec fn plans_mut(ps: Seq<FieldPlan>) -> bool {
    exists|i: int| 0 <= i < ps.len() && (#[trigger] ps[i]).is_mut
}

/// Some field of some variant is borrowed mutably.
pub open spec fn variants_mut(vs: Seq<VariantPlan>) -> bool {
    exists|i: int| 0 <= i < vs.len() && plans_mut((#[trigger] vs[i]).fields@)
}

fn any_mut(ps: &Vec<FieldPlan>) -> (r: bool)
    ensures
        r == plans_mut(ps@),
{
    let mut i: usize = 0;
    while i < ps.len()
        invariant
            i <= ps@.len(),
            forall|k: int| 0 <= k < i ==> !(#[trigger] ps@[k]).is_mut,
        decreases ps@.len() - i,
    {
        if ps[i].is_mut {
            return true;
        }
        i += 1;
    }
    false
}

fn any_variant_mut(vs: &Vec<VariantPlan>) -> (r: bool)
    ensures
        r == variants_mut(vs@),
{
    let mut i: usize = 0;
    while i < vs.len()
        invariant
            i <= vs@.len(),
            forall|k: int| 0 <= k < i ==> !plans_mut((#[trigger] vs@[k]).fields@),
        decreases vs@.len() - i,
    {
        if any_mut(&vs[i].fields) {
            return true;
        }
        i += 1;
    }
    false
}


pub open spec fn inherit(
    own: Option<(u64, FieldTypeKind)>,
    outer: Option<(u64, FieldTypeKind)>,
) -> Option<(u64, FieldTypeKind)> {
    if own is Some {
        own
    } else {
        outer
    }
}

/// The errors after processing a variant, starting from `errors`.
pub open spec fn variant_errors(
    v: VariantDecl,
    outer: Option<(u64, FieldTypeKind)>,
    errors: Seq<Diagnostic>,
) -> Seq<Diagnostic> {
    let st = resolved(v.attrs@, Level::Variant, errors);
    let st0 = resolved(v.attrs@, Level::Variant, seq![]);
    fields_errors(v.fields@, inherit(st0.kind, outer), st.errors, v.fields@.len())
}

/// The errors after processing the first `n` variants, starting from `errors`.
pub open spec fn variants_errors(
    vs: Seq<VariantDecl>,
    outer: Option<(u64, FieldTypeKind)>,
    errors: Seq<Diagnostic>,
    n: nat,
) -> Seq<Diagnostic>
    decreases n,
{
    if n == 0 || n > vs.len() {
        errors
    } else {
        variant_errors(vs[n - 1], outer, variants_errors(vs, outer, errors, (n - 1) as nat))
    }
}

pub open spec fn pattern_of(ident: Option<String>, index: usize) -> Pattern {
    Pattern {
        member: member_of(binding_of(ident, index)),
        variable: variable_of(binding_of(ident, index)),
    }
}

/// `plan` is what variant `v` becomes, with `outer` the container's kind.
pub open spec fn variant_matches(
    v: VariantDecl,
    outer: Option<(u64, FieldTypeKind)>,
    plan: VariantPlan,
) -> bool {
    let st = resolved(v.attrs@, Level::Variant, seq![]);
    let kind = inherit(st.kind, outer);
    &&& plan.ident == v.ident
    &&& plan.attrs@ == stripped(v.attrs@)
    &&& plan.forward.own@ == st.own
    &&& plan.forward.borrow@ == st.lend
    &&& plan.patterns@.len() == v.fields@.len()
    &&& forall|i: int| 0 <= i < v.fields@.len() ==> #[trigger] plan.patterns@[i] == pattern_of(v.fields@[i].ident, i as usize)
    &&& plan.fields@.len() == v.fields@.len()
    &&& forall|i: int|
        0 <= i < v.fields@.len() ==> plan_matches(
            v.fields@[i],
            i as usize,
            Access::BindingAccess,
            kind,
            #[trigger] plan.fields@[i],
        )
}

fn patterns(fields: &Vec<FieldDecl>) -> (r: Vec<Pattern>)
    ensures
        r@.len() == fields@.len(),
        forall|i: int| 0 <= i < fields@.len() ==> #[trigger] r@[i] == pattern_of(fields@[i].ident, i as usize),
{
    let mut out: Vec<Pattern> = Vec::new();
    let mut i: usize = 0;
    while i < fields.len()
        invariant
            i <= fields@.len(),
            out@.len() == i,
            forall|k: int| 0 <= k < i ==> #[trigger] out@[k] == pattern_of(fields@[k].ident, k as usize),
        decreases fields@.len() - i,
    {
        let binding = match &fields[i].ident {
            Some(id) => Binding::Named(id.clone()),
            None => Binding::Unnamed(i),
        };
        out.push(binding.as_field_value());
        i += 1;
    }
    out
}

/// Processes one variant of an enum: its options, then its fields as bound
/// by the match arm.
pub fn process_variant(cx: &mut Ctxt, v: VariantDecl, container: &Container) -> (r: VariantPlan)
    ensures
        final(cx).errors@ == variant_errors(v, container.kind, old(cx).errors@),
        variant_matches(v, container.kind, r),
{
    let ghost v0 = v;
    let VariantDecl { ident, attrs, fields } = v;
    let attr = variant(cx, &attrs, container);
    proof {
        lemma_options_ignore_errors(old(cx).errors@, crate::attr::directives(attrs@, Level::Variant, attrs@.len()));
    }
    let kept = strip(attrs);
    let pats = patterns(&fields);
    let plans = process_fields(cx, Access::BindingAccess, fields, attr.kind);
    VariantPlan { ident, attrs: kept, forward: attr.attributes, patterns: pats, fields: plans }
}

/// The options of a container: those given to the macro, then those among
/// its attributes.
pub open spec fn container_options(
    args: Seq<Attribute>,
    attrs: Seq<Attribute>,
    errors: Seq<Diagnostic>,
) -> State {
    crate::attr::run(
        crate::attr::initial(errors),
        crate::attr::directives(args, Level::Container, args.len()) + crate::attr::directives(
            attrs,
            Level::Container,
            attrs.len(),
        ),
    )
}

/// The name of the owned declaration.
pub open spec fn owned_name(st: State, ident: Seq<char>) -> Seq<char> {
    match st.name {
        Some((_, id)) => id@,
        None => "Owned"@ + ident,
    }
}

/// `x` is the plan of `decl` expanded with the macro arguments `args`.
pub open spec fn expansion_matches(args: Seq<Attribute>, decl: Decl, x: Expansion) -> bool {
    let st0 = container_options(args, decl.attrs@, seq![]);
    &&& x.borrowed_ident == decl.ident
    &&& x.owned_ident@ == owned_name(st0, decl.ident@)
    &&& x.attrs@ == stripped(decl.attrs@)
    &&& x.forward.own@ == st0.own
    &&& x.forward.borrow@ == st0.lend
    &&& x.owned_generics@ == non_lifetimes(decl.generics@)
    &&& x.target_args@.len() == decl.generics@.len()
    &&& forall|i: int|
        0 <= i < decl.generics@.len() ==> #[trigger] x.target_args@[i] == target_arg(
            decl.generics@[i],
        )
    &&& match (decl.body, x.body) {
        (DeclBody::Struct(fs), BodyPlan::Struct(ps)) => {
            &&& ps@.len() == fs@.len()
            &&& forall|i: int|
                0 <= i < fs@.len() ==> plan_matches(
                    fs@[i],
                    i as usize,
                    Access::SelfAccess,
                    st0.kind,
                    #[trigger] ps@[i],
                )
            &&& x.mutable == plans_mut(ps@)
        },
        (DeclBody::Enum(vs), BodyPlan::Enum(ps)) => {
            &&& ps@.len() == vs@.len()
            &&& forall|i: int|
                0 <= i < vs@.len() ==> variant_matches(vs@[i], st0.kind, #[trigger] ps@[i])
            &&& x.mutable == variants_mut(ps@)
        },
        _ => false,
    }
}

/// The errors after expanding `decl`, starting from `errors`.
pub open spec fn expansion_errors(args: Seq<Attribute>, decl: Decl, errors: Seq<Diagnostic>) -> Seq<
    Diagnostic,
> {
    let st = container_options(args, decl.attrs@, errors);
    let st0 = container_options(args, decl.attrs@, seq![]);
    match decl.body {
        DeclBody::Struct(fs) => fields_errors(fs@, st0.kind, st.errors, fs@.len()),
        DeclBody::Enum(vs) => variants_errors(vs@, st0.kind, st.errors, vs@.len()),
        DeclBody::Other(loc) => errors.push(
            Diagnostic { loc, problem: Problem::NotStructOrEnum },
        ),
    }
}

/// Expands an annotated struct or enum into the plan of its owned twin and
/// of both conversions. Anything else is refused with a single error.
pub fn implement(cx: &mut Ctxt, args: &Vec<Attribute>, decl: Decl) -> (r: Option<Expansion>)
    ensures
        r is Some <==> !(decl.body is Other),
        r is Some ==> expansion_matches(args@, decl, r->Some_0),
        final(cx).errors@ == expansion_errors(args@, decl, old(cx).errors@),
{
    let ghost e0 = old(cx).errors@;
    let Decl { ident, attrs, generics, body } = decl;
    if let DeclBody::Other(loc) = body {
        cx.span_error(loc, Problem::NotStructOrEnum);
        return None;
    }
    let c = container(cx, args, &attrs);
    proof {
        lemma_options_ignore_errors(
            e0,
            crate::attr::directives(args@, Level::Container, args@.len()) + crate::attr::directives(
                attrs@,
                Level::Container,
                attrs@.len(),
            ),
        );
    }
    let owned_ident = c.owned_ident(&ident);
    let kept = strip(attrs);
    let owned_generics = strip_lifetimes(&generics);
    let target_args = borrow_target(&generics);
    let mut mutable = false;
    let body = match body {
        DeclBody::Struct(fields) => {
            let plans = process_fields(cx, Access::SelfAccess, fields, c.kind);
            mutable = any_mut(&plans);
            BodyPlan::Struct(plans)
        },
        DeclBody::Enum(variants) => {
            let ghost vs0 = variants@;
            let ghost e1 = cx.errors@;
            let mut rest = variants;
            let mut out: Vec<VariantPlan> = Vec::new();
            let mut i: usize = 0;
            let len = rest.len();
            while i < len
                invariant
                    len == vs0.len(),
                    i <= len,
                    rest@ == vs0.subrange(i as int, len as int),
                    out@.len() == i,
                    forall|k: int| 0 <= k < i ==> variant_matches(vs0[k], c.kind, #[trigger] out@[k]),
                    cx.errors@ == variants_errors(vs0, c.kind, e1, i as nat),
                decreases len - i,
            {
                let v = rest.remove(0);
                let plan = process_variant(cx, v, &c);
                out.push(plan);
                i += 1;
                proof {
                    assert(rest@ =~= vs0.subrange(i as int, len as int));
                }
            }
            mutable = any_variant_mut(&out);
            BodyPlan::Enum(out)
        },
        DeclBody::Other(_) => vstd::pervasive::unreached(),
    };
    let c_attrs = c.attributes;
    Some(Expansion {
        borrowed_ident: ident,
        owned_ident,
        attrs: kept,
        forward: c_attrs,
        owned_generics,
        target_args,
        body,
        mutable,
    })
}


/// The shapes of call pairs that undo each other: a copy both ways, a clone
/// out and a reference back, or `ToOwned::to_owned` out and `Borrow::borrow`
/// back, whose `owns` and `lends` relate both to the same contents.
pub open spec fn inverse_pair(to_owned: Call, borrow: Call) -> bool {
    ||| to_owned == Call::Ref && borrow == Call::Ref
    ||| to_owned == Call::Path(Callee::Clone) && borrow == Call::Ref
    ||| to_owned == Call::Path(Callee::ToOwned) && borrow == Call::Path(Callee::Borrow)
}

/// The planned round trip of a field that names no conversion functions of
/// its own: a copied field is copied both ways, `std` on a reference clones
/// out and references back, and every other field goes out through
/// `ToOwned::to_owned` and back through `Borrow::borrow`, applied to the
/// same field in both directions.
pub proof fn conversions_round_trip(
    decl: FieldDecl,
    index: usize,
    access: Access,
    inherited: Option<(u64, FieldTypeKind)>,
    plan: FieldPlan,
)
    requires
        plan_matches(decl, index, access, inherited, plan),
        field_options(decl).to_owned is None,
        field_options(decl).borrow is None,
    ensures
        ({
            let c = calls_of(plan.strategy, Callee::ToOwned, Callee::Borrow);
            let bound = BoundAccess {
                copy: plan.strategy == Strategy::Copy,
                mutable: false,
                access,
                binding: binding_of(decl.ident, index),
            };
            &&& inverse_pair(c.0, c.1)
            &&& plan.strategy == Strategy::Copy ==> c == (Call::Ref, Call::Ref)
            &&& plan.strategy == Strategy::StdReference ==> c == (Call::Path(Callee::Clone), Call::Ref)
            &&& (plan.strategy == Strategy::Owned || plan.strategy == Strategy::Projection) ==> c == (
                Call::Path(Callee::ToOwned),
                Call::Path(Callee::Borrow),
            )
            &&& plan.to_owned.expr == call_expr(c.0, bound)
            &&& plan.borrow.expr == call_expr(c.1, bound)
        }),
{
}

/// The copy errors hold one pair per lifetime, in order: the error at the
/// lifetime, then the hint at the field.
proof fn lemma_copy_errors_shape(lts: Seq<LifetimeUse>, loc: u64)
    ensures
        copy_errors(lts, loc).len() == 2 * lts.len(),
        forall|i: int|
            0 <= i < lts.len() ==> copy_errors(lts, loc)[2 * i] == (Diagnostic {
                loc: (#[trigger] lts[i]).loc,
                problem: lifetime_problem(lts[i]),
            }) && copy_errors(lts, loc)[2 * i + 1] == (Diagnostic {
                loc,
                problem: Problem::OwnedTypeHint,
            }),
    decreases lts.len(),
{
    if lts.len() > 0 {
        lemma_copy_errors_shape(lts.drop_last(), loc);
        assert forall|i: int| 0 <= i < lts.len() - 1 implies lts.drop_last()[i] == #[trigger] lts[i] by {}
    }
}

/// A field marked copy whose type holds lifetimes tied to the container
/// always fails, wherever it stands among the fields: after the errors of
/// its attributes come exactly one error at each such lifetime, in order,
/// each followed by the hint to name the owned type.
pub proof fn copy_field_with_lifetime_fails(
    decl: FieldDecl,
    inherited: Option<(u64, FieldTypeKind)>,
    errors: Seq<Diagnostic>,
)
    requires
        effective_kind(field_options(decl).kind, inherited) == FieldTypeKind::Copy(true),
        lifetimes_of(decl.ty, no_names()).len() > 0,
    ensures
        ({
            let st = resolved(decl.attrs@, Level::Field, errors);
            let lts = lifetimes_of(decl.ty, no_names());
            let fe = field_errors(decl, inherited, errors);
            let k = st.errors.len();
            &&& k >= errors.len()
            &&& fe.len() == k + 2 * lts.len()
            &&& fe.len() > errors.len()
            &&& fe.subrange(0, k as int) == st.errors
            &&& forall|i: int|
                0 <= i < lts.len() ==> fe[k + 2 * i] == (Diagnostic {
                    loc: (#[trigger] lts[i]).loc,
                    problem: lifetime_problem(lts[i]),
                }) && fe[k + 2 * i + 1] == (Diagnostic {
                    loc: decl.loc,
                    problem: Problem::OwnedTypeHint,
                })
        }),
{
    lemma_options_ignore_errors(errors, crate::attr::directives(decl.attrs@, Level::Field, decl.attrs@.len()));
    lemma_resolve_extends(errors, crate::attr::directives(decl.attrs@, Level::Field, decl.attrs@.len()));
    let st = resolved(decl.attrs@, Level::Field, errors);
    let lts = lifetimes_of(decl.ty, no_names());
    let ce = copy_errors(lts, decl.loc);
    lemma_copy_errors_shape(lts, decl.loc);
    let fe = field_errors(decl, inherited, errors);
    assert(fe == st.errors + ce);
    assert(fe.subrange(0, st.errors.len() as int) =~= st.errors);
    assert forall|i: int| 0 <= i < lts.len() implies fe[st.errors.len() + 2 * i] == (Diagnostic {
        loc: (#[trigger] lts[i]).loc,
        problem: lifetime_problem(lts[i]),
    }) && fe[st.errors.len() + 2 * i + 1] == (Diagnostic {
        loc: decl.loc,
        problem: Problem::OwnedTypeHint,
    }) by {
        assert(fe[st.errors.len() + 2 * i] == ce[2 * i]);
        assert(fe[st.errors.len() + 2 * i + 1] == ce[2 * i + 1]);
    }
}

/// Reading options only adds errors.
proof fn lemma_resolve_extends(e: Seq<Diagnostic>, ds: Seq<crate::attr::Directive>)
    ensures
        crate::attr::run(crate::attr::initial(e), ds).errors.len() >= e.len(),
    decreases ds.len(),
{
    if ds.len() > 0 {
        lemma_resolve_extends(e, ds.drop_last());
    }
}

/// Expands a declaration: the plan when no error was found, else every
/// error found.
pub fn expand(args: &Vec<Attribute>, decl: Decl) -> (r: Result<Expansion, Vec<Diagnostic>>)
    ensures
        r is Ok <==> !(decl.body is Other) && expansion_errors(args@, decl, seq![]).len() == 0,
        r is Ok ==> expansion_matches(args@, decl, r->Ok_0),
        r is Err ==> r->Err_0@ == expansion_errors(args@, decl, seq![]) && r->Err_0@.len() > 0,
{
    let mut cx = Ctxt::new();
    let ghost d0 = decl;
    let out = implement(&mut cx, args, decl);
    match out {
        Some(x) => if cx.has_errors() {
            Err(cx.into_errors())
        } else {
            Ok(x)
        },
        None => {
            Err(cx.into_errors())
        },
    }
}

} // verus!
