//! Field types and their classification: which lifetimes tie a type to its
//! container, whether its shape reads as `Copy`, and the same type with those
//! lifetimes made static.
use vstd::prelude::*;
use vstd::string::*;

verus! {

broadcast use vstd::std_specs::vec::group_vec_axioms;

/// A lifetime as written in a type, without its leading quote.
pub struct Lifetime {
    pub name: String,
    pub loc: u64,
}

/// A field type, reduced to the shapes that classification looks into.
/// Parts that are never inspected are carried as source text.
pub enum Ty {
    /// `[elem; len]`
    Array { elem: Box<Ty>, len: String },
    /// `for<'a, ..> fn(inputs) output`
    BareFn { lifetimes: Vec<String>, inputs: Vec<Ty>, rest: String },
    /// An invisible group around a type.
    Group(Box<Ty>),
    /// `&'lt mut elem`; `loc` is where the lifetime, or else the `&`, stands.
    Reference { lifetime: Option<Lifetime>, mutable: bool, elem: Box<Ty>, loc: u64 },
    /// `[elem]`
    Slice(Box<Ty>),
    /// `(a, b, ..)`
    Tuple(Vec<Ty>),
    /// `a::b<..>::c(..)`
    Path { leading_colon: bool, segments: Vec<Segment> },
    /// Any other type, as source text.
    Other(String),
}

pub struct Segment {
    pub ident: String,
    pub args: PathArgs,
}

pub enum PathArgs {
    Plain,
    /// `<a, b>`
    Angle(Vec<GenericArg>),
    /// `(inputs) output`
    Paren { inputs: Vec<Ty>, output: String },
}

pub enum GenericArg {
    Lifetime(Lifetime),
    Type(Ty),
    /// Constants, bindings and constraints, as source text.
    Other(String),
}

/// What the shape of a type suggests about it being `Copy`.
#[derive(PartialEq, Eq, Structural, Clone, Copy, Debug)]
pub enum TypeHint {
    /// Nothing can be said from the shape alone.
    Unknown,
    Copy,
}

impl TypeHint {
    /// Combines two hints: copy only if both are.
    pub fn combine(&mut self, other: TypeHint)
        ensures
            *final(self) == (if *old(self) == TypeHint::Copy && other == TypeHint::Copy {
                TypeHint::Copy
            } else {
                TypeHint::Unknown
            }),
    {
        *self = match (*self, other) {
            (TypeHint::Copy, TypeHint::Copy) => TypeHint::Copy,
            _ => TypeHint::Unknown,
        };
    }
}

/// A lifetime found in a type that ties the field to the container: where it
/// stands and, unless the reference is anonymous, its name.
pub struct LifetimeUse {
    pub loc: u64,
    pub name: Option<String>,
}

pub open spec fn is_static(name: Seq<char>) -> bool {
    name == "static"@
}

pub open spec fn is_bound_in(ignore: Seq<String>, name: Seq<char>) -> bool {
    exists|i: int| 0 <= i < ignore.len() && (#[trigger] ignore[i])@ == name
}

/// Names of the primitive types that are taken to be `Copy`.
pub open spec fn is_primitive(name: Seq<char>) -> bool {
    ||| name == "u8"@ ||| name == "u16"@ ||| name == "u32"@ ||| name == "u64"@
    ||| name == "u128"@ ||| name == "usize"@
    ||| name == "i8"@ ||| name == "i16"@ ||| name == "i32"@ ||| name == "i64"@
    ||| name == "i128"@ ||| name == "isize"@
    ||| name == "f32"@ ||| name == "f64"@ ||| name == "bool"@
}

/// A reference whose lifetime does not tie it to the container.
pub open spec fn is_free_reference(lifetime: Option<Lifetime>, ignore: Seq<String>) -> bool {
    match lifetime {
        Some(lt) => is_bound_in(ignore, lt.name@) || is_static(lt.name@),
        None => false,
    }
}

/// The path is a single identifier with no arguments, and that identifier.
pub open spec fn single_ident(leading_colon: bool, segments: Seq<Segment>) -> Option<Seq<char>> {
    if !leading_colon && segments.len() == 1 && segments[0].args is Plain {
        Some(segments[0].ident@)
    } else {
        None
    }
}

pub open spec fn all_copy(s: Seq<Ty>, ignore: Seq<String>, n: nat) -> bool
    decreases s, n,
{
    if n == 0 || n > s.len() {
        true
    } else {
        hint_of(s[n - 1], ignore) == TypeHint::Copy && all_copy(s, ignore, (n - 1) as nat)
    }
}

/// The copy hint of a type, with the lifetimes in `ignore` bound by an
/// enclosing function type.
pub open spec fn hint_of(t: Ty, ignore: Seq<String>) -> TypeHint
    decreases t, 0nat,
{
    match t {
        Ty::Array { elem, .. } => hint_of(*elem, ignore),
        Ty::BareFn { .. } => TypeHint::Copy,
        Ty::Group(elem) => hint_of(*elem, ignore),
        Ty::Reference { lifetime, .. } => if is_free_reference(lifetime, ignore) {
            TypeHint::Copy
        } else {
            TypeHint::Unknown
        },
        Ty::Tuple(elems) => if all_copy(elems@, ignore, elems@.len()) {
            TypeHint::Copy
        } else {
            TypeHint::Unknown
        },
        Ty::Path { leading_colon, segments } => match single_ident(leading_colon, segments@) {
            Some(name) => if is_primitive(name) {
                TypeHint::Copy
            } else {
                TypeHint::Unknown
            },
            None => TypeHint::Unknown,
        },
        _ => TypeHint::Unknown,
    }
}

/// The type is a reference that ties it to the container, seen through groups.
pub open spec fn is_bound_reference(t: Ty, ignore: Seq<String>) -> bool
    decreases t,
{
    match t {
        Ty::Group(elem) => is_bound_reference(*elem, ignore),
        Ty::Reference { lifetime, .. } => !is_free_reference(lifetime, ignore),
        _ => false,
    }
}


pub open spec fn bound_use(lifetime: Option<Lifetime>, loc: u64) -> LifetimeUse {
    LifetimeUse {
        loc,
        name: match lifetime {
            Some(lt) => Some(lt.name),
            None => None,
        },
    }
}

/// The lifetimes of the first `n` types of `s`, in order.
pub open spec fn lifetimes_all(s: Seq<Ty>, ignore: Seq<String>, n: nat) -> Seq<LifetimeUse>
    decreases s, n,
{
    if n == 0 || n > s.len() {
        seq![]
    } else {
        lifetimes_all(s, ignore, (n - 1) as nat) + lifetimes_of(s[n - 1], ignore)
    }
}

/// The lifetimes of the first `n` generic arguments of `s`; static lifetimes
/// are left out.
pub open spec fn lifetimes_args(s: Seq<GenericArg>, ignore: Seq<String>, n: nat) -> Seq<
    LifetimeUse,
>
    decreases s, n,
{
    if n == 0 || n > s.len() {
        seq![]
    } else {
        lifetimes_args(s, ignore, (n - 1) as nat) + match s[n - 1] {
            GenericArg::Lifetime(lt) => if is_static(lt.name@) {
                seq![]
            } else {
                seq![LifetimeUse { loc: lt.loc, name: Some(lt.name) }]
            },
            GenericArg::Type(t) => lifetimes_of(t, ignore),
            GenericArg::Other(_) => seq![],
        }
    }
}

/// The lifetimes in the arguments of the first `n` path segments of `s`.
pub open spec fn lifetimes_segments(s: Seq<Segment>, ignore: Seq<String>, n: nat) -> Seq<
    LifetimeUse,
>
    decreases s, n,
{
    if n == 0 || n > s.len() {
        seq![]
    } else {
        lifetimes_segments(s, ignore, (n - 1) as nat) + match s[n - 1].args {
            PathArgs::Plain => seq![],
            PathArgs::Angle(args) => lifetimes_args(args@, ignore, args@.len()),
            PathArgs::Paren { inputs, .. } => lifetimes_all(inputs@, ignore, inputs@.len()),
        }
    }
}

/// The lifetimes of a type that tie it to the container, in the order they
/// are written. A reference that is free of the container is not looked into.
pub open spec fn lifetimes_of(t: Ty, ignore: Seq<String>) -> Seq<LifetimeUse>
    decreases t, 0nat,
{
    match t {
        Ty::Array { elem, .. } => lifetimes_of(*elem, ignore),
        Ty::BareFn { lifetimes, inputs, .. } => lifetimes_all(
            inputs@,
            ignore + lifetimes@,
            inputs@.len(),
        ),
        Ty::Group(elem) => lifetimes_of(*elem, ignore),
        Ty::Reference { lifetime, loc, .. } => if is_free_reference(lifetime, ignore) {
            seq![]
        } else {
            seq![bound_use(lifetime, loc)]
        },
        Ty::Slice(elem) => lifetimes_of(*elem, ignore),
        Ty::Tuple(elems) => lifetimes_all(elems@, ignore, elems@.len()),
        Ty::Path { leading_colon, segments } => match single_ident(leading_colon, segments@) {
            Some(name) => if is_primitive(name) {
                seq![]
            } else {
                lifetimes_segments(segments@, ignore, segments@.len())
            },
            None => lifetimes_segments(segments@, ignore, segments@.len()),
        },
        Ty::Other(_) => seq![],
    }
}

pub open spec fn is_static_at(lt: Lifetime, loc: u64) -> bool {
    lt.loc == loc && is_static(lt.name@)
}

/// The first `n` types of `b` are those of `a`, sanitized.
pub open spec fn sanitized_all(a: Seq<Ty>, b: Seq<Ty>, ignore: Seq<String>, n: nat) -> bool
    decreases a, n,
{
    if n == 0 || n > a.len() {
        true
    } else {
        n <= b.len() && sanitized(a[n - 1], b[n - 1], ignore) && sanitized_all(
            a,
            b,
            ignore,
            (n - 1) as nat,
        )
    }
}

/// The first `n` generic arguments of `b` are those of `a`, sanitized: each
/// lifetime made static where it was not already.
pub open spec fn sanitized_args(
    a: Seq<GenericArg>,
    b: Seq<GenericArg>,
    ignore: Seq<String>,
    n: nat,
) -> bool
    decreases a, n,
{
    if n == 0 || n > a.len() {
        true
    } else {
        &&& n <= b.len()
        &&& sanitized_args(a, b, ignore, (n - 1) as nat)
        &&& match (a[n - 1], b[n - 1]) {
            (GenericArg::Lifetime(x), GenericArg::Lifetime(y)) => if is_static(x.name@) {
                y == x
            } else {
                is_static_at(y, x.loc)
            },
            (GenericArg::Type(x), GenericArg::Type(y)) => sanitized(x, y, ignore),
            (GenericArg::Other(x), GenericArg::Other(y)) => x == y,
            _ => false,
        }
    }
}

/// The first `n` path segments of `b` are those of `a`, sanitized.
pub open spec fn sanitized_segments(
    a: Seq<Segment>,
    b: Seq<Segment>,
    ignore: Seq<String>,
    n: nat,
) -> bool
    decreases a, n,
{
    if n == 0 || n > a.len() {
        true
    } else {
        &&& n <= b.len()
        &&& sanitized_segments(a, b, ignore, (n - 1) as nat)
        &&& b[n - 1].ident == a[n - 1].ident
        &&& match (a[n - 1].args, b[n - 1].args) {
            (PathArgs::Plain, PathArgs::Plain) => true,
            (PathArgs::Angle(x), PathArgs::Angle(y)) => x@.len() == y@.len() && sanitized_args(
                x@,
                y@,
                ignore,
                x@.len(),
            ),
            (
                PathArgs::Paren { inputs: x, output: ox },
                PathArgs::Paren { inputs: y, output: oy },
            ) => ox == oy && x@.len() == y@.len() && sanitized_all(x@, y@, ignore, x@.len()),
            _ => false,
        }
    }
}

/// `b` is `a` with every lifetime that `lifetimes_of` reports made static,
/// at the same place, so that `a`'s owned type can be named.
pub open spec fn sanitized(a: Ty, b: Ty, ignore: Seq<String>) -> bool
    decreases a, 0nat,
{
    match (a, b) {
        (Ty::Array { elem: x, len: lx }, Ty::Array { elem: y, len: ly }) => lx == ly && sanitized(
            *x,
            *y,
            ignore,
        ),
        (
            Ty::BareFn { lifetimes: lx, inputs: x, rest: rx },
            Ty::BareFn { lifetimes: ly, inputs: y, rest: ry },
        ) => lx == ly && rx == ry && x@.len() == y@.len() && sanitized_all(
            x@,
            y@,
            ignore + lx@,
            x@.len(),
        ),
        (Ty::Group(x), Ty::Group(y)) => sanitized(*x, *y, ignore),
        (
            Ty::Reference { lifetime: lx, mutable: mx, elem: x, loc: px },
            Ty::Reference { lifetime: ly, mutable: my, elem: y, loc: py },
        ) => if is_free_reference(lx, ignore) {
            b == a
        } else {
            &&& mx == my
            &&& y == x
            &&& py == px
            &&& ly is Some && is_static_at(ly->Some_0, px)
        },
        (Ty::Slice(x), Ty::Slice(y)) => sanitized(*x, *y, ignore),
        (Ty::Tuple(x), Ty::Tuple(y)) => x@.len() == y@.len() && sanitized_all(
            x@,
            y@,
            ignore,
            x@.len(),
        ),
        (Ty::Path { leading_colon: cx, segments: x }, Ty::Path { leading_colon: cy, segments: y }) => {
            &&& cx == cy
            &&& x@.len() == y@.len()
            &&& match single_ident(cx, x@) {
                Some(name) => if is_primitive(name) {
                    b == a
                } else {
                    sanitized_segments(x@, y@, ignore, x@.len())
                },
                None => sanitized_segments(x@, y@, ignore, x@.len()),
            }
        },
        (Ty::Other(x), Ty::Other(y)) => x == y,
        _ => false,
    }
}


/// The result of walking a field type.
pub struct Walked {
    /// What the shape says about the type being `Copy`.
    pub hint: TypeHint,
    /// The type is a reference tied to the container.
    pub reference: bool,
    /// The type with its container lifetimes made static.
    pub ty: Ty,
}

/// Tells whether `s` is the text `lit`.
pub fn ident_is(s: &String, lit: &str) -> (r: bool)
    ensures
        r == (s@ == lit@),
{
    let l = String::from_str(lit);
    *s == l
}

fn is_static_name(s: &String) -> (r: bool)
    ensures
        r == is_static(s@),
{
    ident_is(s, "static")
}

fn is_primitive_name(s: &String) -> (r: bool)
    ensures
        r == is_primitive(s@),
{
    ident_is(s, "u8") || ident_is(s, "u16") || ident_is(s, "u32") || ident_is(s, "u64")
        || ident_is(s, "u128") || ident_is(s, "usize") || ident_is(s, "i8") || ident_is(s, "i16")
        || ident_is(s, "i32") || ident_is(s, "i64") || ident_is(s, "i128") || ident_is(s, "isize")
        || ident_is(s, "f32") || ident_is(s, "f64") || ident_is(s, "bool")
}

fn contains_name(ignore: &Vec<String>, name: &String) -> (r: bool)
    ensures
        r == is_bound_in(ignore@, name@),
{
    let mut i: usize = 0;
    while i < ignore.len()
        invariant
            i <= ignore@.len(),
            forall|j: int| 0 <= j < i ==> (#[trigger] ignore@[j])@ != name@,
        decreases ignore@.len() - i,
    {
        if ident_is(&ignore[i], name.as_str()) {
            return true;
        }
        i += 1;
    }
    false
}

fn static_lifetime(loc: u64) -> (r: Lifetime)
    ensures
        is_static_at(r, loc),
{
    Lifetime { name: String::from_str("static"), loc }
}

/// Walks a field type: finds the lifetimes that tie it to the container
/// (appended to `out`), what its shape says about it being `Copy`, and the
/// type with those lifetimes made static.
pub fn process_type(ty: Ty, ignore: &Vec<String>, out: &mut Vec<LifetimeUse>) -> (r: Walked)
    ensures
        r.hint == hint_of(ty, ignore@),
        r.reference == is_bound_reference(ty, ignore@),
        sanitized(ty, r.ty, ignore@),
        final(out)@ == old(out)@ + lifetimes_of(ty, ignore@),
    decreases ty, 0nat,
{
    let ghost t0 = ty;
    match ty {
        Ty::Array { elem, len } => {
            let w = process_type(*elem, ignore, out);
            Walked { hint: w.hint, reference: false, ty: Ty::Array { elem: Box::new(w.ty), len } }
        },
        Ty::BareFn { lifetimes, inputs, rest } => {
            let mut bound: Vec<String> = Vec::new();
            let mut i: usize = 0;
            while i < ignore.len()
                invariant
                    i <= ignore@.len(),
                    bound@ == ignore@.subrange(0, i as int),
                decreases ignore@.len() - i,
            {
                bound.push(ignore[i].clone());
                i += 1;
                proof {
                    assert(bound@ =~= ignore@.subrange(0, i as int));
                }
            }
            let mut j: usize = 0;
            while j < lifetimes.len()
                invariant
                    j <= lifetimes@.len(),
                    bound@ == ignore@ + lifetimes@.subrange(0, j as int),
                decreases lifetimes@.len() - j,
            {
                bound.push(lifetimes[j].clone());
                j += 1;
                proof {
                    assert(bound@ =~= ignore@ + lifetimes@.subrange(0, j as int));
                }
            }
            proof {
                assert(lifetimes@.subrange(0, lifetimes@.len() as int) =~= lifetimes@);
                assert(decreases_to!(t0 => inputs));
            }
            let (_, inputs) = process_all(inputs, &bound, out);
            Walked { hint: TypeHint::Copy, reference: false, ty: Ty::BareFn { lifetimes, inputs, rest } }
        },
        Ty::Group(elem) => {
            let w = process_type(*elem, ignore, out);
            Walked { hint: w.hint, reference: w.reference, ty: Ty::Group(Box::new(w.ty)) }
        },
        Ty::Reference { lifetime, mutable, elem, loc } => {
            let free = match &lifetime {
                Some(lt) => contains_name(ignore, &lt.name) || is_static_name(&lt.name),
                None => false,
            };
            if free {
                return Walked {
                    hint: TypeHint::Copy,
                    reference: false,
                    ty: Ty::Reference { lifetime, mutable, elem, loc },
                };
            }
            let name = match lifetime {
                Some(lt) => Some(lt.name),
                None => None,
            };
            out.push(LifetimeUse { loc, name });
            proof {
                assert(old(out)@ + lifetimes_of(t0, ignore@) =~= final(out)@);
            }
            Walked {
                hint: TypeHint::Unknown,
                reference: true,
                ty: Ty::Reference { lifetime: Some(static_lifetime(loc)), mutable, elem, loc },
            }
        },
        Ty::Slice(elem) => {
            let w = process_type(*elem, ignore, out);
            Walked { hint: TypeHint::Unknown, reference: false, ty: Ty::Slice(Box::new(w.ty)) }
        },
        Ty::Tuple(elems) => {
            proof {
                assert(decreases_to!(t0 => elems));
            }
            let (copy, elems) = process_all(elems, ignore, out);
            let hint = if copy {
                TypeHint::Copy
            } else {
                TypeHint::Unknown
            };
            Walked { hint, reference: false, ty: Ty::Tuple(elems) }
        },
        Ty::Path { leading_colon, segments } => {
            let single = !leading_colon && segments.len() == 1 && match &segments[0].args {
                PathArgs::Plain => true,
                _ => false,
            };
            if single && is_primitive_name(&segments[0].ident) {
                proof {
                    assert(lifetimes_of(t0, ignore@) =~= seq![]);
                    assert(old(out)@ + seq![] =~= old(out)@);
                }
                return Walked {
                    hint: TypeHint::Copy,
                    reference: false,
                    ty: Ty::Path { leading_colon, segments },
                };
            }
            proof {
                assert(decreases_to!(t0 => segments));
            }
            let segments = process_segments(segments, ignore, out);
            Walked { hint: TypeHint::Unknown, reference: false, ty: Ty::Path { leading_colon, segments } }
        },
        Ty::Other(text) => {
            proof {
                assert(old(out)@ + seq![] =~= old(out)@);
            }
            Walked { hint: TypeHint::Unknown, reference: false, ty: Ty::Other(text) }
        },
    }
}

/// Walks each type of a list in order; tells whether all of them read as copy.
fn process_all(v: Vec<Ty>, ignore: &Vec<String>, out: &mut Vec<LifetimeUse>) -> (r: (bool, Vec<Ty>))
    ensures
        r.0 == all_copy(v@, ignore@, v@.len()),
        r.1@.len() == v@.len(),
        sanitized_all(v@, r.1@, ignore@, v@.len()),
        final(out)@ == old(out)@ + lifetimes_all(v@, ignore@, v@.len()),
    decreases v, 0nat,
{
    let ghost v0 = v@;
    let mut rest = v;
    let mut done: Vec<Ty> = Vec::new();
    let mut copy = true;
    let mut i: usize = 0;
    let len = rest.len();
    while i < len
        invariant
            len == v0.len(),
            i <= len,
            rest@ == v0.subrange(i as int, len as int),
            done@.len() == i,
            copy == all_copy(v0, ignore@, i as nat),
            sanitized_all(v0, done@, ignore@, i as nat),
            out@ == old(out)@ + lifetimes_all(v0, ignore@, i as nat),
            decreases_to!(v => v0),
        decreases len - i,
    {
        let t = rest.remove(0);
        proof {
            assert(t == v0[i as int]);
            assert(decreases_to!(v0 => v0[i as int]));
        }
        let w = process_type(t, ignore, out);
        copy = copy && w.hint == TypeHint::Copy;
        let ghost prev = done@;
        done.push(w.ty);
        i += 1;
        proof {
            assert(rest@ =~= v0.subrange(i as int, len as int));
            lemma_sanitized_all_prefix(v0, prev, done@, ignore@, (i - 1) as nat);
        }
    }
    (copy, done)
}


/// Walks the generic arguments of a path segment in order.
fn process_generic_type(
    v: Vec<GenericArg>,
    ignore: &Vec<String>,
    out: &mut Vec<LifetimeUse>,
) -> (r: Vec<GenericArg>)
    ensures
        r@.len() == v@.len(),
        sanitized_args(v@, r@, ignore@, v@.len()),
        final(out)@ == old(out)@ + lifetimes_args(v@, ignore@, v@.len()),
    decreases v, 0nat,
{
    let ghost v0 = v@;
    let mut rest = v;
    let mut done: Vec<GenericArg> = Vec::new();
    let mut i: usize = 0;
    let len = rest.len();
    while i < len
        invariant
            len == v0.len(),
            i <= len,
            rest@ == v0.subrange(i as int, len as int),
            done@.len() == i,
            sanitized_args(v0, done@, ignore@, i as nat),
            out@ == old(out)@ + lifetimes_args(v0, ignore@, i as nat),
            decreases_to!(v => v0),
        decreases len - i,
    {
        let a = rest.remove(0);
        proof {
            assert(a == v0[i as int]);
            assert(decreases_to!(v0 => v0[i as int]));
        }
        let ghost prev = done@;
        let ghost out0 = out@;
        match a {
            GenericArg::Lifetime(lt) => {
                if is_static_name(&lt.name) {
                    done.push(GenericArg::Lifetime(lt));
                    proof {
                        assert(out@ + seq![] =~= out@);
                    }
                } else {
                    out.push(LifetimeUse { loc: lt.loc, name: Some(lt.name) });
                    done.push(GenericArg::Lifetime(static_lifetime(lt.loc)));
                }
            },
            GenericArg::Type(t) => {
                proof {
                    assert(decreases_to!(v0[i as int] => t));
                }
                let w = process_type(t, ignore, out);
                done.push(GenericArg::Type(w.ty));
            },
            GenericArg::Other(text) => {
                done.push(GenericArg::Other(text));
                proof {
                    assert(out@ + seq![] =~= out@);
                }
            },
        }
        i += 1;
        proof {
            assert(rest@ =~= v0.subrange(i as int, len as int));
            lemma_sanitized_args_prefix(v0, prev, done@, ignore@, (i - 1) as nat);
            assert(out@ =~= old(out)@ + lifetimes_args(v0, ignore@, i as nat));
        }
    }
    done
}

/// Walks the arguments of each path segment in order.
fn process_segments(
    v: Vec<Segment>,
    ignore: &Vec<String>,
    out: &mut Vec<LifetimeUse>,
) -> (r: Vec<Segment>)
    ensures
        r@.len() == v@.len(),
        sanitized_segments(v@, r@, ignore@, v@.len()),
        final(out)@ == old(out)@ + lifetimes_segments(v@, ignore@, v@.len()),
    decreases v, 0nat,
{
    let ghost v0 = v@;
    let mut rest = v;
    let mut done: Vec<Segment> = Vec::new();
    let mut i: usize = 0;
    let len = rest.len();
    while i < len
        invariant
            len == v0.len(),
            i <= len,
            rest@ == v0.subrange(i as int, len as int),
            done@.len() == i,
            sanitized_segments(v0, done@, ignore@, i as nat),
            out@ == old(out)@ + lifetimes_segments(v0, ignore@, i as nat),
            decreases_to!(v => v0),
        decreases len - i,
    {
        let seg = rest.remove(0);
        proof {
            assert(seg == v0[i as int]);
            assert(decreases_to!(v0 => v0[i as int]));
        }
        let ghost prev = done@;
        let Segment { ident, args } = seg;
        let args = match args {
            PathArgs::Plain => {
                proof {
                    assert(out@ + seq![] =~= out@);
                }
                PathArgs::Plain
            },
            PathArgs::Angle(a) => {
                proof {
                    assert(decreases_to!(seg => seg.args));
                    assert(decreases_to!(seg.args => a));
                }
                PathArgs::Angle(process_generic_type(a, ignore, out))
            },
            PathArgs::Paren { inputs, output } => {
                proof {
                    assert(decreases_to!(seg => seg.args));
                    assert(decreases_to!(seg.args => inputs));
                }
                let (_, inputs) = process_all(inputs, ignore, out);
                PathArgs::Paren { inputs, output }
            },
        };
        done.push(Segment { ident, args });
        i += 1;
        proof {
            assert(rest@ =~= v0.subrange(i as int, len as int));
            lemma_sanitized_segments_prefix(v0, prev, done@, ignore@, (i - 1) as nat);
        }
    }
    done
}

proof fn lemma_sanitized_all_prefix(a: Seq<Ty>, b: Seq<Ty>, c: Seq<Ty>, ignore: Seq<String>, n: nat)
    requires
        n <= b.len(),
        n <= c.len(),
        forall|k: int| 0 <= k < n ==> b[k] == c[k],
    ensures
        sanitized_all(a, b, ignore, n) == sanitized_all(a, c, ignore, n),
    decreases n,
{
    if n > 0 {
        lemma_sanitized_all_prefix(a, b, c, ignore, (n - 1) as nat);
    }
}

proof fn lemma_sanitized_args_prefix(
    a: Seq<GenericArg>,
    b: Seq<GenericArg>,
    c: Seq<GenericArg>,
    ignore: Seq<String>,
    n: nat,
)
    requires
        n <= b.len(),
        n <= c.len(),
        forall|k: int| 0 <= k < n ==> b[k] == c[k],
    ensures
        sanitized_args(a, b, ignore, n) == sanitized_args(a, c, ignore, n),
    decreases n,
{
    if n > 0 {
        lemma_sanitized_args_prefix(a, b, c, ignore, (n - 1) as nat);
    }
}

proof fn lemma_sanitized_segments_prefix(
    a: Seq<Segment>,
    b: Seq<Segment>,
    c: Seq<Segment>,
    ignore: Seq<String>,
    n: nat,
)
    requires
        n <= b.len(),
        n <= c.len(),
        forall|k: int| 0 <= k < n ==> b[k] == c[k],
    ensures
        sanitized_segments(a, b, ignore, n) == sanitized_segments(a, c, ignore, n),
    decreases n,
{
    if n > 0 {
        lemma_sanitized_segments_prefix(a, b, c, ignore, (n - 1) as nat);
    }
}


/// The type a bound reference points to, seen through groups.
pub open spec fn referenced(t: Ty) -> Ty
    decreases t,
{
    match t {
        Ty::Group(elem) => referenced(*elem),
        Ty::Reference { elem, .. } => *elem,
        _ => t,
    }
}

proof fn lemma_sanitized_keeps_referenced(a: Ty, b: Ty, ignore: Seq<String>)
    requires
        is_bound_reference(a, ignore),
        sanitized(a, b, ignore),
    ensures
        referenced(b) == referenced(a),
    decreases a,
{
    match (a, b) {
        (Ty::Group(x), Ty::Group(y)) => lemma_sanitized_keeps_referenced(*x, *y, ignore),
        _ => {},
    }
}

/// Takes the referenced type out of a walked reference type.
pub(crate) fn take_referenced(t: Ty, Ghost(orig): Ghost<Ty>, ignore: &Vec<String>) -> (r: Ty)
    requires
        is_bound_reference(orig, ignore@),
        sanitized(orig, t, ignore@),
    ensures
        r == referenced(orig),
    decreases t,
{
    proof {
        lemma_sanitized_keeps_referenced(orig, t, ignore@);
    }
    match t {
        Ty::Group(elem) => {
            let ghost inner = match orig {
                Ty::Group(x) => *x,
                _ => orig,
            };
            take_referenced(*elem, Ghost(inner), ignore)
        },
        Ty::Reference { elem, .. } => *elem,
        _ => t,
    }
}


/// A mutable reference appears in one of the first `n` types of `s`.
pub open spec fn mut_in_all(s: Seq<Ty>, n: nat) -> bool
    decreases s, n,
{
    if n == 0 || n > s.len() {
        false
    } else {
        mut_in_all(s, (n - 1) as nat) || contains_mut_reference(s[n - 1])
    }
}

/// A mutable reference appears in one of the first `n` generic type
/// arguments of `s`.
pub open spec fn mut_in_args(s: Seq<GenericArg>, n: nat) -> bool
    decreases s, n,
{
    if n == 0 || n > s.len() {
        false
    } else {
        mut_in_args(s, (n - 1) as nat) || match s[n - 1] {
            GenericArg::Type(t) => contains_mut_reference(t),
            _ => false,
        }
    }
}

/// A mutable reference appears in the generic type arguments of one of the
/// first `n` segments of `s`.
pub open spec fn mut_in_segments(s: Seq<Segment>, n: nat) -> bool
    decreases s, n,
{
    if n == 0 || n > s.len() {
        false
    } else {
        mut_in_segments(s, (n - 1) as nat) || match s[n - 1].args {
            PathArgs::Angle(args) => mut_in_args(args@, args@.len()),
            _ => false,
        }
    }
}

/// A mutable reference appears in the type where the field holds data: the
/// type itself, an array or slice element, a group, a tuple element, a
/// generic type argument, or what a reference points to. Function types
/// hold no data of their own and are not looked into.
pub open spec fn contains_mut_reference(t: Ty) -> bool
    decreases t, 0nat,
{
    match t {
        Ty::Array { elem, .. } => contains_mut_reference(*elem),
        Ty::Group(elem) => contains_mut_reference(*elem),
        Ty::Reference { mutable, elem, .. } => mutable || contains_mut_reference(*elem),
        Ty::Slice(elem) => contains_mut_reference(*elem),
        Ty::Tuple(elems) => mut_in_all(elems@, elems@.len()),
        Ty::Path { segments, .. } => mut_in_segments(segments@, segments@.len()),
        _ => false,
    }
}

/// Tells whether a mutable reference appears where the type holds data.
pub fn contains_mut(t: &Ty) -> (r: bool)
    ensures
        r == contains_mut_reference(*t),
    decreases t, 0nat,
{
    match t {
        Ty::Array { elem, .. } => contains_mut(elem),
        Ty::Group(elem) => contains_mut(elem),
        Ty::Reference { mutable, elem, .. } => *mutable || contains_mut(elem),
        Ty::Slice(elem) => contains_mut(elem),
        Ty::Tuple(elems) => {
            proof {
                assert(decreases_to!(*t => (*t)->Tuple_0));
            }
            mut_all(elems)
        },
        Ty::Path { segments, .. } => {
            proof {
                assert(decreases_to!(*t => (*t)->segments));
            }
            mut_segments(segments)
        },
        _ => false,
    }
}

fn mut_all(v: &Vec<Ty>) -> (r: bool)
    ensures
        r == mut_in_all(v@, v@.len()),
    decreases v, 0nat,
{
    let ghost v0 = v@;
    let mut i: usize = 0;
    while i < v.len()
        invariant
            v@ == v0,
            i <= v0.len(),
            !mut_in_all(v0, i as nat),
            decreases_to!(*v => v0),
        decreases v0.len() - i,
    {
        proof {
            assert(decreases_to!(v0 => v0[i as int]));
        }
        if contains_mut(&v[i]) {
            proof {
                lemma_mut_in_all_grows(v0, (i + 1) as nat, v0.len());
            }
            return true;
        }
        i += 1;
    }
    false
}

fn mut_args(v: &Vec<GenericArg>) -> (r: bool)
    ensures
        r == mut_in_args(v@, v@.len()),
    decreases v, 0nat,
{
    let ghost v0 = v@;
    let mut i: usize = 0;
    while i < v.len()
        invariant
            v@ == v0,
            i <= v0.len(),
            !mut_in_args(v0, i as nat),
            decreases_to!(*v => v0),
        decreases v0.len() - i,
    {
        proof {
            assert(decreases_to!(v0 => v0[i as int]));
        }
        let found = match &v[i] {
            GenericArg::Type(t) => {
                proof {
                    assert(decreases_to!(v0[i as int] => v0[i as int]->Type_0));
                }
                contains_mut(t)
            },
            _ => false,
        };
        if found {
            proof {
                lemma_mut_in_args_grows(v0, (i + 1) as nat, v0.len());
            }
            return true;
        }
        i += 1;
    }
    false
}

fn mut_segments(v: &Vec<Segment>) -> (r: bool)
    ensures
        r == mut_in_segments(v@, v@.len()),
    decreases v, 0nat,
{
    let ghost v0 = v@;
    let mut i: usize = 0;
    while i < v.len()
        invariant
            v@ == v0,
            i <= v0.len(),
            !mut_in_segments(v0, i as nat),
            decreases_to!(*v => v0),
        decreases v0.len() - i,
    {
        proof {
            assert(decreases_to!(v0 => v0[i as int]));
        }
        let found = match &v[i].args {
            PathArgs::Angle(args) => {
                proof {
                    assert(decreases_to!(v0[i as int] => v0[i as int].args));
                    assert(decreases_to!(v0[i as int].args => v0[i as int].args->Angle_0));
                }
                mut_args(args)
            },
            _ => false,
        };
        if found {
            proof {
                lemma_mut_in_segments_grows(v0, (i + 1) as nat, v0.len());
            }
            return true;
        }
        i += 1;
    }
    false
}

proof fn lemma_mut_in_all_grows(s: Seq<Ty>, m: nat, n: nat)
    requires
        m <= n <= s.len(),
        mut_in_all(s, m),
    ensures
        mut_in_all(s, n),
    decreases n - m,
{
    if m < n {
        lemma_mut_in_all_grows(s, m, (n - 1) as nat);
    }
}

proof fn lemma_mut_in_args_grows(s: Seq<GenericArg>, m: nat, n: nat)
    requires
        m <= n <= s.len(),
        mut_in_args(s, m),
    ensures
        mut_in_args(s, n),
    decreases n - m,
{
    if m < n {
        lemma_mut_in_args_grows(s, m, (n - 1) as nat);
    }
}

proof fn lemma_mut_in_segments_grows(s: Seq<Segment>, m: nat, n: nat)
    requires
        m <= n <= s.len(),
        mut_in_segments(s, m),
    ensures
        mut_in_segments(s, n),
    decreases n - m,
{
    if m < n {
        lemma_mut_in_segments_grows(s, m, (n - 1) as nat);
    }
}

} // verus!
