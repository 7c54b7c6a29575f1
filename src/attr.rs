//! Attribute resolution: reads the options of a container, a variant or a
//! field from its attributes, keeps the first setting of each option and
//! reports every later one, and strips the tool's own attributes.
use vstd::prelude::*;
use crate::ctxt::{Ctxt, Diagnostic, Problem, Setting};
use crate::ty::ident_is;

verus! {

/// The value after `key =` inside an attribute, and the ways it reads.
pub struct MetaValue {
    /// The value as a single identifier.
    pub ident: Option<String>,
    /// The value reads as a path.
    pub is_path: bool,
    /// The value reads as a type.
    pub is_type: bool,
    /// Where the last segment of the path stands.
    pub last_loc: u64,
}

/// One `key` or `key = value` item of a list attribute.
pub struct NestedMeta {
    pub key: String,
    pub loc: u64,
    pub value: Option<MetaValue>,
}

/// The arguments of an attribute.
pub enum Args {
    /// `#[name]`
    Word,
    /// `#[name(..)]` and the ways its contents read.
    List {
        /// The contents as `key [= value], ..` items, if they read so.
        nested: Option<Vec<NestedMeta>>,
        /// The contents read as one attribute.
        is_meta: bool,
        /// The contents read as one type.
        is_type: bool,
    },
    /// `#[name = ..]`
    NameValue,
}

/// An attribute: its path when that is a single identifier (else its text),
/// where it stands, and its arguments.
pub struct Attribute {
    /// Its place in the declaration's list, by which the caller finds it again.
    pub id: usize,
    pub name: String,
    pub loc: u64,
    pub args: Args,
}

/// Which value of the declaration an option refers to: the attribute at
/// index `attr` of its list, and in it the item at index `item`, if any.
#[derive(PartialEq, Eq, Structural, Clone, Copy, Debug)]
pub struct Source {
    pub attr: usize,
    pub item: Option<usize>,
}

/// The segment that `with = path` appends to its path.
#[derive(PartialEq, Eq, Structural, Clone, Copy, Debug)]
pub enum Suffix {
    ToOwned,
    Borrow,
    BorrowMut,
}

/// A user-supplied conversion function: a path as written, or a base path
/// with a conventional segment appended.
#[derive(PartialEq, Eq, Structural, Clone, Copy, Debug)]
pub enum PathSource {
    Given(Source),
    With(Source, Suffix),
}

/// How the fields are to be converted.
#[derive(PartialEq, Eq, Structural, Clone, Copy, Debug)]
pub enum FieldTypeKind {
    /// Decided from the field type.
    Default,
    /// Explicitly copy, or explicitly not.
    Copy(bool),
    /// By `Clone` and a reference.
    Std,
}

/// Where an attribute is attached.
#[derive(PartialEq, Eq, Structural, Clone, Copy, Debug)]
pub enum Level {
    Container,
    Variant,
    Field,
}

/// One effect of an attribute, in the order the attributes are written.
pub enum Directive {
    Name(u64, String),
    Kind(u64, FieldTypeKind, Setting),
    Owned(u64, Source),
    Mut(u64),
    ToOwnedWith(u64, PathSource),
    BorrowWith(u64, PathSource),
    BorrowMutWith(u64, PathSource),
    /// Forward an attribute to the owned declaration only.
    Own(usize),
    /// Forward an attribute to the borrowed declaration only.
    Lend(usize),
    Fail(u64, Problem),
}

pub open spec fn kind_setting(level: Level) -> Setting {
    match level {
        Level::Container => Setting::ContainerKind,
        Level::Variant => Setting::VariantKind,
        Level::Field => Setting::FieldKind,
    }
}

pub open spec fn takes_no_value(item: NestedMeta, d: Directive) -> Seq<Directive> {
    if item.value is None {
        seq![d]
    } else {
        seq![Directive::Fail(item.loc, Problem::UnexpectedValue)]
    }
}

pub open spec fn path_value(item: NestedMeta) -> bool {
    item.value is Some && item.value->Some_0.is_path
}

/// The effects of one `key [= value]` item inside `#[borrowme(..)]`; `src`
/// names the item.
pub open spec fn item_directives(item: NestedMeta, src: Source, level: Level) -> Seq<Directive> {
    let key = item.key@;
    let loc = item.loc;
    if key == "std"@ {
        takes_no_value(item, Directive::Kind(loc, FieldTypeKind::Std, kind_setting(level)))
    } else if level == Level::Container && key == "name"@ {
        match item.value {
            Some(v) => match v.ident {
                Some(id) => seq![Directive::Name(loc, id)],
                None => seq![Directive::Fail(loc, Problem::ExpectedValue)],
            },
            None => seq![Directive::Fail(loc, Problem::ExpectedValue)],
        }
    } else if level != Level::Field {
        seq![Directive::Fail(loc, Problem::Unsupported)]
    } else if key == "owned"@ {
        if item.value is Some && item.value->Some_0.is_type {
            seq![Directive::Owned(loc, src)]
        } else {
            seq![Directive::Fail(loc, Problem::ExpectedValue)]
        }
    } else if key == "mut"@ {
        takes_no_value(item, Directive::Mut(loc))
    } else if key == "copy"@ {
        takes_no_value(item, Directive::Kind(loc, FieldTypeKind::Copy(true), Setting::FieldKind))
    } else if key == "no_copy"@ {
        takes_no_value(item, Directive::Kind(loc, FieldTypeKind::Copy(false), Setting::FieldKind))
    } else if key == "to_owned_with"@ || key == "borrow_with"@ || key == "borrow_mut_with"@
        || key == "with"@ {
        if !path_value(item) {
            seq![Directive::Fail(loc, Problem::ExpectedValue)]
        } else if key == "to_owned_with"@ {
            seq![Directive::ToOwnedWith(loc, PathSource::Given(src))]
        } else if key == "borrow_with"@ {
            seq![Directive::BorrowWith(loc, PathSource::Given(src))]
        } else if key == "borrow_mut_with"@ {
            seq![Directive::BorrowMutWith(loc, PathSource::Given(src)), Directive::Mut(loc)]
        } else {
            let last = item.value->Some_0.last_loc;
            seq![
                Directive::ToOwnedWith(last, PathSource::With(src, Suffix::ToOwned)),
                Directive::BorrowWith(last, PathSource::With(src, Suffix::Borrow)),
                Directive::BorrowMutWith(last, PathSource::With(src, Suffix::BorrowMut)),
            ]
        }
    } else {
        seq![Directive::Fail(loc, Problem::Unsupported)]
    }
}

pub open spec fn is_fail(ds: Seq<Directive>) -> bool {
    ds.len() == 1 && ds[0] is Fail
}

/// One of the first `n` items fails.
pub open spec fn failed_before(items: Seq<NestedMeta>, attr: usize, level: Level, n: nat) -> bool
    decreases n,
{
    if n == 0 || n > items.len() {
        false
    } else {
        failed_before(items, attr, level, (n - 1) as nat) || is_fail(
            item_directives(items[n - 1], Source { attr, item: Some((n - 1) as usize) }, level),
        )
    }
}

/// The effects of the first `n` items of a list; the first failing item
/// ends the list.
pub open spec fn nested_directives(
    items: Seq<NestedMeta>,
    attr: usize,
    level: Level,
    n: nat,
) -> Seq<
    Directive,
>
    decreases n,
{
    if n == 0 || n > items.len() {
        seq![]
    } else if failed_before(items, attr, level, (n - 1) as nat) {
        nested_directives(items, attr, level, (n - 1) as nat)
    } else {
        nested_directives(items, attr, level, (n - 1) as nat) + item_directives(
            items[n - 1],
            Source { attr, item: Some((n - 1) as usize) },
            level,
        )
    }
}

/// The effects of one attribute.
pub open spec fn attr_directives(a: Attribute, level: Level) -> Seq<Directive> {
    let id = a.id;
    let name = a.name@;
    if name == "borrowme"@ {
        match a.args {
            Args::List { nested: Some(items), .. } => nested_directives(
                items@,
                id,
                level,
                items@.len(),
            ),
            _ => seq![Directive::Fail(a.loc, Problem::Malformed)],
        }
    } else if name == "borrowed_attr"@ || name == "owned_attr"@ {
        match a.args {
            Args::List { is_meta: true, .. } => if name == "owned_attr"@ {
                seq![Directive::Own(id)]
            } else {
                seq![Directive::Lend(id)]
            },
            _ => seq![Directive::Fail(a.loc, Problem::Malformed)],
        }
    } else if level == Level::Field && (name == "copy"@ || name == "no_copy"@) {
        match a.args {
            Args::Word => if name == "copy"@ {
                seq![Directive::Kind(a.loc, FieldTypeKind::Copy(true), Setting::KindFromCopy)]
            } else {
                seq![Directive::Kind(a.loc, FieldTypeKind::Copy(false), Setting::KindFromNoCopy)]
            },
            _ => seq![Directive::Fail(a.loc, Problem::ExpectedNoArguments)],
        }
    } else if level == Level::Field && name == "owned"@ {
        match a.args {
            Args::List { is_type: true, .. } => seq![
                Directive::Owned(a.loc, Source { attr: id, item: None }),
            ],
            _ => seq![Directive::Fail(a.loc, Problem::Malformed)],
        }
    } else {
        seq![]
    }
}

/// The effects of the first `n` attributes of a list, in order.
pub open spec fn directives(attrs: Seq<Attribute>, level: Level, n: nat) -> Seq<Directive>
    decreases n,
{
    if n == 0 || n > attrs.len() {
        seq![]
    } else {
        directives(attrs, level, (n - 1) as nat) + attr_directives(attrs[n - 1], level)
    }
}


/// Attributes to forward, by their index in the declaration's list.
pub struct Attributes {
    /// Forwarded to the owned declaration only.
    pub own: Vec<usize>,
    /// Forwarded to the borrowed declaration only.
    pub borrow: Vec<usize>,
}

/// Every option an attribute list can set, each with where it was set.
pub struct Settings {
    pub name: Option<(u64, String)>,
    pub kind: Option<(u64, FieldTypeKind)>,
    pub owned: Option<(u64, Source)>,
    pub is_mut: Option<(u64, ())>,
    pub to_owned: Option<(u64, PathSource)>,
    pub borrow: Option<(u64, PathSource)>,
    pub borrow_mut: Option<(u64, PathSource)>,
    pub attributes: Attributes,
}

/// The options together with the diagnostics, as values.
pub struct State {
    pub name: Option<(u64, String)>,
    pub kind: Option<(u64, FieldTypeKind)>,
    pub owned: Option<(u64, Source)>,
    pub is_mut: Option<(u64, ())>,
    pub to_owned: Option<(u64, PathSource)>,
    pub borrow: Option<(u64, PathSource)>,
    pub borrow_mut: Option<(u64, PathSource)>,
    pub own: Seq<usize>,
    pub lend: Seq<usize>,
    pub errors: Seq<Diagnostic>,
}

pub open spec fn state_of(s: Settings, errors: Seq<Diagnostic>) -> State {
    State {
        name: s.name,
        kind: s.kind,
        owned: s.owned,
        is_mut: s.is_mut,
        to_owned: s.to_owned,
        borrow: s.borrow,
        borrow_mut: s.borrow_mut,
        own: s.attributes.own@,
        lend: s.attributes.borrow@,
        errors,
    }
}

pub open spec fn initial(errors: Seq<Diagnostic>) -> State {
    State {
        name: None,
        kind: None,
        owned: None,
        is_mut: None,
        to_owned: None,
        borrow: None,
        borrow_mut: None,
        own: seq![],
        lend: seq![],
        errors,
    }
}

/// The errors a duplicate setting adds: one at the new place, one at the
/// place where the option was first set.
pub open spec fn duplicate_pair(loc: u64, setting: Setting, prior: u64) -> Seq<Diagnostic> {
    seq![
        Diagnostic { loc, problem: Problem::Duplicate(setting) },
        Diagnostic { loc: prior, problem: Problem::ExistingHere },
    ]
}

/// Setting an option: the first setting stays; a later one is an error.
pub open spec fn set_spec<T>(
    existing: Option<(u64, T)>,
    loc: u64,
    value: T,
    setting: Setting,
    errors: Seq<Diagnostic>,
) -> (Option<(u64, T)>, Seq<Diagnostic>) {
    match existing {
        Some((prior, _)) => (existing, errors + duplicate_pair(loc, setting, prior)),
        None => (Some((loc, value)), errors),
    }
}

pub open spec fn apply(st: State, d: Directive) -> State {
    match d {
        Directive::Name(loc, id) => {
            let r = set_spec(st.name, loc, id, Setting::Name, st.errors);
            State { name: r.0, errors: r.1, ..st }
        },
        Directive::Kind(loc, k, setting) => {
            let r = set_spec(st.kind, loc, k, setting, st.errors);
            State { kind: r.0, errors: r.1, ..st }
        },
        Directive::Owned(loc, src) => {
            let r = set_spec(st.owned, loc, src, Setting::Owned, st.errors);
            State { owned: r.0, errors: r.1, ..st }
        },
        Directive::Mut(loc) => {
            let r = set_spec(st.is_mut, loc, (), Setting::Mutability, st.errors);
            State { is_mut: r.0, errors: r.1, ..st }
        },
        Directive::ToOwnedWith(loc, p) => {
            let r = set_spec(st.to_owned, loc, p, Setting::ToOwnedWith, st.errors);
            State { to_owned: r.0, errors: r.1, ..st }
        },
        Directive::BorrowWith(loc, p) => {
            let r = set_spec(st.borrow, loc, p, Setting::BorrowWith, st.errors);
            State { borrow: r.0, errors: r.1, ..st }
        },
        Directive::BorrowMutWith(loc, p) => {
            let r = set_spec(st.borrow_mut, loc, p, Setting::BorrowMutWith, st.errors);
            State { borrow_mut: r.0, errors: r.1, ..st }
        },
        Directive::Own(id) => State { own: st.own.push(id), ..st },
        Directive::Lend(id) => State { lend: st.lend.push(id), ..st },
        Directive::Fail(loc, problem) => State {
            errors: st.errors.push(Diagnostic { loc, problem }),
            ..st
        },
    }
}

/// The state after the directives `ds`, in order.
pub open spec fn run(st: State, ds: Seq<Directive>) -> State
    decreases ds.len(),
{
    if ds.len() == 0 {
        st
    } else {
        apply(run(st, ds.drop_last()), ds.last())
    }
}

pub proof fn lemma_run_concat(st: State, a: Seq<Directive>, b: Seq<Directive>)
    ensures
        run(st, a + b) == run(run(st, a), b),
    decreases b.len(),
{
    if b.len() == 0 {
        assert(a + b =~= a);
    } else {
        lemma_run_concat(st, a, b.drop_last());
        assert((a + b).drop_last() =~= a + b.drop_last());
    }
}

/// Records `value` for an option that is not set yet; where it is set, the
/// option keeps its value and both places are reported.
pub fn set_attr<T>(
    cx: &mut Ctxt,
    existing: &mut Option<(u64, T)>,
    loc: u64,
    value: T,
    setting: Setting,
)
    ensures
        (*final(existing), final(cx).errors@) == set_spec(
            *old(existing),
            loc,
            value,
            setting,
            old(cx).errors@,
        ),
{
    let prior: Option<u64> = match &*existing {
        Some(p) => Some(p.0),
        None => None,
    };
    match prior {
        Some(span) => {
            cx.span_error(loc, Problem::Duplicate(setting));
            cx.span_error(span, Problem::ExistingHere);
            proof {
                assert(cx.errors@ =~= old(cx).errors@ + duplicate_pair(loc, setting, span));
            }
        },
        None => {
            *existing = Some((loc, value));
        },
    }
}

impl Settings {
    pub fn new() -> (r: Settings)
        ensures
            forall|e: Seq<Diagnostic>| #[trigger] state_of(r, e) == initial(e),
    {
        let r = Settings {
            name: None,
            kind: None,
            owned: None,
            is_mut: None,
            to_owned: None,
            borrow: None,
            borrow_mut: None,
            attributes: Attributes { own: Vec::new(), borrow: Vec::new() },
        };
        assert forall|e: Seq<Diagnostic>| #[trigger] state_of(r, e) == initial(e) by {
            assert(state_of(r, e).own =~= initial(e).own);
            assert(state_of(r, e).lend =~= initial(e).lend);
        }
        r
    }

    /// Applies one effect of an attribute.
    pub fn apply(&mut self, cx: &mut Ctxt, d: Directive)
        ensures
            state_of(*final(self), final(cx).errors@) == apply(
                state_of(*old(self), old(cx).errors@),
                d,
            ),
    {
        match d {
            Directive::Name(loc, id) => set_attr(cx, &mut self.name, loc, id, Setting::Name),
            Directive::Kind(loc, k, setting) => set_attr(cx, &mut self.kind, loc, k, setting),
            Directive::Owned(loc, src) => set_attr(cx, &mut self.owned, loc, src, Setting::Owned),
            Directive::Mut(loc) => set_attr(cx, &mut self.is_mut, loc, (), Setting::Mutability),
            Directive::ToOwnedWith(loc, p) => set_attr(
                cx,
                &mut self.to_owned,
                loc,
                p,
                Setting::ToOwnedWith,
            ),
            Directive::BorrowWith(loc, p) => set_attr(
                cx,
                &mut self.borrow,
                loc,
                p,
                Setting::BorrowWith,
            ),
            Directive::BorrowMutWith(loc, p) => set_attr(
                cx,
                &mut self.borrow_mut,
                loc,
                p,
                Setting::BorrowMutWith,
            ),
            Directive::Own(id) => self.attributes.own.push(id),
            Directive::Lend(id) => self.attributes.borrow.push(id),
            Directive::Fail(loc, problem) => cx.span_error(loc, problem),
        }
    }
}


fn kind_setting_of(level: Level) -> (r: Setting)
    ensures
        r == kind_setting(level),
{
    match level {
        Level::Container => Setting::ContainerKind,
        Level::Variant => Setting::VariantKind,
        Level::Field => Setting::FieldKind,
    }
}

fn one(d: Directive) -> (r: Vec<Directive>)
    ensures
        r@ == seq![d],
{
    let mut r: Vec<Directive> = Vec::new();
    r.push(d);
    proof {
        assert(r@ =~= seq![d]);
    }
    r
}

fn no_value(item: &NestedMeta, d: Directive) -> (r: Vec<Directive>)
    ensures
        r@ == takes_no_value(*item, d),
{
    match &item.value {
        None => one(d),
        Some(_) => one(Directive::Fail(item.loc, Problem::UnexpectedValue)),
    }
}

fn has_path_value(item: &NestedMeta) -> (r: bool)
    ensures
        r == path_value(*item),
{
    match &item.value {
        Some(v) => v.is_path,
        None => false,
    }
}

/// The effects of one item inside `#[borrowme(..)]`.
pub fn item_effects(item: &NestedMeta, src: Source, level: Level) -> (r: Vec<Directive>)
    ensures
        r@ == item_directives(*item, src, level),
{
    let key = &item.key;
    let loc = item.loc;
    if ident_is(key, "std") {
        no_value(item, Directive::Kind(loc, FieldTypeKind::Std, kind_setting_of(level)))
    } else if level == Level::Container && ident_is(key, "name") {
        match &item.value {
            Some(v) => match &v.ident {
                Some(id) => one(Directive::Name(loc, id.clone())),
                None => one(Directive::Fail(loc, Problem::ExpectedValue)),
            },
            None => one(Directive::Fail(loc, Problem::ExpectedValue)),
        }
    } else if level != Level::Field {
        one(Directive::Fail(loc, Problem::Unsupported))
    } else if ident_is(key, "owned") {
        let typed = match &item.value {
            Some(v) => v.is_type,
            None => false,
        };
        if typed {
            one(Directive::Owned(loc, src))
        } else {
            one(Directive::Fail(loc, Problem::ExpectedValue))
        }
    } else if ident_is(key, "mut") {
        no_value(item, Directive::Mut(loc))
    } else if ident_is(key, "copy") {
        no_value(item, Directive::Kind(loc, FieldTypeKind::Copy(true), Setting::FieldKind))
    } else if ident_is(key, "no_copy") {
        no_value(item, Directive::Kind(loc, FieldTypeKind::Copy(false), Setting::FieldKind))
    } else if ident_is(key, "to_owned_with") || ident_is(key, "borrow_with") || ident_is(
        key,
        "borrow_mut_with",
    ) || ident_is(key, "with") {
        if !has_path_value(item) {
            one(Directive::Fail(loc, Problem::ExpectedValue))
        } else if ident_is(key, "to_owned_with") {
            one(Directive::ToOwnedWith(loc, PathSource::Given(src)))
        } else if ident_is(key, "borrow_with") {
            one(Directive::BorrowWith(loc, PathSource::Given(src)))
        } else if ident_is(key, "borrow_mut_with") {
            let mut r = one(Directive::BorrowMutWith(loc, PathSource::Given(src)));
            r.push(Directive::Mut(loc));
            proof {
                assert(r@ =~= item_directives(*item, src, level));
            }
            r
        } else {
            let last = match &item.value {
                Some(v) => v.last_loc,
                None => loc,
            };
            let mut r = one(Directive::ToOwnedWith(last, PathSource::With(src, Suffix::ToOwned)));
            r.push(Directive::BorrowWith(last, PathSource::With(src, Suffix::Borrow)));
            r.push(Directive::BorrowMutWith(last, PathSource::With(src, Suffix::BorrowMut)));
            proof {
                assert(r@ =~= item_directives(*item, src, level));
            }
            r
        }
    } else {
        one(Directive::Fail(loc, Problem::Unsupported))
    }
}

fn is_failure(ds: &Vec<Directive>) -> (r: bool)
    ensures
        r == is_fail(ds@),
{
    ds.len() == 1 && match &ds[0] {
        Directive::Fail(_, _) => true,
        _ => false,
    }
}

fn append(out: &mut Vec<Directive>, ds: Vec<Directive>)
    ensures
        final(out)@ == old(out)@ + ds@,
{
    let ghost d0 = ds@;
    let mut rest = ds;
    let mut i: usize = 0;
    let len = rest.len();
    while i < len
        invariant
            len == d0.len(),
            i <= len,
            rest@ == d0.subrange(i as int, len as int),
            out@ == old(out)@ + d0.subrange(0, i as int),
        decreases len - i,
    {
        let d = rest.remove(0);
        out.push(d);
        i += 1;
        proof {
            assert(rest@ =~= d0.subrange(i as int, len as int));
            assert(out@ =~= old(out)@ + d0.subrange(0, i as int));
        }
    }
    proof {
        assert(d0.subrange(0, len as int) =~= d0);
    }
}

/// The effects of one attribute.
pub fn attr_effects(a: &Attribute, level: Level) -> (r: Vec<Directive>)
    ensures
        r@ == attr_directives(*a, level),
{
    let id = a.id;
    let name = &a.name;
    if ident_is(name, "borrowme") {
        match &a.args {
            Args::List { nested: Some(items), .. } => {
                let mut out: Vec<Directive> = Vec::new();
                let mut failed = false;
                let mut k: usize = 0;
                while k < items.len()
                    invariant
                        k <= items@.len(),
                        failed == failed_before(items@, id, level, k as nat),
                        out@ == nested_directives(items@, id, level, k as nat),
                    decreases items@.len() - k,
                {
                    if !failed {
                        let ds = item_effects(&items[k], Source { attr: id, item: Some(k) }, level);
                        failed = is_failure(&ds);
                        append(&mut out, ds);
                    }
                    k += 1;
                }
                out
            },
            _ => one(Directive::Fail(a.loc, Problem::Malformed)),
        }
    } else if ident_is(name, "borrowed_attr") || ident_is(name, "owned_attr") {
        let meta = match &a.args {
            Args::List { is_meta, .. } => *is_meta,
            _ => false,
        };
        if !meta {
            one(Directive::Fail(a.loc, Problem::Malformed))
        } else if ident_is(name, "owned_attr") {
            one(Directive::Own(id))
        } else {
            one(Directive::Lend(id))
        }
    } else if level == Level::Field && (ident_is(name, "copy") || ident_is(name, "no_copy")) {
        match &a.args {
            Args::Word => if ident_is(name, "copy") {
                one(Directive::Kind(a.loc, FieldTypeKind::Copy(true), Setting::KindFromCopy))
            } else {
                one(Directive::Kind(a.loc, FieldTypeKind::Copy(false), Setting::KindFromNoCopy))
            },
            _ => one(Directive::Fail(a.loc, Problem::ExpectedNoArguments)),
        }
    } else if level == Level::Field && ident_is(name, "owned") {
        let typed = match &a.args {
            Args::List { is_type, .. } => *is_type,
            _ => false,
        };
        if typed {
            one(Directive::Owned(a.loc, Source { attr: id, item: None }))
        } else {
            one(Directive::Fail(a.loc, Problem::Malformed))
        }
    } else {
        let r: Vec<Directive> = Vec::new();
        proof {
            assert(r@ =~= attr_directives(*a, level));
        }
        r
    }
}

/// Reads every option of an attribute list attached at `level`, reporting
/// each problem and going on past it.
pub fn resolve(cx: &mut Ctxt, attrs: &Vec<Attribute>, level: Level) -> (r: Settings)
    ensures
        state_of(r, final(cx).errors@) == run(
            initial(old(cx).errors@),
            directives(attrs@, level, attrs@.len()),
        ),
{
    resolve_more(cx, Settings::new(), attrs, level)
}

/// Goes on reading options from a further attribute list.
pub fn resolve_more(
    cx: &mut Ctxt,
    s: Settings,
    attrs: &Vec<Attribute>,
    level: Level,
) -> (r: Settings)
    ensures
        state_of(r, final(cx).errors@) == run(
            state_of(s, old(cx).errors@),
            directives(attrs@, level, attrs@.len()),
        ),
{
    let ghost s0 = state_of(s, old(cx).errors@);
    let mut s = s;
    let mut i: usize = 0;
    while i < attrs.len()
        invariant
            i <= attrs@.len(),
            state_of(s, cx.errors@) == run(s0, directives(attrs@, level, i as nat)),
        decreases attrs@.len() - i,
    {
        let ds = attr_effects(&attrs[i], level);
        let ghost before = directives(attrs@, level, i as nat);
        let ghost d0 = ds@;
        let mut rest = ds;
        let mut j: usize = 0;
        let len = rest.len();
        while j < len
            invariant
                len == d0.len(),
                j <= len,
                rest@ == d0.subrange(j as int, len as int),
                state_of(s, cx.errors@) == run(s0, before + d0.subrange(0, j as int)),
            decreases len - j,
        {
            let d = rest.remove(0);
            let ghost prev = before + d0.subrange(0, j as int);
            s.apply(cx, d);
            j += 1;
            proof {
                assert(rest@ =~= d0.subrange(j as int, len as int));
                assert((before + d0.subrange(0, j as int)).drop_last() =~= prev);
            }
        }
        i += 1;
        proof {
            assert(d0.subrange(0, len as int) =~= d0);
        }
    }
    s
}


/// The place given to options that the expansion sets itself.
pub const CALL_SITE: u64 = 0;

/// The options of an attribute list once resolved, starting from `errors`.
pub open spec fn resolved(attrs: Seq<Attribute>, level: Level, errors: Seq<Diagnostic>) -> State {
    run(initial(errors), directives(attrs, level, attrs.len()))
}

/// A function the generated code calls.
#[derive(PartialEq, Eq, Structural, Clone, Copy, Debug)]
pub enum Callee {
    /// `borrowme::ToOwned::to_owned`
    ToOwned,
    /// `borrowme::Borrow::borrow`
    Borrow,
    /// `borrowme::BorrowMut::borrow_mut`
    BorrowMut,
    /// `core::clone::Clone::clone`
    Clone,
    /// A function named by the user.
    User(PathSource),
}

/// Options of a struct or enum.
pub struct Container {
    /// The name of the owned declaration.
    pub owned_ident: Option<(u64, String)>,
    pub attributes: Attributes,
    /// The kind given to every field unless a variant or the field says otherwise.
    pub kind: Option<(u64, FieldTypeKind)>,
}

impl Container {
    /// The name of the owned declaration: the one given, else `Owned`
    /// followed by the borrowed name.
    pub fn owned_ident(&self, ident: &String) -> (r: String)
        ensures
            r@ == match self.owned_ident {
                Some((_, id)) => id@,
                None => "Owned"@ + ident@,
            },
    {
        match &self.owned_ident {
            Some(p) => p.1.clone(),
            None => {
                let prefix = String::from_str("Owned");
                prefix.concat(ident.as_str())
            },
        }
    }
}

/// Parses the options of a struct or enum: those given to the macro itself,
/// then those among the declaration's attributes.
pub fn container(cx: &mut Ctxt, args: &Vec<Attribute>, attrs: &Vec<Attribute>) -> (r: Container)
    ensures
        ({
            let st = run(
                initial(old(cx).errors@),
                directives(args@, Level::Container, args@.len()) + directives(
                    attrs@,
                    Level::Container,
                    attrs@.len(),
                ),
            );
            &&& final(cx).errors@ == st.errors
            &&& r.owned_ident == st.name
            &&& r.kind == st.kind
            &&& r.attributes.own@ == st.own
            &&& r.attributes.borrow@ == st.lend
        }),
{
    let s = resolve(cx, args, Level::Container);
    let s = resolve_more(cx, s, attrs, Level::Container);
    proof {
        lemma_run_concat(
            initial(old(cx).errors@),
            directives(args@, Level::Container, args@.len()),
            directives(attrs@, Level::Container, attrs@.len()),
        );
    }
    Container { owned_ident: s.name, attributes: s.attributes, kind: s.kind }
}

/// Options of an enum variant.
pub struct Variant {
    pub attributes: Attributes,
    pub kind: Option<(u64, FieldTypeKind)>,
}

/// Parses the attributes of a variant; without a kind of its own it takes the
/// container's.
pub fn variant(cx: &mut Ctxt, attrs: &Vec<Attribute>, container: &Container) -> (r: Variant)
    ensures
        ({
            let st = resolved(attrs@, Level::Variant, old(cx).errors@);
            &&& final(cx).errors@ == st.errors
            &&& r.kind == if st.kind is Some {
                st.kind
            } else {
                container.kind
            }
            &&& r.attributes.own@ == st.own
            &&& r.attributes.borrow@ == st.lend
        }),
{
    let s = resolve(cx, attrs, Level::Variant);
    let kind = match s.kind {
        Some(k) => Some(k),
        None => container.kind,
    };
    Variant { attributes: s.attributes, kind }
}

/// How a field's type is to be treated.
pub struct FieldType {
    pub kind: Option<(u64, FieldTypeKind)>,
    /// The owned type named by the user.
    pub owned: Option<(u64, Source)>,
}

impl FieldType {
    pub fn kind(&self) -> (r: FieldTypeKind)
        ensures
            r == match self.kind {
                Some((_, k)) => k,
                None => FieldTypeKind::Default,
            },
    {
        match self.kind {
            Some((_, k)) => k,
            None => FieldTypeKind::Default,
        }
    }

    pub fn set_kind(&mut self, kind: FieldTypeKind)
        ensures
            final(self).kind == Some((CALL_SITE, kind)),
            final(self).owned == old(self).owned,
    {
        self.kind = Some((CALL_SITE, kind));
    }

    pub fn owned(&self) -> (r: Option<Source>)
        ensures
            r == match self.owned {
                Some((_, src)) => Some(src),
                None => None,
            },
    {
        match self.owned {
            Some((_, src)) => Some(src),
            None => None,
        }
    }

    pub fn set_owned(&mut self, owned: Source)
        ensures
            final(self).owned == Some((CALL_SITE, owned)),
            final(self).kind == old(self).kind,
    {
        self.owned = Some((CALL_SITE, owned));
    }
}

/// Options of a field.
pub struct Field {
    /// Whether the field is borrowed mutably.
    pub is_mut: Option<(u64, ())>,
    pub ty: FieldType,
    pub borrow: Option<(u64, PathSource)>,
    pub borrow_mut: Option<(u64, PathSource)>,
    pub to_owned: Option<(u64, PathSource)>,
    pub attributes: Attributes,
}

impl Field {
    /// The function that borrows the field.
    pub fn borrow(&self) -> (r: Callee)
        ensures
            r == match self.borrow {
                Some((_, p)) => Callee::User(p),
                None => Callee::Borrow,
            },
    {
        match self.borrow {
            Some((_, p)) => Callee::User(p),
            None => Callee::Borrow,
        }
    }

    /// The function that borrows the field mutably.
    pub fn borrow_mut(&self) -> (r: Callee)
        ensures
            r == match self.borrow_mut {
                Some((_, p)) => Callee::User(p),
                None => Callee::BorrowMut,
            },
    {
        match self.borrow_mut {
            Some((_, p)) => Callee::User(p),
            None => Callee::BorrowMut,
        }
    }

    /// The function that makes the field owned.
    pub fn to_owned(&self) -> (r: Callee)
        ensures
            r == match self.to_owned {
                Some((_, p)) => Callee::User(p),
                None => Callee::ToOwned,
            },
    {
        match self.to_owned {
            Some((_, p)) => Callee::User(p),
            None => Callee::ToOwned,
        }
    }

    pub fn is_mut(&self) -> (r: bool)
        ensures
            r == self.is_mut is Some,
    {
        self.is_mut.is_some()
    }
}

/// Parses the attributes of a field; without a kind of its own it takes
/// `default_kind`, that of its variant or container.
pub fn field(
    cx: &mut Ctxt,
    attrs: &Vec<Attribute>,
    default_kind: Option<(u64, FieldTypeKind)>,
) -> (r: Field)
    ensures
        ({
            let st = resolved(attrs@, Level::Field, old(cx).errors@);
            &&& final(cx).errors@ == st.errors
            &&& r.ty.kind == if st.kind is Some {
                st.kind
            } else {
                default_kind
            }
            &&& r.ty.owned == st.owned
            &&& r.is_mut == st.is_mut
            &&& r.to_owned == st.to_owned
            &&& r.borrow == st.borrow
            &&& r.borrow_mut == st.borrow_mut
            &&& r.attributes.own@ == st.own
            &&& r.attributes.borrow@ == st.lend
        }),
{
    let s = resolve(cx, attrs, Level::Field);
    let kind = match s.kind {
        Some(k) => Some(k),
        None => default_kind,
    };
    Field {
        is_mut: s.is_mut,
        ty: FieldType { kind, owned: s.owned },
        borrow: s.borrow,
        borrow_mut: s.borrow_mut,
        to_owned: s.to_owned,
        attributes: s.attributes,
    }
}


/// The attribute names that belong to this tool and never reach the output.
pub open spec fn is_reserved(name: Seq<char>) -> bool {
    ||| name == "copy"@
    ||| name == "no_copy"@
    ||| name == "borrowed_attr"@
    ||| name == "owned_attr"@
    ||| name == "borrowme"@
    ||| name == "owned"@
}

/// The attributes of `s` that do not belong to this tool, in order.
pub open spec fn stripped(s: Seq<Attribute>) -> Seq<Attribute>
    decreases s.len(),
{
    if s.len() == 0 {
        s
    } else if is_reserved(s.last().name@) {
        stripped(s.drop_last())
    } else {
        stripped(s.drop_last()).push(s.last())
    }
}

fn is_reserved_name(name: &String) -> (r: bool)
    ensures
        r == is_reserved(name@),
{
    ident_is(name, "copy") || ident_is(name, "no_copy") || ident_is(name, "borrowed_attr")
        || ident_is(name, "owned_attr") || ident_is(name, "borrowme") || ident_is(name, "owned")
}

/// Removes every attribute of this tool, whether or not it was read.
pub fn strip(attrs: Vec<Attribute>) -> (r: Vec<Attribute>)
    ensures
        r@ == stripped(attrs@),
{
    let ghost a0 = attrs@;
    let mut rest = attrs;
    let mut out: Vec<Attribute> = Vec::new();
    let mut i: usize = 0;
    let len = rest.len();
    while i < len
        invariant
            len == a0.len(),
            i <= len,
            rest@ == a0.subrange(i as int, len as int),
            out@ == stripped(a0.subrange(0, i as int)),
        decreases len - i,
    {
        let a = rest.remove(0);
        proof {
            assert(a0.subrange(0, i + 1).drop_last() =~= a0.subrange(0, i as int));
        }
        if !is_reserved_name(&a.name) {
            out.push(a);
        }
        i += 1;
        proof {
            assert(rest@ =~= a0.subrange(i as int, len as int));
        }
    }
    proof {
        assert(a0.subrange(0, len as int) =~= a0);
    }
    out
}

proof fn lemma_stripped_clean(s: Seq<Attribute>)
    ensures
        forall|i: int| 0 <= i < stripped(s).len() ==> !is_reserved(#[trigger] stripped(s)[i].name@),
    decreases s.len(),
{
    if s.len() > 0 {
        lemma_stripped_clean(s.drop_last());
    }
}

proof fn lemma_stripped_keeps_clean(s: Seq<Attribute>)
    requires
        forall|i: int| 0 <= i < s.len() ==> !is_reserved(#[trigger] s[i].name@),
    ensures
        stripped(s) == s,
    decreases s.len(),
{
    if s.len() > 0 {
        lemma_stripped_keeps_clean(s.drop_last());
        assert(s.drop_last().push(s.last()) =~= s);
    }
}

/// Stripping is idempotent: stripping a stripped list changes nothing.
pub proof fn stripping_is_idempotent(s: Seq<Attribute>)
    ensures
        stripped(stripped(s)) == stripped(s),
{
    lemma_stripped_clean(s);
    lemma_stripped_keeps_clean(stripped(s));
}

/// `after` is `before` with `d` applied to an option that `before` already
/// set: the option keeps its first value and the errors grow by exactly the
/// pair at the new place and at the first one.
pub open spec fn reports_duplicate(before: State, after: State, d: Directive) -> bool {
    let r = after;
    match d {
        Directive::Name(loc, _) => before.name matches Some((prior, v)) ==> r.name
            == before.name && r.errors == before.errors + duplicate_pair(
            loc,
            Setting::Name,
            prior,
        ),
        Directive::Kind(loc, _, setting) => before.kind matches Some((prior, v)) ==> r.kind
            == before.kind && r.errors == before.errors + duplicate_pair(loc, setting, prior),
        Directive::Owned(loc, _) => before.owned matches Some((prior, v)) ==> r.owned
            == before.owned && r.errors == before.errors + duplicate_pair(
            loc,
            Setting::Owned,
            prior,
        ),
        Directive::Mut(loc) => before.is_mut matches Some((prior, v)) ==> r.is_mut
            == before.is_mut && r.errors == before.errors + duplicate_pair(
            loc,
            Setting::Mutability,
            prior,
        ),
        Directive::ToOwnedWith(loc, _) => before.to_owned matches Some((prior, v))
            ==> r.to_owned == before.to_owned && r.errors == before.errors + duplicate_pair(
            loc,
            Setting::ToOwnedWith,
            prior,
        ),
        Directive::BorrowWith(loc, _) => before.borrow matches Some((prior, v)) ==> r.borrow
            == before.borrow && r.errors == before.errors + duplicate_pair(
            loc,
            Setting::BorrowWith,
            prior,
        ),
        Directive::BorrowMutWith(loc, _) => before.borrow_mut matches Some((prior, v))
            ==> r.borrow_mut == before.borrow_mut && r.errors == before.errors
            + duplicate_pair(loc, Setting::BorrowMutWith, prior),
        _ => true,
    }
}

/// Whatever the attributes read before, setting an option that they already
/// set keeps its first value and adds exactly one pair of errors: at the new
/// place and at the first one.
pub proof fn duplicate_option_reported(st: State, ds: Seq<Directive>, d: Directive)
    ensures
        reports_duplicate(run(st, ds), run(st, ds.push(d)), d),
{
    assert(ds.push(d).drop_last() =~= ds);
}

/// An attribute of a generated declaration: one of the declaration's own,
/// kept, or one forwarded to this side only, both by attribute id.
#[derive(PartialEq, Eq, Structural, Clone, Copy, Debug)]
pub enum AttrOut {
    Kept(usize),
    Forwarded(usize),
}

/// The attributes of one side: the kept ones in order, then those
/// forwarded to it in order.
pub open spec fn side_of(kept: Seq<Attribute>, forwarded: Seq<usize>) -> Seq<AttrOut> {
    kept.map_values(|a: Attribute| AttrOut::Kept(a.id)) + forwarded.map_values(
        |i: usize| AttrOut::Forwarded(i),
    )
}

/// Puts together the attributes of one side of the expansion.
pub fn side_attributes(kept: &Vec<Attribute>, forwarded: &Vec<usize>) -> (r: Vec<AttrOut>)
    ensures
        r@ == side_of(kept@, forwarded@),
{
    let mut out: Vec<AttrOut> = Vec::new();
    let mut i: usize = 0;
    while i < kept.len()
        invariant
            i <= kept@.len(),
            out@ == kept@.subrange(0, i as int).map_values(|a: Attribute| AttrOut::Kept(a.id)),
        decreases kept@.len() - i,
    {
        out.push(AttrOut::Kept(kept[i].id));
        i += 1;
        proof {
            assert(out@ =~= kept@.subrange(0, i as int).map_values(|a: Attribute| AttrOut::Kept(a.id)));
        }
    }
    let mut j: usize = 0;
    while j < forwarded.len()
        invariant
            i == kept@.len(),
            j <= forwarded@.len(),
            out@ == kept@.map_values(|a: Attribute| AttrOut::Kept(a.id)) + forwarded@.subrange(
                0,
                j as int,
            ).map_values(|k: usize| AttrOut::Forwarded(k)),
        decreases forwarded@.len() - j,
    {
        out.push(AttrOut::Forwarded(forwarded[j]));
        j += 1;
        proof {
            assert(out@ =~= kept@.map_values(|a: Attribute| AttrOut::Kept(a.id)) + forwarded@.subrange(
                0,
                j as int,
            ).map_values(|k: usize| AttrOut::Forwarded(k)));
        }
    }
    proof {
        assert(kept@.subrange(0, kept@.len() as int) =~= kept@);
        assert(forwarded@.subrange(0, forwarded@.len() as int) =~= forwarded@);
    }
    out
}

proof fn lemma_directives_prefix(s: Seq<Attribute>, t: Seq<Attribute>, level: Level, n: nat)
    requires
        n <= s.len(),
        n <= t.len(),
        forall|k: int| 0 <= k < n ==> s[k] == t[k],
    ensures
        directives(s, level, n) == directives(t, level, n),
    decreases n,
{
    if n > 0 {
        lemma_directives_prefix(s, t, level, (n - 1) as nat);
    }
}

/// For any attributes of a container, variant or field, one more attribute
/// resolves as its effects applied in order after theirs; and each of its
/// effects, whatever the spelling and however many effects it has, that sets
/// an option already set before it keeps the option's first value and adds
/// exactly one pair of errors: at the new place and at the first one.
pub proof fn duplicate_attribute_reported(
    attrs: Seq<Attribute>,
    a: Attribute,
    level: Level,
    errors: Seq<Diagnostic>,
    j: int,
)
    requires
        0 <= j < attr_directives(a, level).len(),
    ensures
        ({
            let ds = directives(attrs, level, attrs.len());
            let ad = attr_directives(a, level);
            &&& resolved(attrs.push(a), level, errors) == run(initial(errors), ds + ad)
            &&& reports_duplicate(
                run(initial(errors), ds + ad.take(j)),
                run(initial(errors), ds + ad.take(j + 1)),
                ad[j],
            )
        }),
{
    let n = attrs.len();
    let ad = attr_directives(a, level);
    lemma_directives_prefix(attrs.push(a), attrs, level, n);
    let ds = directives(attrs, level, n);
    assert(directives(attrs.push(a), level, n + 1) =~= ds + ad);
    assert(ds + ad.take(j + 1) =~= (ds + ad.take(j)).push(ad[j]));
    duplicate_option_reported(initial(errors), ds + ad.take(j), ad[j]);
}

} // verus!
