use borrowme::attr::{Args, Attribute, Callee, FieldTypeKind, MetaValue, NestedMeta, PathSource, Source, Suffix};
use borrowme::ctxt::{Ctxt, Diagnostic, Problem, Setting};
use borrowme::implement::{
    expand, process_field, Access, BodyPlan, Call, Decl, DeclBody, Expr, FieldDecl, GenericParam,
    Member, OwnedTy, Pattern, Strategy, TargetArg, Variable, VariantDecl,
};
use borrowme::ty::{GenericArg, Lifetime, PathArgs, Segment, Ty};

fn word(id: usize, name: &str, loc: u64) -> Attribute {
    Attribute { id, name: name.to_string(), loc, args: Args::Word }
}

fn typed(id: usize, name: &str, loc: u64) -> Attribute {
    Attribute {
        id,
        name: name.to_string(),
        loc,
        args: Args::List { nested: None, is_meta: false, is_type: true },
    }
}

fn list(id: usize, loc: u64, items: Vec<NestedMeta>) -> Attribute {
    Attribute {
        id,
        name: "borrowme".to_string(),
        loc,
        args: Args::List { nested: Some(items), is_meta: true, is_type: false },
    }
}

fn key(k: &str, loc: u64) -> NestedMeta {
    NestedMeta { key: k.to_string(), loc, value: None }
}

fn key_value(k: &str, loc: u64, ident: Option<&str>, last_loc: u64) -> NestedMeta {
    NestedMeta {
        key: k.to_string(),
        loc,
        value: Some(MetaValue {
            ident: ident.map(|s| s.to_string()),
            is_path: true,
            is_type: true,
            last_loc,
        }),
    }
}

fn path(name: &str) -> Ty {
    Ty::Path {
        leading_colon: false,
        segments: vec![Segment { ident: name.to_string(), args: PathArgs::Plain }],
    }
}

fn reference(lt: Option<&str>, loc: u64, elem: Ty) -> Ty {
    Ty::Reference {
        lifetime: lt.map(|n| Lifetime { name: n.to_string(), loc }),
        mutable: false,
        elem: Box::new(elem),
        loc,
    }
}

fn field(ident: Option<&str>, ty: Ty, attrs: Vec<Attribute>, loc: u64) -> FieldDecl {
    FieldDecl { ident: ident.map(|s| s.to_string()), ty, attrs, loc }
}

fn lifetime_param() -> Vec<GenericParam> {
    vec![GenericParam { id: 0, is_lifetime: true }]
}

fn self_field(name: &str, by_ref: bool) -> Expr {
    Expr::SelfField { member: Member::Named(name.to_string()), by_ref, mutable: false }
}

fn is_self_field(e: &Expr, name: &str, by_ref: bool) -> bool {
    match e {
        Expr::SelfField { member: Member::Named(m), by_ref: r, mutable: false } => m == name && *r == by_ref,
        _ => false,
    }
}

fn is_call(e: &Expr, callee: Callee, inner: impl Fn(&Expr) -> bool) -> bool {
    match e {
        Expr::Call(c, arg) => *c == callee && inner(arg),
        _ => false,
    }
}

fn is_positional(e: &Expr, n: usize) -> bool {
    matches!(e, Expr::Var(Variable::Positional(i)) if *i == n)
}

#[test]
fn struct_with_reference_and_primitive() {
    let fields = vec![
        field(Some("text"), reference(Some("a"), 11, path("str")), vec![], 10),
        field(Some("count"), path("u32"), vec![], 20),
    ];
    let decl = Decl {
        ident: "Record".to_string(),
        attrs: vec![],
        generics: lifetime_param(),
        body: DeclBody::Struct(fields),
    };
    let x = match expand(&vec![], decl) {
        Ok(x) => x,
        Err(e) => panic!("unexpected errors: {:?}", e),
    };
    assert_eq!(x.owned_ident, "OwnedRecord");
    assert_eq!(x.borrowed_ident, "Record");
    assert!(x.owned_generics.is_empty());
    assert_eq!(x.target_args, vec![TargetArg::This]);
    let plans = match x.body {
        BodyPlan::Struct(p) => p,
        BodyPlan::Enum(_) => panic!("expected a struct"),
    };
    assert_eq!(plans.len(), 2);

    let text = &plans[0];
    assert_eq!(text.strategy, Strategy::Projection);
    match &text.owned_ty {
        OwnedTy::Projection(Ty::Reference { lifetime: Some(lt), elem, .. }) => {
            assert_eq!(lt.name, "static");
            assert!(matches!(&**elem, Ty::Path { segments, .. } if segments[0].ident == "str"));
        }
        _ => panic!("expected the projection of a static reference"),
    }
    assert!(is_call(&text.to_owned.expr, Callee::ToOwned, |e| is_self_field(e, "text", true)));
    assert!(is_call(&text.borrow.expr, Callee::Borrow, |e| is_self_field(e, "text", true)));

    let count = &plans[1];
    assert_eq!(count.strategy, Strategy::Copy);
    assert!(matches!(count.owned_ty, OwnedTy::Same));
    assert!(is_self_field(&count.to_owned.expr, "count", false));
    assert!(is_self_field(&count.borrow.expr, "count", false));
    assert!(matches!(&count.to_owned.member, Member::Named(m) if m == "count"));
    let _ = self_field("count", false);
}

#[test]
fn enum_with_empty_and_word_variants() {
    let variants = vec![
        VariantDecl { ident: "Empty".to_string(), attrs: vec![], fields: vec![] },
        VariantDecl {
            ident: "Word".to_string(),
            attrs: vec![],
            fields: vec![field(None, reference(Some("a"), 31, path("str")), vec![typed(7, "owned", 30)], 32)],
        },
    ];
    let decl = Decl {
        ident: "Token".to_string(),
        attrs: vec![],
        generics: lifetime_param(),
        body: DeclBody::Enum(variants),
    };
    let x = expand(&vec![], decl).ok().expect("expansion");
    assert_eq!(x.owned_ident, "OwnedToken");
    let vs = match x.body {
        BodyPlan::Enum(v) => v,
        BodyPlan::Struct(_) => panic!("expected an enum"),
    };
    assert_eq!(vs.len(), 2);
    assert_eq!(vs[0].ident, "Empty");
    assert!(vs[0].fields.is_empty());
    assert!(vs[0].patterns.is_empty());
    assert_eq!(vs[1].ident, "Word");
    assert_eq!(vs[1].patterns.len(), 1);
    assert!(matches!(
        vs[1].patterns[0],
        Pattern { member: Member::Unnamed(0), variable: Variable::Positional(0) }
    ));
    let w = &vs[1].fields[0];
    assert_eq!(w.strategy, Strategy::Owned);
    assert!(matches!(w.owned_ty, OwnedTy::Given(Source { attr: 7, item: None })));
    assert!(is_call(&w.to_owned.expr, Callee::ToOwned, |e| is_positional(e, 0)));
    assert!(is_call(&w.borrow.expr, Callee::Borrow, |e| is_positional(e, 0)));
    assert!(w.attrs.is_empty());
}

#[test]
fn copy_and_no_copy_conflict() {
    let attrs = vec![word(0, "copy", 40), word(1, "no_copy", 41)];
    let decl = Decl {
        ident: "Conflict".to_string(),
        attrs: vec![],
        generics: vec![],
        body: DeclBody::Struct(vec![field(Some("n"), path("u32"), attrs, 42)]),
    };
    let errors = match expand(&vec![], decl) {
        Err(e) => e,
        Ok(_) => panic!("a conflict must fail"),
    };
    assert_eq!(
        errors,
        vec![
            Diagnostic { loc: 41, problem: Problem::Duplicate(Setting::KindFromNoCopy) },
            Diagnostic { loc: 40, problem: Problem::ExistingHere },
        ]
    );
}

#[test]
fn conflict_keeps_first_kind() {
    let mut cx = Ctxt::new();
    let attrs = vec![word(0, "copy", 40), word(1, "no_copy", 41)];
    let plan = process_field(&mut cx, Access::SelfAccess, field(Some("n"), path("u32"), attrs, 42), 0, None);
    assert_eq!(plan.strategy, Strategy::Copy);
    assert_eq!(cx.errors.len(), 2);
}

#[test]
fn mutable_field_uses_borrow_mut() {
    let mut cx = Ctxt::new();
    let make = || vec![list(3, 50, vec![key_value("borrow_mut_with", 51, None, 52)])];
    let attrs = make();
    let ty = Ty::Reference {
        lifetime: Some(Lifetime { name: "a".to_string(), loc: 53 }),
        mutable: true,
        elem: Box::new(path("String")),
        loc: 53,
    };
    let plan = process_field(&mut cx, Access::SelfAccess, field(Some("buf"), ty, make(), 54), 0, None);
    assert!(plan.is_mut);
    let user = Callee::User(PathSource::Given(Source { attr: 3, item: Some(0) }));
    assert!(is_call(&plan.borrow_mut.expr, user, |e| matches!(
        e,
        Expr::SelfField { member: Member::Named(m), by_ref: true, mutable: true } if m == "buf"
    )));
    assert!(is_call(&plan.borrow.expr, Callee::Borrow, |e| is_self_field(e, "buf", true)));
    assert!(cx.errors.is_empty());
    let mut cx = Ctxt::new();
    let f = borrowme::attr::field(&mut cx, &attrs, None);
    assert!(f.is_mut());
    assert_eq!(f.borrow_mut(), Callee::User(PathSource::Given(Source { attr: 3, item: Some(0) })));
    assert_eq!(f.borrow(), Callee::Borrow);
}

#[test]
fn mut_key_marks_field_mutable() {
    let mut cx = Ctxt::new();
    let attrs = vec![list(0, 60, vec![key("mut", 61)])];
    let f = borrowme::attr::field(&mut cx, &attrs, None);
    assert!(f.is_mut());
    assert_eq!(f.borrow_mut(), Callee::BorrowMut);
}

#[test]
fn copy_field_with_lifetime_is_rejected() {
    let mut cx = Ctxt::new();
    let ty = reference(Some("a"), 71, path("str"));
    let plan = process_field(&mut cx, Access::SelfAccess, field(Some("s"), ty, vec![word(0, "copy", 70)], 72), 0, None);
    assert_eq!(plan.strategy, Strategy::Copy);
    assert_eq!(
        cx.errors,
        vec![
            Diagnostic { loc: 71, problem: Problem::LifetimeNotSupported },
            Diagnostic { loc: 72, problem: Problem::OwnedTypeHint },
        ]
    );
}

#[test]
fn copy_field_with_anonymous_reference_is_rejected() {
    let mut cx = Ctxt::new();
    let ty = reference(None, 81, path("str"));
    process_field(&mut cx, Access::SelfAccess, field(Some("s"), ty, vec![word(0, "copy", 80)], 82), 0, None);
    assert_eq!(
        cx.errors,
        vec![
            Diagnostic { loc: 81, problem: Problem::AnonymousReferenceNotSupported },
            Diagnostic { loc: 82, problem: Problem::OwnedTypeHint },
        ]
    );
}

#[test]
fn copy_field_with_static_reference_is_accepted() {
    let mut cx = Ctxt::new();
    let ty = reference(Some("static"), 91, path("str"));
    let plan = process_field(&mut cx, Access::SelfAccess, field(Some("s"), ty, vec![word(0, "copy", 90)], 92), 0, None);
    assert_eq!(plan.strategy, Strategy::Copy);
    assert!(cx.errors.is_empty());
}

#[test]
fn std_on_reference_beats_owned_type() {
    let mut cx = Ctxt::new();
    let attrs = vec![list(0, 100, vec![key("std", 101), key_value("owned", 102, None, 103)])];
    let ty = reference(Some("a"), 104, path("String"));
    let plan = process_field(&mut cx, Access::SelfAccess, field(Some("s"), ty, attrs, 105), 0, None);
    assert!(cx.errors.is_empty());
    assert_eq!(plan.strategy, Strategy::StdReference);
    assert!(matches!(plan.owned_ty, OwnedTy::Given(Source { attr: 0, item: Some(1) })));
    assert!(is_call(&plan.to_owned.expr, Callee::Clone, |e| is_self_field(e, "s", true)));
    assert!(is_self_field(&plan.borrow.expr, "s", true));
}

#[test]
fn std_with_owned_type_on_value_uses_delegates() {
    let mut cx = Ctxt::new();
    let attrs = vec![list(0, 100, vec![key("std", 101), key_value("owned", 102, None, 103)])];
    let plan = process_field(&mut cx, Access::SelfAccess, field(Some("v"), path("Thing"), attrs, 105), 0, None);
    assert_eq!(plan.strategy, Strategy::Owned);
    assert!(matches!(plan.owned_ty, OwnedTy::Given(Source { attr: 0, item: Some(1) })));
    assert!(is_call(&plan.to_owned.expr, Callee::ToOwned, |e| is_self_field(e, "v", true)));
    assert!(is_call(&plan.borrow.expr, Callee::Borrow, |e| is_self_field(e, "v", true)));
}

#[test]
fn std_on_reference_without_owned_type() {
    let mut cx = Ctxt::new();
    let attrs = vec![list(0, 100, vec![key("std", 101)])];
    let ty = reference(Some("a"), 104, path("String"));
    let plan = process_field(&mut cx, Access::SelfAccess, field(Some("s"), ty, attrs, 105), 0, None);
    assert_eq!(plan.strategy, Strategy::StdReference);
    assert!(matches!(&plan.owned_ty, OwnedTy::Referenced(Ty::Path { segments, .. }) if segments[0].ident == "String"));
}

#[test]
fn owned_type_beats_copy_hint() {
    let mut cx = Ctxt::new();
    let plan = process_field(&mut cx, Access::SelfAccess, field(Some("n"), path("u32"), vec![typed(0, "owned", 110)], 111), 0, None);
    assert_eq!(plan.strategy, Strategy::Owned);
}

#[test]
fn no_copy_on_copy_looking_type_projects() {
    let mut cx = Ctxt::new();
    let plan = process_field(&mut cx, Access::SelfAccess, field(Some("n"), path("u32"), vec![word(0, "no_copy", 120)], 121), 0, None);
    assert_eq!(plan.strategy, Strategy::Projection);
    assert!(matches!(&plan.owned_ty, OwnedTy::Projection(Ty::Path { segments, .. }) if segments[0].ident == "u32"));
    assert!(is_call(&plan.to_owned.expr, Callee::ToOwned, |e| is_self_field(e, "n", true)));
    assert!(is_call(&plan.borrow.expr, Callee::Borrow, |e| is_self_field(e, "n", true)));
}

#[test]
fn explicit_copy_beats_std() {
    let mut cx = Ctxt::new();
    let ty = reference(Some("a"), 131, path("str"));
    let kind = Some((130, FieldTypeKind::Std));
    let plan = process_field(&mut cx, Access::SelfAccess, field(Some("s"), ty, vec![list(0, 132, vec![key("copy", 133)])], 134), 0, kind);
    assert_eq!(plan.strategy, Strategy::Copy);
}

#[test]
fn with_derives_three_paths() {
    let mut cx = Ctxt::new();
    let attrs = vec![list(5, 140, vec![key_value("with", 141, None, 142)])];
    let f = borrowme::attr::field(&mut cx, &attrs, None);
    assert!(cx.errors.is_empty());
    let src = Source { attr: 5, item: Some(0) };
    assert_eq!(f.to_owned(), Callee::User(PathSource::With(src, Suffix::ToOwned)));
    assert_eq!(f.borrow(), Callee::User(PathSource::With(src, Suffix::Borrow)));
    assert_eq!(f.borrow_mut(), Callee::User(PathSource::With(src, Suffix::BorrowMut)));
    assert!(!f.is_mut());
    assert_eq!(f.to_owned.map(|p| p.0), Some(142));
}

#[test]
fn user_paths_are_called() {
    let mut cx = Ctxt::new();
    let attrs = vec![list(0, 150, vec![key_value("to_owned_with", 151, None, 152), key_value("borrow_with", 153, None, 154)])];
    let ty = reference(Some("a"), 155, path("Thing"));
    let plan = process_field(&mut cx, Access::BindingAccess, field(Some("t"), ty, attrs, 156), 0, None);
    assert_eq!(plan.strategy, Strategy::Projection);
    let to = Callee::User(PathSource::Given(Source { attr: 0, item: Some(0) }));
    let back = Callee::User(PathSource::Given(Source { attr: 0, item: Some(1) }));
    assert!(is_call(&plan.to_owned.expr, to, |e| matches!(e, Expr::Var(Variable::Named(n)) if n == "t")));
    assert!(is_call(&plan.borrow.expr, back, |e| matches!(e, Expr::Var(Variable::Named(n)) if n == "t")));
}

#[test]
fn container_name_and_kind() {
    let args = vec![list(0, 160, vec![key_value("name", 161, Some("Stored"), 162), key("std", 163)])];
    let decl = Decl {
        ident: "Record".to_string(),
        attrs: vec![word(1, "derive", 164)],
        generics: vec![GenericParam { id: 0, is_lifetime: true }, GenericParam { id: 1, is_lifetime: false }],
        body: DeclBody::Struct(vec![field(Some("a"), reference(Some("a"), 165, path("String")), vec![], 166)]),
    };
    let x = expand(&args, decl).ok().expect("expansion");
    assert_eq!(x.owned_ident, "Stored");
    assert_eq!(x.attrs.len(), 1);
    assert_eq!(x.attrs[0].name, "derive");
    assert_eq!(x.owned_generics, vec![GenericParam { id: 1, is_lifetime: false }]);
    assert_eq!(x.target_args, vec![TargetArg::This, TargetArg::Param(1)]);
    match x.body {
        BodyPlan::Struct(p) => assert_eq!(p[0].strategy, Strategy::StdReference),
        BodyPlan::Enum(_) => panic!("expected a struct"),
    }
}

#[test]
fn forwarded_attributes() {
    let fwd = |id: usize, name: &str| Attribute {
        id,
        name: name.to_string(),
        loc: 170,
        args: Args::List { nested: None, is_meta: true, is_type: false },
    };
    let decl = Decl {
        ident: "Record".to_string(),
        attrs: vec![fwd(0, "owned_attr"), fwd(1, "borrowed_attr"), word(2, "inline", 171)],
        generics: vec![],
        body: DeclBody::Struct(vec![]),
    };
    let x = expand(&vec![], decl).ok().expect("expansion");
    assert_eq!(x.forward.own, vec![0]);
    assert_eq!(x.forward.borrow, vec![1]);
    assert_eq!(x.attrs.len(), 1);
    assert_eq!(x.attrs[0].id, 2);
}

#[test]
fn variant_inherits_container_kind() {
    let args = vec![list(0, 180, vec![key("std", 181)])];
    let variants = vec![VariantDecl {
        ident: "V".to_string(),
        attrs: vec![],
        fields: vec![field(Some("a"), reference(Some("a"), 182, path("String")), vec![], 183)],
    }];
    let decl = Decl { ident: "E".to_string(), attrs: vec![], generics: lifetime_param(), body: DeclBody::Enum(variants) };
    let x = expand(&args, decl).ok().expect("expansion");
    match x.body {
        BodyPlan::Enum(v) => {
            assert_eq!(v[0].fields[0].strategy, Strategy::StdReference);
            assert!(matches!(&v[0].patterns[0], Pattern { member: Member::Named(m), variable: Variable::Named(n) } if m == "a" && n == "a"));
        }
        BodyPlan::Struct(_) => panic!("expected an enum"),
    }
}

#[test]
fn not_struct_or_enum() {
    let decl = Decl { ident: "f".to_string(), attrs: vec![], generics: vec![], body: DeclBody::Other(190) };
    match expand(&vec![], decl) {
        Err(e) => assert_eq!(e, vec![Diagnostic { loc: 190, problem: Problem::NotStructOrEnum }]),
        Ok(_) => panic!("only structs and enums expand"),
    }
}

#[test]
fn tuple_struct_uses_positions() {
    let decl = Decl {
        ident: "Unnamed".to_string(),
        attrs: vec![],
        generics: lifetime_param(),
        body: DeclBody::Struct(vec![field(None, reference(Some("a"), 200, path("str")), vec![typed(0, "owned", 201)], 202)]),
    };
    let x = expand(&vec![], decl).ok().expect("expansion");
    match x.body {
        BodyPlan::Struct(p) => {
            assert!(matches!(p[0].to_owned.member, Member::Unnamed(0)));
            assert!(is_call(&p[0].to_owned.expr, Callee::ToOwned, |e| matches!(
                e,
                Expr::SelfField { member: Member::Unnamed(0), by_ref: true, mutable: false }
            )));
        }
        BodyPlan::Enum(_) => panic!("expected a struct"),
    }
}

#[test]
fn call_as_expr_wraps_access() {
    let bound = borrowme::implement::BoundAccess {
        copy: false,
        mutable: false,
        access: Access::SelfAccess,
        binding: borrowme::implement::Binding::Unnamed(2),
    };
    let e = Call::Path(Callee::Clone).as_expr(&bound);
    assert!(is_call(&e, Callee::Clone, |e| matches!(e, Expr::SelfField { member: Member::Unnamed(2), by_ref: true, mutable: false })));
    let e = Call::Ref.as_expr(&bound);
    assert!(matches!(e, Expr::SelfField { member: Member::Unnamed(2), by_ref: true, mutable: false }));
}

#[test]
fn mutable_reference_is_inferred_mutable() {
    let mut cx = Ctxt::new();
    let ty = Ty::Reference {
        lifetime: Some(Lifetime { name: "a".to_string(), loc: 210 }),
        mutable: true,
        elem: Box::new(path("String")),
        loc: 210,
    };
    let plan = process_field(&mut cx, Access::SelfAccess, field(Some("buf"), ty, vec![], 211), 0, None);
    assert!(plan.is_mut);
    let plan = process_field(&mut cx, Access::SelfAccess, field(Some("s"), reference(Some("a"), 212, path("str")), vec![], 213), 1, None);
    assert!(!plan.is_mut);
    assert!(cx.errors.is_empty());
}

#[test]
fn mutable_field_plans_mutable_conversion() {
    let ty = Ty::Reference {
        lifetime: Some(Lifetime { name: "a".to_string(), loc: 220 }),
        mutable: true,
        elem: Box::new(path("String")),
        loc: 220,
    };
    let decl = Decl {
        ident: "Buf".to_string(),
        attrs: vec![],
        generics: lifetime_param(),
        body: DeclBody::Struct(vec![field(Some("b"), ty, vec![], 221), field(Some("n"), path("u32"), vec![], 222)]),
    };
    let x = expand(&vec![], decl).ok().expect("expansion");
    assert!(x.mutable);
    match x.body {
        BodyPlan::Struct(p) => {
            assert!(is_call(&p[0].borrow_mut.expr, Callee::BorrowMut, |e| matches!(
                e,
                Expr::SelfField { member: Member::Named(m), by_ref: true, mutable: true } if m == "b"
            )));
            assert!(is_self_field(&p[1].borrow_mut.expr, "n", false));
        }
        BodyPlan::Enum(_) => panic!("expected a struct"),
    }
}

#[test]
fn shared_fields_plan_no_mutable_conversion() {
    let decl = Decl {
        ident: "Plain".to_string(),
        attrs: vec![],
        generics: lifetime_param(),
        body: DeclBody::Struct(vec![field(Some("s"), reference(Some("a"), 230, path("str")), vec![], 231)]),
    };
    let x = expand(&vec![], decl).ok().expect("expansion");
    assert!(!x.mutable);
}

#[test]
fn copy_field_with_lifetime_after_static_argument_is_rejected() {
    let mut cx = Ctxt::new();
    let ty = Ty::Path {
        leading_colon: false,
        segments: vec![Segment {
            ident: "Foo".to_string(),
            args: PathArgs::Angle(vec![
                GenericArg::Lifetime(Lifetime { name: "static".to_string(), loc: 240 }),
                GenericArg::Type(reference(Some("a"), 241, path("str"))),
            ]),
        }],
    };
    process_field(&mut cx, Access::SelfAccess, field(Some("f"), ty, vec![word(0, "copy", 242)], 243), 0, None);
    assert_eq!(
        cx.errors,
        vec![
            Diagnostic { loc: 241, problem: Problem::LifetimeNotSupported },
            Diagnostic { loc: 243, problem: Problem::OwnedTypeHint },
        ]
    );
}

fn option_of(t: Ty) -> Ty {
    Ty::Path {
        leading_colon: false,
        segments: vec![Segment { ident: "Option".to_string(), args: PathArgs::Angle(vec![GenericArg::Type(t)]) }],
    }
}

#[test]
fn nested_mutable_reference_is_inferred_mutable() {
    let mut cx = Ctxt::new();
    let inner = Ty::Reference {
        lifetime: Some(Lifetime { name: "a".to_string(), loc: 250 }),
        mutable: true,
        elem: Box::new(path("String")),
        loc: 250,
    };
    let plan = process_field(&mut cx, Access::SelfAccess, field(Some("m"), option_of(inner), vec![], 251), 0, None);
    assert!(cx.errors.is_empty());
    assert!(plan.is_mut);
    assert_eq!(plan.strategy, Strategy::Projection);
    assert!(is_call(&plan.borrow_mut.expr, Callee::BorrowMut, |e| matches!(
        e,
        Expr::SelfField { member: Member::Named(m), by_ref: true, mutable: true } if m == "m"
    )));
    assert!(is_call(&plan.borrow.expr, Callee::Borrow, |e| is_self_field(e, "m", true)));
}

#[test]
fn mutable_reference_in_tuple_is_inferred_mutable() {
    let mut cx = Ctxt::new();
    let inner = Ty::Reference {
        lifetime: Some(Lifetime { name: "a".to_string(), loc: 260 }),
        mutable: true,
        elem: Box::new(path("str")),
        loc: 260,
    };
    let ty = Ty::Tuple(vec![path("u32"), inner]);
    let plan = process_field(&mut cx, Access::SelfAccess, field(Some("t"), ty, vec![], 261), 0, None);
    assert!(plan.is_mut);
}

#[test]
fn mutable_reference_in_fn_argument_is_not_held() {
    let mut cx = Ctxt::new();
    let arg = Ty::Reference { lifetime: None, mutable: true, elem: Box::new(path("String")), loc: 270 };
    let ty = Ty::BareFn { lifetimes: vec![], inputs: vec![arg], rest: String::new() };
    let plan = process_field(&mut cx, Access::SelfAccess, field(Some("f"), ty, vec![], 271), 0, None);
    assert!(!plan.is_mut);
    assert_eq!(plan.strategy, Strategy::Copy);
}

#[test]
fn copy_field_errors_one_pair_per_lifetime() {
    let mut cx = Ctxt::new();
    let ty = Ty::Tuple(vec![reference(Some("a"), 280, path("str")), reference(None, 281, path("str"))]);
    process_field(&mut cx, Access::SelfAccess, field(Some("p"), ty, vec![word(0, "copy", 282)], 283), 0, None);
    assert_eq!(
        cx.errors,
        vec![
            Diagnostic { loc: 280, problem: Problem::LifetimeNotSupported },
            Diagnostic { loc: 283, problem: Problem::OwnedTypeHint },
            Diagnostic { loc: 281, problem: Problem::AnonymousReferenceNotSupported },
            Diagnostic { loc: 283, problem: Problem::OwnedTypeHint },
        ]
    );
}

#[test]
fn copy_field_first_of_two_fails() {
    let fields = vec![
        field(Some("s"), reference(Some("a"), 290, path("str")), vec![word(0, "copy", 291)], 292),
        field(Some("n"), path("u32"), vec![], 293),
    ];
    let decl = Decl { ident: "R".to_string(), attrs: vec![], generics: lifetime_param(), body: DeclBody::Struct(fields) };
    match expand(&vec![], decl) {
        Err(e) => assert_eq!(
            e,
            vec![
                Diagnostic { loc: 290, problem: Problem::LifetimeNotSupported },
                Diagnostic { loc: 292, problem: Problem::OwnedTypeHint },
            ]
        ),
        Ok(_) => panic!("a copy field with a lifetime must fail"),
    }
}
