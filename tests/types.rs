use borrowme::ty::{process_type, GenericArg, Lifetime, LifetimeUse, PathArgs, Segment, Ty, TypeHint};

fn path(name: &str) -> Ty {
    Ty::Path { leading_colon: false, segments: vec![Segment { ident: name.to_string(), args: PathArgs::Plain }] }
}

fn generic(name: &str, args: Vec<GenericArg>) -> Ty {
    Ty::Path { leading_colon: false, segments: vec![Segment { ident: name.to_string(), args: PathArgs::Angle(args) }] }
}

fn lt(name: &str, loc: u64) -> Lifetime {
    Lifetime { name: name.to_string(), loc }
}

fn reference(l: Option<&str>, loc: u64, elem: Ty) -> Ty {
    Ty::Reference { lifetime: l.map(|n| lt(n, loc)), mutable: false, elem: Box::new(elem), loc }
}

fn walk(ty: Ty) -> (TypeHint, bool, Ty, Vec<LifetimeUse>) {
    let mut out = Vec::new();
    let w = process_type(ty, &vec![], &mut out);
    (w.hint, w.reference, w.ty, out)
}

fn lifetimes(out: &[LifetimeUse]) -> Vec<(u64, Option<String>)> {
    out.iter().map(|l| (l.loc, l.name.clone())).collect()
}

#[test]
fn combine_is_and() {
    for (a, b, r) in [
        (TypeHint::Copy, TypeHint::Copy, TypeHint::Copy),
        (TypeHint::Copy, TypeHint::Unknown, TypeHint::Unknown),
        (TypeHint::Unknown, TypeHint::Copy, TypeHint::Unknown),
        (TypeHint::Unknown, TypeHint::Unknown, TypeHint::Unknown),
    ] {
        let mut h = a;
        h.combine(b);
        assert_eq!(h, r);
    }
}

#[test]
fn primitives_read_as_copy() {
    for name in ["u8", "u16", "u32", "u64", "u128", "usize", "i8", "i16", "i32", "i64", "i128", "isize", "f32", "f64", "bool"] {
        assert_eq!(walk(path(name)).0, TypeHint::Copy, "{}", name);
    }
    assert_eq!(walk(path("String")).0, TypeHint::Unknown);
}

#[test]
fn reference_collects_its_lifetime() {
    let (hint, reference, ty, out) = walk(reference(Some("a"), 4, path("str")));
    assert_eq!(hint, TypeHint::Unknown);
    assert!(reference);
    assert_eq!(lifetimes(&out), vec![(4, Some("a".to_string()))]);
    match ty {
        Ty::Reference { lifetime: Some(l), .. } => {
            assert_eq!(l.name, "static");
            assert_eq!(l.loc, 4);
        }
        _ => panic!("expected a reference"),
    }
}

#[test]
fn anonymous_reference() {
    let (_, reference, _, out) = walk(reference(None, 7, path("str")));
    assert!(reference);
    assert_eq!(lifetimes(&out), vec![(7, None)]);
}

#[test]
fn static_reference_is_copy() {
    let (hint, reference, _, out) = walk(reference(Some("static"), 1, path("str")));
    assert_eq!(hint, TypeHint::Copy);
    assert!(!reference);
    assert!(out.is_empty());
}

#[test]
fn tuple_is_copy_only_if_all_are() {
    assert_eq!(walk(Ty::Tuple(vec![path("u32"), path("u32")])).0, TypeHint::Copy);
    assert_eq!(walk(Ty::Tuple(vec![])).0, TypeHint::Copy);
    assert_eq!(walk(Ty::Tuple(vec![path("String"), path("u32")])).0, TypeHint::Unknown);
    assert_eq!(walk(Ty::Tuple(vec![path("u32"), path("String")])).0, TypeHint::Unknown);
    let (hint, _, _, out) = walk(Ty::Tuple(vec![path("u32"), reference(Some("a"), 3, path("str"))]));
    assert_eq!(hint, TypeHint::Unknown);
    assert_eq!(out.len(), 1);
}

#[test]
fn array_follows_its_element() {
    let arr = |elem: Ty| Ty::Array { elem: Box::new(elem), len: "8".to_string() };
    assert_eq!(walk(arr(path("u32"))).0, TypeHint::Copy);
    assert_eq!(walk(arr(path("String"))).0, TypeHint::Unknown);
    assert_eq!(walk(Ty::Slice(Box::new(path("u32")))).0, TypeHint::Unknown);
}

#[test]
fn bare_fn_binds_its_lifetimes() {
    let f = Ty::BareFn {
        lifetimes: vec!["b".to_string()],
        inputs: vec![reference(Some("b"), 2, path("str")), reference(Some("a"), 5, path("str"))],
        rest: String::new(),
    };
    let (hint, reference, _, out) = walk(f);
    assert_eq!(hint, TypeHint::Copy);
    assert!(!reference);
    assert_eq!(lifetimes(&out), vec![(5, Some("a".to_string()))]);
}

#[test]
fn generic_arguments() {
    let t = generic("Option", vec![GenericArg::Type(reference(Some("a"), 9, path("str")))]);
    let (hint, reference, ty, out) = walk(t);
    assert_eq!(hint, TypeHint::Unknown);
    assert!(!reference);
    assert_eq!(lifetimes(&out), vec![(9, Some("a".to_string()))]);
    match ty {
        Ty::Path { segments, .. } => match &segments[0].args {
            PathArgs::Angle(args) => match &args[0] {
                GenericArg::Type(Ty::Reference { lifetime: Some(l), .. }) => assert_eq!(l.name, "static"),
                _ => panic!("expected a reference argument"),
            },
            _ => panic!("expected arguments"),
        },
        _ => panic!("expected a path"),
    }
}

#[test]
fn every_non_static_argument_is_recorded() {
    let t = generic(
        "Thing",
        vec![GenericArg::Lifetime(lt("b", 1)), GenericArg::Lifetime(lt("static", 2)), GenericArg::Lifetime(lt("c", 3))],
    );
    let (_, _, ty, out) = walk(t);
    assert_eq!(lifetimes(&out), vec![(1, Some("b".to_string())), (3, Some("c".to_string()))]);
    match ty {
        Ty::Path { segments, .. } => match &segments[0].args {
            PathArgs::Angle(args) => {
                assert!(matches!(&args[0], GenericArg::Lifetime(l) if l.name == "static" && l.loc == 1));
                assert!(matches!(&args[1], GenericArg::Lifetime(l) if l.name == "static" && l.loc == 2));
                assert!(matches!(&args[2], GenericArg::Lifetime(l) if l.name == "static" && l.loc == 3));
            }
            _ => panic!("expected arguments"),
        },
        _ => panic!("expected a path"),
    }
}

#[test]
fn group_passes_reference_through() {
    let (_, reference, _, out) = walk(Ty::Group(Box::new(reference(Some("a"), 6, path("str")))));
    assert!(reference);
    assert_eq!(out.len(), 1);
}

#[test]
fn other_types_are_opaque() {
    let (hint, reference, ty, out) = walk(Ty::Other("dyn Fn()".to_string()));
    assert_eq!(hint, TypeHint::Unknown);
    assert!(!reference);
    assert!(out.is_empty());
    assert!(matches!(ty, Ty::Other(s) if s == "dyn Fn()"));
}
