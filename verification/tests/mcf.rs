//! Plans of cancellable futures.

use buffex::mcf::contains::{
    lifetimes_contain, predicate_contains_lifetime, predicate_contains_type_param,
    ty_contains_lifetime, ty_contains_type_param,
};
use buffex::mcf::parse::{expand_parsed, expand_plan, ExpandError, Expansion, ParsedItem};
use buffex::mcf::plan::{
    build_generic_params, gen_may_cancel_future, FuturePlan, ParamToken, PlanError,
};
use buffex::mcf::rewrite::{
    collect_used_lifetimes, transform_output_lifetimes, transform_type_outer_lifetime,
};
use buffex::mcf::syntax::{
    AttrPath, Bound, FnInput, FnSig, GenericArg, FnParam, Lifetime, Segment, SegmentArgs, Ty,
    Predicate,
};

fn lt(name: &str) -> Lifetime {
    Lifetime::new(name.to_string())
}

fn plain(name: &str) -> Segment {
    Segment { ident: name.to_string(), args: SegmentArgs::Plain }
}

fn path(name: &str) -> Ty {
    Ty::Path { prefix: None, segments: vec![plain(name)] }
}

fn generic(name: &str, args: Vec<GenericArg>) -> Ty {
    Ty::Path {
        prefix: None,
        segments: vec![Segment { ident: name.to_string(), args: SegmentArgs::Angle(args) }],
    }
}

fn reference(lifetime: Option<&str>, mutable: bool, elem: Ty) -> Ty {
    Ty::Reference { lifetime: lifetime.map(lt), mutable, elem: Box::new(elem) }
}

fn outlives(a: &str, b: &str) -> Predicate {
    Predicate::Lifetime { lifetime: lt(a), outlives: vec![lt(b)] }
}

fn bound_by(name: &str, bound: &str) -> Predicate {
    Predicate::Type { bounded: path(name), bounds: vec![Bound::Trait(vec![plain(bound)])] }
}

fn prefix(name: &str) -> Vec<AttrPath> {
    vec![AttrPath { leading: false, segments: vec![plain(name)] }]
}

/// The type as source text, for comparison.
fn text(ty: &Ty) -> String {
    match ty {
        Ty::Reference { lifetime, mutable, elem } => format!(
            "&{}{}{}",
            lifetime.as_ref().map_or(String::new(), |l| format!("'{} ", l.ident)),
            if *mutable { "mut " } else { "" },
            text(elem)
        ),
        Ty::Path { segments, .. } => {
            segments.iter().map(segment_text).collect::<Vec<_>>().join("::")
        }
        Ty::Tuple(elems) => {
            format!("({})", elems.iter().map(text).collect::<Vec<_>>().join(", "))
        }
        Ty::Array(elem, key) => format!("[{}; #{key}]", text(elem)),
        Ty::Slice(elem) => format!("[{}]", text(elem)),
        Ty::Paren(elem) | Ty::Group(elem) => format!("({})", text(elem)),
        Ty::Other(key) => format!("#{key}"),
    }
}

fn segment_text(segment: &Segment) -> String {
    match &segment.args {
        SegmentArgs::Plain => segment.ident.clone(),
        SegmentArgs::Angle(args) => {
            let args: Vec<String> = args
                .iter()
                .map(|arg| match arg {
                    GenericArg::Lifetime(l) => format!("'{}", l.ident),
                    GenericArg::Type(ty) => text(ty),
                    GenericArg::Other(key) => format!("#{key}"),
                })
                .collect();
            format!("{}<{}>", segment.ident, args.join(", "))
        }
        SegmentArgs::Other(key) => format!("{}#{key}", segment.ident),
    }
}

fn names(list: &[Lifetime]) -> Vec<&str> {
    list.iter().map(|l| l.ident.as_str()).collect()
}

fn tokens(list: &[ParamToken]) -> String {
    list.iter()
        .map(|token| match token {
            ParamToken::Lifetime(l) => format!("'{}", l.ident),
            ParamToken::Type(name) => name.clone(),
            ParamToken::Comma => ", ".to_string(),
        })
        .collect()
}

/// `async fn do_thing_async<'a, 'b, 'x, 'c, A, B, C>(a: &'a mut A, b: &'b mut B, l: usize,
/// x: core::slice::Iter<'x, A>, cancel: &'c mut C) -> usize
/// where 'a: 'c, 'b: 'c, 'x: 'c, A: Send, B: Sync, C: TrCancellationToken`
fn do_thing() -> FnSig {
    FnSig {
        is_async: true,
        ident: "do_thing_async".to_string(),
        params: vec![
            FnParam::Lifetime(lt("a")),
            FnParam::Lifetime(lt("b")),
            FnParam::Lifetime(lt("x")),
            FnParam::Lifetime(lt("c")),
            FnParam::Type("A".to_string()),
            FnParam::Type("B".to_string()),
            FnParam::Type("C".to_string()),
        ],
        where_clause: Some(vec![
            outlives("a", "c"),
            outlives("b", "c"),
            outlives("x", "c"),
            bound_by("A", "Send"),
            bound_by("B", "Sync"),
            bound_by("C", "TrCancellationToken"),
        ]),
        inputs: vec![
            FnInput::Typed(0, reference(Some("a"), true, path("A"))),
            FnInput::Typed(1, reference(Some("b"), true, path("B"))),
            FnInput::Typed(2, path("usize")),
            FnInput::Typed(3, Ty::Path {
                prefix: None,
                segments: vec![
                    plain("core"),
                    plain("slice"),
                    Segment {
                        ident: "Iter".to_string(),
                        args: SegmentArgs::Angle(vec![
                            GenericArg::Lifetime(lt("x")),
                            GenericArg::Type(path("A")),
                        ]),
                    },
                ],
            }),
            FnInput::Typed(4, reference(Some("c"), true, path("C"))),
        ],
        output: Some(path("usize")),
    }
}

fn plan(name: &str, sig: &FnSig) -> FuturePlan {
    gen_may_cancel_future(&prefix(name), sig).expect("a plan")
}

#[test]
fn plan_of_do_thing() {
    let plan = plan("DoThing", &do_thing());
    assert_eq!(plan.async_struct, "DoThingAsync");
    assert_eq!(plan.future_struct, "DoThingFuture");
    assert_eq!(plan.factory_trait, "__DoThingFutureFactory");
    assert_eq!(plan.last_lt.ident, "c");
    assert_eq!(plan.cancel_type_param, "C");
    assert_eq!(
        plan.fields.iter().map(text).collect::<Vec<_>>(),
        vec!["&'c mut A", "&'c mut B", "usize", "core::slice::Iter<'x, A>"]
    );
    assert_eq!(plan.patterns, vec![0, 1, 2, 3]);
    assert_eq!(text(&plan.cancel_type), "&'c mut C");
    assert_eq!(text(&plan.output), "usize");
    assert_eq!(names(&plan.async_lifetimes), vec!["x", "c"]);
    assert_eq!(names(&plan.factory_outlives), vec!["x"]);
    assert_eq!(tokens(&plan.generics_async), "'x, 'c, A, B");
    assert_eq!(tokens(&plan.generics_future), "'x, 'c, A, B, C");
    assert_eq!(names(&plan.future_lifetimes), vec!["x", "c"]);
    assert_eq!(tokens(&plan.generics_future_no_cancel), "'x, 'c, A, B");
    assert_eq!(plan.where_async, vec![3, 4]);
    assert_eq!(plan.where_future, vec![3, 4, 5]);
}

#[test]
fn future_declares_the_lifetime_of_its_token() {
    // no argument but the token is a reference, and `'a` is left to the output alone
    let mut sig = borrow(reference(Some("a"), false, path("str")));
    sig.inputs[0] = FnInput::Typed(0, path("usize"));
    let plan = plan("Sleep", &sig);
    assert_eq!(text(&plan.fields[0]), "usize");
    assert_eq!(text(&plan.cancel_type), "&'c mut C");
    assert_eq!(text(&plan.output), "&'c str");
    assert!(plan.async_lifetimes.is_empty());
    assert!(plan.factory_outlives.is_empty());
    assert_eq!(names(&plan.future_lifetimes), vec!["c"]);
    assert_eq!(tokens(&plan.generics_async), "");
    assert_eq!(tokens(&plan.generics_future_no_cancel), "'c");
    assert_eq!(tokens(&plan.generics_future), "'c, C");
}

#[test]
fn kept_texts_are_handed_on() {
    let kept = vec!["first".to_string(), "second".to_string()];
    let sig = borrow(path("usize"));
    let made = match expand_parsed(&prefix("Get"), ParsedItem { sig, kept: kept.clone() }) {
        Ok(expansion) => expansion,
        Err(e) => panic!("{e:?}"),
    };
    assert_eq!(made.kept, kept);
    assert_eq!(made.plan.async_struct, "GetAsync");
    let parsed = ParsedItem { sig: borrow(path("usize")), kept };
    assert_eq!(expand_parsed(&vec![], parsed).err(), Some(PlanError::PrefixCount));
}

/// `async fn get<'a, 'c, C>(s: &'a str, _cancel: &'c mut C) -> output where 'a: 'c, ..`
fn borrow(output: Ty) -> FnSig {
    FnSig {
        is_async: true,
        ident: "get_async".to_string(),
        params: vec![
            FnParam::Lifetime(lt("a")),
            FnParam::Lifetime(lt("c")),
            FnParam::Type("C".to_string()),
        ],
        where_clause: Some(vec![outlives("a", "c"), bound_by("C", "TrCancellationToken")]),
        inputs: vec![
            FnInput::Typed(0, reference(Some("a"), false, path("str"))),
            FnInput::Typed(1, reference(Some("c"), true, path("C"))),
        ],
        output: Some(output),
    }
}

#[test]
fn returned_lifetimes_become_the_last() {
    let by_last = plan("GetRefByLastLt", &borrow(reference(Some("c"), false, path("str"))));
    assert_eq!(text(&by_last.output), "&'c str");
    let by_first = plan("GetRefByFirstLt", &borrow(reference(Some("a"), false, path("str"))));
    assert_eq!(text(&by_first.output), "&'c str");
    assert_eq!(text(&by_first.fields[0]), "&'c str");
    let borrowed = plan(
        "GetBorrowed",
        &borrow(generic("Borrowed", vec![GenericArg::Lifetime(lt("a"))])),
    );
    assert_eq!(text(&borrowed.output), "Borrowed<'c>");
    let fixed = plan("GetStatic", &borrow(reference(Some("static"), false, path("str"))));
    assert_eq!(text(&fixed.output), "&'static str");
    let elided = plan("GetElided", &borrow(reference(None, false, path("str"))));
    assert_eq!(text(&elided.output), "&str");
}

#[test]
fn inner_lifetimes_of_paths() {
    // segm: &'f mut Borrowed<'a, T>, value: &'f mut T, _cancel: &'f mut C
    let sig = FnSig {
        is_async: true,
        ident: "two_lt_inner_path_async_".to_string(),
        params: vec![
            FnParam::Lifetime(lt("a")),
            FnParam::Lifetime(lt("f")),
            FnParam::Type("T".to_string()),
            FnParam::Type("C".to_string()),
        ],
        where_clause: Some(vec![outlives("a", "f"), bound_by("C", "TrCancellationToken")]),
        inputs: vec![
            FnInput::Typed(0, reference(
                Some("f"),
                true,
                generic(
                    "Borrowed",
                    vec![GenericArg::Lifetime(lt("a")), GenericArg::Type(path("T"))],
                ),
            )),
            FnInput::Typed(1, reference(Some("f"), true, path("T"))),
            FnInput::Typed(2, reference(Some("f"), true, path("C"))),
        ],
        output: Some(path("usize")),
    };
    let plan = plan("TwoLtInnerPath", &sig);
    assert_eq!(plan.fields.len(), 2);
    assert_eq!(text(&plan.fields[1]), "&'f mut T");
    assert_eq!(text(&plan.fields[0]), "&'f mut Borrowed<'a, T>");
    assert_eq!(names(&plan.async_lifetimes), vec!["a", "f"]);
    assert_eq!(names(&plan.factory_outlives), vec!["a"]);
    assert_eq!(tokens(&plan.generics_async), "'a, 'f, T");
    assert_eq!(tokens(&plan.generics_future), "'a, 'f, T, C");
}

fn error(name: Vec<AttrPath>, sig: &FnSig) -> PlanError {
    match gen_may_cancel_future(&name, sig) {
        Err(e) => e,
        Ok(_) => panic!("no error"),
    }
}

#[test]
fn every_error_of_a_plan() {
    assert_eq!(error(vec![], &do_thing()), PlanError::PrefixCount);
    let mut two = prefix("A");
    two.extend(prefix("B"));
    assert_eq!(error(two, &do_thing()), PlanError::PrefixCount);
    let long = vec![AttrPath { leading: false, segments: vec![plain("a"), plain("B")] }];
    assert_eq!(error(long, &do_thing()), PlanError::PrefixIdent);
    let rooted = vec![AttrPath { leading: true, segments: vec![plain("B")] }];
    assert_eq!(error(rooted, &do_thing()), PlanError::PrefixIdent);

    let mut sig = do_thing();
    sig.is_async = false;
    assert_eq!(error(prefix("P"), &sig), PlanError::NotAsync);

    let mut sig = do_thing();
    sig.where_clause = None;
    assert_eq!(error(prefix("P"), &sig), PlanError::NoWhereClause);

    let mut sig = do_thing();
    sig.params.truncate(4);
    assert_eq!(error(prefix("P"), &sig), PlanError::NoTypeParam);

    let mut sig = do_thing();
    sig.params.drain(..4);
    assert_eq!(error(prefix("P"), &sig), PlanError::NoLifetime);

    let mut sig = do_thing();
    sig.inputs[0] = FnInput::Receiver;
    assert_eq!(error(prefix("P"), &sig), PlanError::Receiver);

    let mut sig = do_thing();
    sig.inputs[4] = FnInput::Typed(4, path("C"));
    assert_eq!(error(prefix("P"), &sig), PlanError::LastNotReference);

    let mut sig = do_thing();
    sig.inputs[4] = FnInput::Typed(4, reference(Some("c"), false, path("C")));
    assert_eq!(error(prefix("P"), &sig), PlanError::LastNotMut);

    let mut sig = do_thing();
    sig.inputs[4] = FnInput::Typed(4, reference(None, true, path("C")));
    assert_eq!(error(prefix("P"), &sig), PlanError::LastNoLifetime);

    let mut sig = do_thing();
    sig.inputs[4] = FnInput::Typed(4, reference(Some("x"), true, path("C")));
    assert_eq!(error(prefix("P"), &sig), PlanError::LastLifetime);

    let mut sig = do_thing();
    sig.inputs[4] = FnInput::Typed(4, reference(Some("c"), true, Ty::Tuple(vec![])));
    assert_eq!(error(prefix("P"), &sig), PlanError::LastNotPath);

    let mut sig = do_thing();
    let long = Ty::Path { prefix: None, segments: vec![plain("m"), plain("C")] };
    sig.inputs[4] = FnInput::Typed(4, reference(Some("c"), true, long));
    assert_eq!(error(prefix("P"), &sig), PlanError::LastNotSimple);

    let mut sig = do_thing();
    sig.inputs[4] = FnInput::Typed(4, reference(Some("c"), true, path("Token")));
    assert_eq!(error(prefix("P"), &sig), PlanError::LastNotParam);

    let mut sig = do_thing();
    sig.output = None;
    assert_eq!(error(prefix("P"), &sig), PlanError::NoReturnType);

    let mut sig = do_thing();
    sig.inputs.clear();
    assert_eq!(error(prefix("P"), &sig), PlanError::NoCancelArgument);
}

#[test]
fn errors_have_words() {
    assert_eq!(PlanError::PrefixCount.message(), "Expected exactly one identifier as prefix");
    assert_eq!(
        PlanError::NotAsync.message(),
        "`#[gen_may_cancel_future]` can only be applied to async functions"
    );
    assert_eq!(
        PlanError::LastLifetime.message(),
        "Last argument check: lifetime of cancellation token must be the last one"
    );
}

#[test]
fn rewriting_twice_changes_nothing_more() {
    let users = vec![lt("a"), lt("b"), lt("c")];
    let last = lt("c");
    let ty = Ty::Tuple(vec![
        reference(Some("a"), false, Ty::Slice(Box::new(reference(Some("b"), true, path("T"))))),
        generic("Map", vec![
            GenericArg::Lifetime(lt("b")),
            GenericArg::Lifetime(lt("static")),
            GenericArg::Type(Ty::Array(Box::new(reference(None, false, path("u8"))), 7)),
            GenericArg::Other(3),
        ]),
        Ty::Other(9),
    ]);
    let once = transform_output_lifetimes(&ty, &users, &last);
    assert_eq!(
        text(&once),
        "(&'c [&'c mut T], Map<'c, 'static, [&u8; #7], #3>, #9)"
    );
    let twice = transform_output_lifetimes(&once, &users, &last);
    assert_eq!(text(&twice), text(&once));
    // without users there is nothing to redirect
    assert_eq!(text(&transform_output_lifetimes(&ty, &vec![], &last)), text(&ty));
}

#[test]
fn references_move_to_the_last_lifetime() {
    let last = lt("c");
    let ty = reference(Some("a"), true, Ty::Paren(Box::new(reference(None, false, path("T")))));
    assert_eq!(text(&transform_type_outer_lifetime(&ty, &last)), "&'c mut (&'c T)");
}

#[test]
fn used_lifetimes_keep_their_order() {
    let all = vec![lt("a"), lt("b"), lt("c")];
    let types = vec![
        reference(Some("c"), true, path("A")),
        generic("Iter", vec![GenericArg::Lifetime(lt("a"))]),
    ];
    assert_eq!(names(&collect_used_lifetimes(&types, &all)), vec!["a", "c"]);
    assert!(collect_used_lifetimes(&vec![path("u8")], &all).is_empty());
    assert!(lifetimes_contain(&all, &lt("b")));
    assert!(!lifetimes_contain(&all, &lt("static")));
}

#[test]
fn searches_of_types_and_predicates() {
    let ty = generic("Map", vec![GenericArg::Type(reference(Some("a"), false, path("T")))]);
    assert!(ty_contains_lifetime(&ty, &lt("a")));
    assert!(!ty_contains_lifetime(&ty, &lt("b")));
    assert!(ty_contains_type_param(&ty, &"T".to_string()));
    assert!(!ty_contains_type_param(&ty, &"U".to_string()));

    assert!(predicate_contains_lifetime(&outlives("a", "c"), &lt("c")));
    assert!(predicate_contains_lifetime(&outlives("a", "c"), &lt("a")));
    assert!(!predicate_contains_lifetime(&outlives("a", "c"), &lt("b")));
    assert!(predicate_contains_type_param(&bound_by("C", "Send"), &"C".to_string()));
    assert!(!predicate_contains_type_param(&bound_by("A", "Send"), &"C".to_string()));
    let argument = Predicate::Type {
        bounded: path("T"),
        bounds: vec![Bound::Trait(vec![Segment {
            ident: "Tr".to_string(),
            args: SegmentArgs::Angle(vec![GenericArg::Type(reference(
                Some("c"),
                false,
                path("u8"),
            ))]),
        }])],
    };
    assert!(predicate_contains_lifetime(&argument, &lt("c")));
    assert!(!predicate_contains_lifetime(&argument, &lt("a")));
    let held = Predicate::Type { bounded: path("T"), bounds: vec![Bound::Lifetime(lt("c"))] };
    assert!(predicate_contains_lifetime(&held, &lt("c")));
    assert!(!predicate_contains_lifetime(&Predicate::Other(1), &lt("c")));
}

#[test]
fn parameter_lists_are_separated() {
    assert_eq!(tokens(&build_generic_params(&vec![], &vec![])), "");
    assert_eq!(tokens(&build_generic_params(&vec![lt("a")], &vec![])), "'a");
    assert_eq!(
        tokens(&build_generic_params(&vec![lt("a"), lt("b")], &vec!["T".to_string()])),
        "'a, 'b, T"
    );
}

#[test]
fn searches_reach_into_compound_types() {
    let inner = || reference(Some("a"), false, path("C"));
    let compound = vec![
        Ty::Tuple(vec![inner(), path("u8")]),
        Ty::Array(Box::new(inner()), 1),
        Ty::Slice(Box::new(inner())),
        Ty::Paren(Box::new(inner())),
        Ty::Group(Box::new(inner())),
    ];
    for ty in &compound {
        assert!(ty_contains_lifetime(ty, &lt("a")));
        assert!(!ty_contains_lifetime(ty, &lt("b")));
        assert!(ty_contains_type_param(ty, &"C".to_string()));
        assert!(!ty_contains_type_param(ty, &"D".to_string()));
    }
    assert!(!ty_contains_lifetime(&Ty::Other(1), &lt("a")));
}

const DO_THING: &str = "pub async fn do_thing_async<'a, 'b, 'x, 'c, A, B, C>(
    a: &'a mut A,
    b: &'b mut B,
    l: usize,
    x: core::slice::Iter<'x, A>,
    cancel: &'c mut C,
) -> usize
where
    'a: 'c,
    'b: 'c,
    'x: 'c,
    A: Send,
    B: Sync,
    C: TrCancellationToken,
{
    let _ = (a, b, l, x, cancel);
    42
}";

fn expand(attr: &str, item: &str) -> Expansion {
    match expand_plan(attr, item) {
        Ok(expansion) => expansion,
        Err(e) => panic!("{e:?}"),
    }
}

fn kept(expansion: &Expansion, key: usize) -> &str {
    &expansion.kept[key - 1]
}

#[test]
fn plan_from_text() {
    let made = expand("DoThing", DO_THING);
    let plan = &made.plan;
    assert_eq!(plan.async_struct, "DoThingAsync");
    assert_eq!(plan.future_struct, "DoThingFuture");
    assert_eq!(plan.factory_trait, "__DoThingFutureFactory");
    assert_eq!(
        plan.fields.iter().map(text).collect::<Vec<_>>(),
        vec!["&'c mut A", "&'c mut B", "usize", "core::slice::Iter<'x, A>"]
    );
    assert_eq!(
        plan.patterns.iter().map(|key| kept(&made, *key)).collect::<Vec<_>>(),
        vec!["a", "b", "l", "x"]
    );
    assert_eq!(text(&plan.cancel_type), "&'c mut C");
    assert_eq!(text(&plan.output), "usize");
    assert_eq!(tokens(&plan.generics_async), "'x, 'c, A, B");
    assert_eq!(tokens(&plan.generics_future), "'x, 'c, A, B, C");
    assert_eq!(plan.where_async, vec![3, 4]);
    assert_eq!(plan.where_future, vec![3, 4, 5]);
}

#[test]
fn every_part_of_a_signature_is_read() {
    let made = expand(
        "Mixed,",
        "async fn mixed<'a, 'c, const N: usize, T, C>(
            t: (&'a [T], u8),
            n: [&'a u8; N],
            f: fn(u8) -> u8,
            d: Box<dyn Fn(u8) -> u8>,
            p: <T as Iterator>::Item,
            g: (&T),
            q: ::std::vec::Vec<T>,
            i: Iter<Item = T>,
            c: &'c mut C,
        ) -> &'a T
        where
            T: Tr<&'c u8> + 'a + ?Sized,
            for<'h> &'h T: Copy,
            [C; 2]: Sized,
            C: Token {}",
    );
    let plan = &made.plan;
    let fields: Vec<String> = plan.fields.iter().map(text).collect();
    assert_eq!(fields[0], "(&'c [T], u8)");
    assert!(fields[1].starts_with("[&'c u8; #"));
    assert!(matches!(plan.fields[2], Ty::Other(_)));
    assert_eq!(fields[5], "(&'c T)");
    match &plan.fields[1] {
        Ty::Array(_, key) => assert_eq!(kept(&made, *key), "N"),
        _ => panic!("an array"),
    }
    for (place, start) in [(4, "<"), (6, "::")] {
        match &plan.fields[place] {
            Ty::Path { prefix: Some(key), .. } => assert!(kept(&made, *key).starts_with(start)),
            _ => panic!("a path with a prefix"),
        }
    }
    assert_eq!(text(&plan.output), "&'c T");
    // the tuple and the array put the last lifetime on the struct
    assert_eq!(names(&plan.async_lifetimes), vec!["c"]);
    assert_eq!(tokens(&plan.generics_async), "'c, T");
    // the first predicate names the last lifetime, the last two use the token
    assert_eq!(plan.where_future, vec![1, 2, 3]);
    assert_eq!(plan.where_async, vec![1]);
}

#[test]
fn texts_that_cannot_be_expanded() {
    assert!(matches!(expand_plan("1 + 1", DO_THING), Err(ExpandError::Attribute)));
    assert!(matches!(expand_plan("P", "struct S;"), Err(ExpandError::Item)));
    // the attribute is looked at first
    assert!(matches!(expand_plan("1 + 1", "struct S;"), Err(ExpandError::Attribute)));
    assert!(matches!(
        expand_plan("", DO_THING),
        Err(ExpandError::Plan(PlanError::PrefixCount))
    ));
    assert!(matches!(
        expand_plan("a::B", DO_THING),
        Err(ExpandError::Plan(PlanError::PrefixIdent))
    ));
    assert!(matches!(
        expand_plan("::B", DO_THING),
        Err(ExpandError::Plan(PlanError::PrefixIdent))
    ));
    assert!(matches!(
        expand_plan("B<u8>", DO_THING),
        Err(ExpandError::Plan(PlanError::PrefixIdent))
    ));
    assert!(matches!(
        expand_plan("P", "fn f() {}"),
        Err(ExpandError::Plan(PlanError::NotAsync))
    ));
    assert!(matches!(
        expand_plan("P", "async fn f<'c, C>(&self, c: &'c mut C) -> u8 where C: Token { 1 }"),
        Err(ExpandError::Plan(PlanError::Receiver))
    ));
}

#[test]
fn raw_prefix_loses_its_mark() {
    let made = expand("r#type", DO_THING);
    assert_eq!(made.plan.async_struct, "typeAsync");
    assert_eq!(made.plan.future_struct, "typeFuture");
    assert_eq!(made.plan.factory_trait, "__typeFutureFactory");
    let plan = plan("r", &do_thing());
    assert_eq!(plan.async_struct, "rAsync");
}
