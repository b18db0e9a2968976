//! What a cancellable future of an async function is made of.
//!
//! From the signature of an async function whose last argument is a cancellation token
//! `&'c mut C`, with `'c` its last lifetime, the plan gives the parts of two structs:
//! one that holds the other arguments, and one that holds the future.

use vstd::prelude::*;

use super::contains::{predicate_contains_lifetime, predicate_contains_type_param};
use super::rewrite::{
    collect_used_lifetimes, transform_output_lifetimes, transform_type_outer_lifetime,
};
use super::syntax::{
    AttrPath, FnInput, FnParam, FnSig, Lifetime, Predicate, Segment, SegmentArgs, Ty,
};

verus! {

/// Why no future can be planned.
#[derive(Debug, Clone, Copy, PartialEq, Eq, Structural)]
pub enum PlanError {
    /// The attribute has not exactly one argument.
    PrefixCount,
    /// The argument of the attribute is not an identifier.
    PrefixIdent,
    /// The function is not `async`.
    NotAsync,
    /// The function has no where clause.
    NoWhereClause,
    /// The function has no type parameter.
    NoTypeParam,
    /// The function has no named lifetime.
    NoLifetime,
    /// An argument is `self`.
    Receiver,
    /// The last argument is no reference.
    LastNotReference,
    /// The last argument is no `mut` reference.
    LastNotMut,
    /// The last argument has no lifetime.
    LastNoLifetime,
    /// The lifetime of the last argument is not the last one.
    LastLifetime,
    /// The last argument refers to no path.
    LastNotPath,
    /// The last argument refers to a path of several segments.
    LastNotSimple,
    /// The last argument refers to no type parameter.
    LastNotParam,
    /// The function returns nothing.
    NoReturnType,
    /// The function has no argument.
    NoCancelArgument,
}

impl PlanError {
    /// The words for the error.
    pub open spec fn words(self) -> Seq<char> {
        match self {
            PlanError::PrefixCount => "Expected exactly one identifier as prefix"@,
            PlanError::PrefixIdent => "Expected identifier as path"@,
            PlanError::NotAsync =>
                "`#[gen_may_cancel_future]` can only be applied to async functions"@,
            PlanError::NoWhereClause => "Function must have where clause for generics"@,
            PlanError::NoTypeParam => "Function must have at least one generic parameter"@,
            PlanError::NoLifetime => "Function must have at least one named lifetime"@,
            PlanError::Receiver => "Unsupported argument format"@,
            PlanError::LastNotReference =>
                "Last argument check: not reference type, must be like `&'f mut C`"@,
            PlanError::LastNotMut =>
                "Last argument check: not mut ref type, must be like `&'f mut C`"@,
            PlanError::LastNoLifetime =>
                "Last argument check: lifetime not fount, must declare a lifetime like `&'f mut C`"@,
            PlanError::LastLifetime =>
                "Last argument check: lifetime of cancellation token must be the last one"@,
            PlanError::LastNotPath =>
                "Last argument check: cancel token type must be simple type token"@,
            PlanError::LastNotSimple =>
                "Last argument check: cancel token type should be generic type param"@,
            PlanError::LastNotParam => "Last argument check: cancel token type mismatch"@,
            PlanError::NoReturnType => "Expected function to return a value"@,
            PlanError::NoCancelArgument => "Expected a cancellation token argument"@,
        }
    }

    /// The words for the error.
    pub fn message(&self) -> (words: &'static str)
        ensures
            words@ == self.words(),
    {
        match self {
            PlanError::PrefixCount => "Expected exactly one identifier as prefix",
            PlanError::PrefixIdent => "Expected identifier as path",
            PlanError::NotAsync =>
                "`#[gen_may_cancel_future]` can only be applied to async functions",
            PlanError::NoWhereClause => "Function must have where clause for generics",
            PlanError::NoTypeParam => "Function must have at least one generic parameter",
            PlanError::NoLifetime => "Function must have at least one named lifetime",
            PlanError::Receiver => "Unsupported argument format",
            PlanError::LastNotReference =>
                "Last argument check: not reference type, must be like `&'f mut C`",
            PlanError::LastNotMut =>
                "Last argument check: not mut ref type, must be like `&'f mut C`",
            PlanError::LastNoLifetime =>
                "Last argument check: lifetime not fount, must declare a lifetime like `&'f mut C`",
            PlanError::LastLifetime =>
                "Last argument check: lifetime of cancellation token must be the last one",
            PlanError::LastNotPath =>
                "Last argument check: cancel token type must be simple type token",
            PlanError::LastNotSimple =>
                "Last argument check: cancel token type should be generic type param",
            PlanError::LastNotParam => "Last argument check: cancel token type mismatch",
            PlanError::NoReturnType => "Expected function to return a value",
            PlanError::NoCancelArgument => "Expected a cancellation token argument",
        }
    }
}

/// A token of a list of generic parameters.
#[derive(Debug)]
pub enum ParamToken {
    /// A lifetime.
    Lifetime(Lifetime),
    /// A type.
    Type(String),
    /// The separator.
    Comma,
}

/// What a [`ParamToken`] means.
pub ghost enum TokenView {
    Lifetime(Seq<char>),
    Type(Seq<char>),
    Comma,
}

impl View for ParamToken {
    type V = TokenView;

    open spec fn view(&self) -> TokenView {
        match *self {
            ParamToken::Lifetime(lt) => TokenView::Lifetime(lt@),
            ParamToken::Type(name) => TokenView::Type(name@),
            ParamToken::Comma => TokenView::Comma,
        }
    }
}

/// The lifetimes followed by the types.
pub open spec fn params_in_order(lifetimes: Seq<Seq<char>>, types: Seq<Seq<char>>) -> Seq<
    TokenView,
> {
    lifetimes.map_values(|lt: Seq<char>| TokenView::Lifetime(lt)) + types.map_values(
        |name: Seq<char>| TokenView::Type(name),
    )
}

/// `items` with a separator between each two.
pub open spec fn separated(items: Seq<TokenView>) -> Seq<TokenView> {
    Seq::new(
        if items.len() == 0 {
            0
        } else {
            (2 * items.len() - 1) as nat
        },
        |k: int|
            if k % 2 == 0 {
                items[k / 2]
            } else {
                TokenView::Comma
            },
    )
}

/// The meanings of tokens.
pub open spec fn token_views(tokens: Seq<ParamToken>) -> Seq<TokenView> {
    tokens.map_values(|t: ParamToken| t@)
}

proof fn separated_push(items: Seq<TokenView>, item: TokenView)
    ensures
        separated(items.push(item)) == (if items.len() == 0 {
            seq![item]
        } else {
            separated(items).push(TokenView::Comma).push(item)
        }),
{
    let longer = separated(items.push(item));
    if items.len() == 0 {
        assert(longer =~= seq![item]);
    } else {
        let shorter = separated(items).push(TokenView::Comma).push(item);
        assert forall|k: int| 0 <= k < longer.len() implies longer[k] == shorter[k] by {
            if k % 2 == 0 {
                assert(k / 2 <= items.len());
            }
        }
        assert(longer =~= shorter);
    }
}

fn push_param(tokens: &mut Vec<ParamToken>, token: ParamToken, items: Ghost<Seq<TokenView>>)
    requires
        token_views(old(tokens)@) == separated(items@),
    ensures
        token_views(final(tokens)@) == separated(items@.push(token@)),
{
    let ghost before = tokens@;
    proof {
        separated_push(items@, token@);
    }
    if tokens.len() > 0 {
        tokens.push(ParamToken::Comma);
        tokens.push(token);
        assert(before.len() == token_views(before).len());
        assert(separated(items@).len() > 0);
        assert(token_views(tokens@) =~= token_views(before).push(TokenView::Comma).push(token@));
    } else {
        tokens.push(token);
        assert(separated(items@).len() == 0);
        assert(token_views(tokens@) =~= seq![token@]);
    }
}

/// A list of generic parameters: the lifetimes, the types, and the separators.
pub fn build_generic_params(lifetimes: &Vec<Lifetime>, type_params: &Vec<String>) -> (tokens: Vec<
    ParamToken,
>)
    ensures
        token_views(tokens@) == separated(
            params_in_order(
                super::syntax::lifetime_names(lifetimes@),
                super::syntax::name_views(type_params@),
            ),
        ),
{
    let ghost lts = super::syntax::lifetime_names(lifetimes@);
    let ghost names = super::syntax::name_views(type_params@);
    let ghost no_names = Seq::<Seq<char>>::empty();
    let mut tokens: Vec<ParamToken> = Vec::new();
    let mut i: usize = 0;
    assert(token_views(tokens@) =~= separated(params_in_order(lts.take(0), no_names)));
    while i < lifetimes.len()
        invariant
            lts == super::syntax::lifetime_names(lifetimes@),
            no_names == Seq::<Seq<char>>::empty(),
            i <= lifetimes@.len(),
            token_views(tokens@) == separated(params_in_order(lts.take(i as int), no_names)),
        decreases lifetimes@.len() - i,
    {
        let ghost items = params_in_order(lts.take(i as int), no_names);
        push_param(&mut tokens, ParamToken::Lifetime(lifetimes[i].duplicate()), Ghost(items));
        i = i + 1;
        assert(items.push(TokenView::Lifetime(lts[i - 1])) =~= params_in_order(
            lts.take(i as int),
            no_names,
        ));
    }
    assert(lts.take(i as int) =~= lts);
    assert(names.take(0) =~= no_names);
    let mut j: usize = 0;
    while j < type_params.len()
        invariant
            names == super::syntax::name_views(type_params@),
            j <= type_params@.len(),
            token_views(tokens@) == separated(params_in_order(lts, names.take(j as int))),
        decreases type_params@.len() - j,
    {
        let ghost items = params_in_order(lts, names.take(j as int));
        push_param(&mut tokens, ParamToken::Type(type_params[j].clone()), Ghost(items));
        j = j + 1;
        assert(items.push(TokenView::Type(names[j - 1])) =~= params_in_order(
            lts,
            names.take(j as int),
        ));
    }
    assert(names.take(j as int) =~= names);
    tokens
}

/// The type parameters, in their order.
pub open spec fn types_of(params: Seq<super::syntax::ParamView>) -> Seq<Seq<char>> {
    params.filter_map(
        |p: super::syntax::ParamView|
            match p {
                super::syntax::ParamView::Type(name) => Some(name),
                _ => None,
            },
    )
}

/// The lifetimes, in their order.
pub open spec fn lifetimes_of(params: Seq<super::syntax::ParamView>) -> Seq<Seq<char>> {
    params.filter_map(
        |p: super::syntax::ParamView|
            match p {
                super::syntax::ParamView::Lifetime(name) => Some(name),
                _ => None,
            },
    )
}

/// The type parameters but that in the last place of all, in their order.
pub open spec fn types_before_last(params: Seq<super::syntax::ParamView>) -> Seq<Seq<char>> {
    if params.len() == 0 {
        Seq::empty()
    } else {
        types_of(params.drop_last())
    }
}

/// The generic parameters, sorted by kind.
#[derive(Debug)]
pub struct Params {
    /// All type parameters.
    pub generics_all: Vec<String>,
    /// The type parameters but that in the last place of all.
    pub generics_no_cancel: Vec<String>,
    /// All lifetimes.
    pub lifetimes_all: Vec<Lifetime>,
}

/// Sort the generic parameters by kind.
pub fn split_params(params: &Vec<FnParam>) -> (sorted: Params)
    ensures
        super::syntax::name_views(sorted.generics_all@) == types_of(super::syntax::param_views(params@)),
        super::syntax::name_views(sorted.generics_no_cancel@) == types_before_last(
            super::syntax::param_views(params@),
        ),
        super::syntax::lifetime_names(sorted.lifetimes_all@) == lifetimes_of(super::syntax::param_views(params@)),
{
    let ghost views = super::syntax::param_views(params@);
    let mut generics_all: Vec<String> = Vec::new();
    let mut generics_no_cancel: Vec<String> = Vec::new();
    let mut lifetimes_all: Vec<Lifetime> = Vec::new();
    let mut i: usize = 0;
    assert(super::syntax::name_views(generics_all@) =~= types_of(views.take(0)));
    assert(super::syntax::lifetime_names(lifetimes_all@) =~= lifetimes_of(views.take(0)));
    while i < params.len()
        invariant
            views == super::syntax::param_views(params@),
            i <= params@.len(),
            super::syntax::name_views(generics_all@) == types_of(views.take(i as int)),
            super::syntax::lifetime_names(lifetimes_all@) == lifetimes_of(views.take(i as int)),
            super::syntax::name_views(generics_no_cancel@) == (if i < params@.len() {
                types_of(views.take(i as int))
            } else {
                types_before_last(views)
            }),
        decreases params@.len() - i,
    {
        proof {
            assert(views.take(i + 1).drop_last() =~= views.take(i as int));
            assert(views.take(i + 1).last() == params@[i as int]@);
            assert(views.take(params@.len() as int) =~= views);
        }
        let ghost all_before = generics_all@;
        let ghost none_before = generics_no_cancel@;
        let ghost lts_before = lifetimes_all@;
        match &params[i] {
            FnParam::Type(name) => {
                generics_all.push(name.clone());
                assert(super::syntax::name_views(generics_all@) =~= super::syntax::name_views(
                    all_before,
                ) + seq![name@]);
                if i < params.len() - 1 {
                    generics_no_cancel.push(name.clone());
                    assert(super::syntax::name_views(generics_no_cancel@)
                        =~= super::syntax::name_views(none_before) + seq![name@]);
                }
            },
            FnParam::Lifetime(lt) => {
                lifetimes_all.push(lt.duplicate());
                assert(super::syntax::lifetime_names(lifetimes_all@)
                    =~= super::syntax::lifetime_names(lts_before) + seq![lt@]);
            },
            FnParam::Const(_) => {},
        }
        i = i + 1;
    }
    assert(views.take(i as int) =~= views);
    Params { generics_all, generics_no_cancel, lifetimes_all }
}

/// The places of the predicates that do not name the lifetime `last_lt` and, unless it
/// is `None`, do not use the type parameter `cancel`.
pub open spec fn kept_predicates(
    preds: Seq<super::syntax::PredicateView>,
    last_lt: Seq<char>,
    cancel: Option<Seq<char>>,
) -> Seq<usize> {
    Seq::new(preds.len(), |i: int| i as usize).filter(
        |i: usize| predicate_is_kept(preds[i as int], last_lt, cancel),
    )
}

/// The predicate does not name the lifetime `last_lt` and, unless it is `None`, does not
/// use the type parameter `cancel`.
pub open spec fn predicate_is_kept(
    pred: super::syntax::PredicateView,
    last_lt: Seq<char>,
    cancel: Option<Seq<char>>,
) -> bool {
    &&& !super::contains::predicate_mentions(pred, last_lt)
    &&& cancel matches Some(name) ==> !super::contains::predicate_uses(pred, name)
}

/// The characters of a name that may be missing.
pub open spec fn optional_chars(name: Option<&String>) -> Option<Seq<char>> {
    match name {
        Some(n) => Some(n@),
        None => None,
    }
}

/// The places of the predicates that do not name `last_lt` and do not use `cancel`.
pub fn keep_predicates(
    preds: &Vec<Predicate>,
    last_lt: &Lifetime,
    cancel: Option<&String>,
) -> (kept: Vec<usize>)
    ensures
        kept@ == kept_predicates(super::syntax::predicate_views(preds@), last_lt@, optional_chars(cancel)),
{
    let ghost views = super::syntax::predicate_views(preds@);
    let ghost places = Seq::new(views.len(), |i: int| i as usize);
    let ghost name = optional_chars(cancel);
    let ghost keep = |i: usize| predicate_is_kept(views[i as int], last_lt@, name);
    let mut kept: Vec<usize> = Vec::new();
    let mut i: usize = 0;
    proof {
        reveal(Seq::filter);
        assert(kept@ =~= places.take(0).filter(keep));
    }
    while i < preds.len()
        invariant
            views == super::syntax::predicate_views(preds@),
            places == Seq::new(views.len(), |i: int| i as usize),
            name == optional_chars(cancel),
            keep == (|i: usize| predicate_is_kept(views[i as int], last_lt@, name)),
            i <= preds@.len(),
            kept@ == places.take(i as int).filter(keep),
        decreases preds@.len() - i,
    {
        proof {
            reveal(Seq::filter);
            assert(places.take(i + 1).drop_last() =~= places.take(i as int));
            assert(places.take(i + 1).last() == i);
            assert(views[i as int] == preds@[i as int]@);
        }
        let used = match cancel {
            Some(ident) => predicate_contains_type_param(&preds[i], ident),
            None => false,
        };
        if !used && !predicate_contains_lifetime(&preds[i], last_lt) {
            kept.push(i);
        }
        i = i + 1;
    }
    assert(places.take(i as int) =~= places);
    kept
}

/// What is wrong with the last argument `ty`, if anything: it has to be `&'c mut C` with
/// `'c` the last lifetime and `C` a type parameter.
pub open spec fn last_argument_error(
    ty: super::syntax::TyView,
    last_lt: Seq<char>,
    generics: Seq<Seq<char>>,
) -> Option<PlanError> {
    match ty {
        super::syntax::TyView::Reference { lifetime, mutable, elem } => if !mutable {
            Some(PlanError::LastNotMut)
        } else if lifetime is None {
            Some(PlanError::LastNoLifetime)
        } else if lifetime != Some(last_lt) {
            Some(PlanError::LastLifetime)
        } else {
            match *elem {
                super::syntax::TyView::Path { segments, .. } => if segments.len() != 1 {
                    Some(PlanError::LastNotSimple)
                } else if !generics.contains(segments[0].ident) {
                    Some(PlanError::LastNotParam)
                } else {
                    None
                },
                _ => Some(PlanError::LastNotPath),
            }
        },
        _ => Some(PlanError::LastNotReference),
    }
}

fn names_contain(names: &Vec<String>, name: &String) -> (found: bool)
    ensures
        found == super::syntax::name_views(names@).contains(name@),
{
    let ghost views = super::syntax::name_views(names@);
    let mut i: usize = 0;
    while i < names.len()
        invariant
            views == super::syntax::name_views(names@),
            i <= names@.len(),
            forall|k: int| 0 <= k < i ==> #[trigger] views[k] != name@,
        decreases names@.len() - i,
    {
        if names[i] == *name {
            assert(views[i as int] == name@);
            return true;
        }
        i = i + 1;
    }
    false
}

/// Check the last argument.
pub fn check_last_argument(ty: &Ty, last_lt: &Lifetime, generics: &Vec<String>) -> (error: Option<
    PlanError,
>)
    ensures
        error == last_argument_error(
            ty.view(),
            last_lt@,
            super::syntax::name_views(generics@),
        ),
{
    match ty {
        Ty::Reference { lifetime, mutable, elem } => {
            if !*mutable {
                return Some(PlanError::LastNotMut);
            }
            match lifetime {
                None => Some(PlanError::LastNoLifetime),
                Some(lt) => {
                    if !lt.same(last_lt) {
                        return Some(PlanError::LastLifetime);
                    }
                    match &**elem {
                        Ty::Path { segments, .. } => {
                            let ghost segs = elem.view()->Path_segments;
                            if segments.len() != 1 {
                                return Some(PlanError::LastNotSimple);
                            }
                            assert(segs[0] == segments@[0].view());
                            if !names_contain(generics, &segments[0].ident) {
                                return Some(PlanError::LastNotParam);
                            }
                            None
                        },
                        _ => Some(PlanError::LastNotPath),
                    }
                },
            }
        },
        _ => Some(PlanError::LastNotReference),
    }
}

/// One of the arguments is `self`.
pub open spec fn has_receiver(inputs: Seq<super::syntax::FnArgView>) -> bool {
    inputs.contains(super::syntax::FnArgView::Receiver)
}

/// The types of the arguments but the last, each with its references on `last_lt`.
pub open spec fn field_types(inputs: Seq<super::syntax::FnArgView>, last_lt: Seq<char>) -> Seq<
    super::syntax::TyView,
> {
    inputs.drop_last().map_values(
        |a: super::syntax::FnArgView|
            super::rewrite::rewritten(a->Typed_1, super::rewrite::RuleView::Unify(last_lt)),
    )
}

/// The patterns of the arguments but the last.
pub open spec fn field_patterns(inputs: Seq<super::syntax::FnArgView>) -> Seq<usize> {
    inputs.drop_last().map_values(|a: super::syntax::FnArgView| a->Typed_0)
}

/// The path is a single identifier.
pub open spec fn is_ident(path: super::syntax::PathView) -> bool {
    !path.leading && path.segments.len() == 1 && path.segments[0].args is Plain
}

/// An identifier without the mark of a raw one.
pub open spec fn stem(name: Seq<char>) -> Seq<char> {
    if name.len() >= 2 && name[0] == 'r' && name[1] == '#' {
        name.skip(2)
    } else {
        name
    }
}

fn stem_of(name: &String) -> (short: String)
    ensures
        short@ == stem(name@),
{
    let text = name.as_str();
    let len: usize = text.unicode_len();
    if len >= 2 && text.get_char(0) == 'r' && text.get_char(1) == '#' {
        let rest = text.substring_char(2, len);
        assert(rest@ =~= name@.skip(2));
        rest.to_owned()
    } else {
        name.clone()
    }
}

/// The first thing that stands in the way of a plan, if anything does.
pub open spec fn plan_error(
    prefix: Seq<super::syntax::PathView>,
    sig: super::syntax::SigView,
) -> Option<PlanError> {
    let params = sig.params;
    let inputs = sig.inputs;
    if prefix.len() != 1 {
        Some(PlanError::PrefixCount)
    } else if !is_ident(prefix[0]) {
        Some(PlanError::PrefixIdent)
    } else if !sig.is_async {
        Some(PlanError::NotAsync)
    } else if sig.where_clause is None {
        Some(PlanError::NoWhereClause)
    } else if types_of(params).len() == 0 {
        Some(PlanError::NoTypeParam)
    } else if lifetimes_of(params).len() == 0 {
        Some(PlanError::NoLifetime)
    } else if has_receiver(inputs) {
        Some(PlanError::Receiver)
    } else if inputs.len() > 0 && last_argument_error(
        inputs.last()->Typed_1,
        lifetimes_of(params).last(),
        types_of(params),
    ) is Some {
        last_argument_error(
            inputs.last()->Typed_1,
            lifetimes_of(params).last(),
            types_of(params),
        )
    } else if sig.output is None {
        Some(PlanError::NoReturnType)
    } else if inputs.len() == 0 {
        Some(PlanError::NoCancelArgument)
    } else {
        None
    }
}

/// The parts of the generated types.
#[derive(Debug)]
pub struct FuturePlan {
    /// The name of the struct that holds the arguments.
    pub async_struct: String,
    /// The name of the struct that holds the future.
    pub future_struct: String,
    /// The name of the trait that makes the future.
    pub factory_trait: String,
    /// The lifetime of the cancellation token.
    pub last_lt: Lifetime,
    /// The type parameter of the cancellation token.
    pub cancel_type_param: String,
    /// The types of the fields of the argument struct.
    pub fields: Vec<Ty>,
    /// The patterns of the arguments that the fields hold.
    pub patterns: Vec<usize>,
    /// The type of the token field.
    pub cancel_type: Ty,
    /// The output of the future.
    pub output: Ty,
    /// The lifetimes of the argument struct: those that a field names.
    pub async_lifetimes: Vec<Lifetime>,
    /// The lifetimes of the future struct: those that a field or the token field names.
    pub future_lifetimes: Vec<Lifetime>,
    /// The lifetimes that the factory has to state as outliving the last one.
    pub factory_outlives: Vec<Lifetime>,
    /// The generic parameters of the argument struct.
    pub generics_async: Vec<ParamToken>,
    /// The generic parameters of the future struct but that of the cancellation token.
    pub generics_future_no_cancel: Vec<ParamToken>,
    /// The generic parameters of the future struct.
    pub generics_future: Vec<ParamToken>,
    /// The places of the predicates on the argument struct; with none, the clause is
    /// `'static: 'static`.
    pub where_async: Vec<usize>,
    /// The places of the predicates on the future struct and on the factory.
    pub where_future: Vec<usize>,
}

/// `plan` is the plan for the signature.
pub open spec fn is_plan(
    plan: FuturePlan,
    prefix: Seq<super::syntax::PathView>,
    sig: super::syntax::SigView,
) -> bool {
    let params = sig.params;
    let inputs = sig.inputs;
    let preds = sig.where_clause->0;
    let name = stem(prefix[0].segments[0].ident);
    let lifetimes = lifetimes_of(params);
    let last_lt = lifetimes.last();
    let cancel = types_of(params).last();
    let fields = field_types(inputs, last_lt);
    let token = super::rewrite::rewritten(
        inputs.last()->Typed_1,
        super::rewrite::RuleView::Unify(last_lt),
    );
    let used = super::rewrite::used_lifetimes(fields, lifetimes);
    let used_in_future = super::rewrite::used_lifetimes(fields.push(token), lifetimes);
    &&& plan.async_struct@ == name + "Async"@
    &&& plan.future_struct@ == name + "Future"@
    &&& plan.factory_trait@ == "__"@ + name + "FutureFactory"@
    &&& plan.last_lt@ == last_lt
    &&& plan.cancel_type_param@ == cancel
    &&& super::syntax::ty_views(plan.fields@) == fields
    &&& plan.patterns@ == field_patterns(inputs)
    &&& plan.cancel_type.view() == token
    &&& plan.output.view() == super::rewrite::rewritten(
        sig.output->0,
        super::rewrite::RuleView::Redirect(lifetimes, last_lt),
    )
    &&& super::syntax::lifetime_names(plan.async_lifetimes@) == used
    &&& super::syntax::lifetime_names(plan.future_lifetimes@) == used_in_future
    &&& super::syntax::lifetime_names(plan.factory_outlives@) == names_but(used, last_lt)
    &&& token_views(plan.generics_async@) == separated(
        params_in_order(used, types_before_last(params)),
    )
    &&& token_views(plan.generics_future_no_cancel@) == separated(
        params_in_order(used_in_future, types_before_last(params)),
    )
    &&& token_views(plan.generics_future@) == separated(
        params_in_order(used_in_future, types_of(params)),
    )
    &&& plan.where_async@ == kept_predicates(preds, last_lt, Some(cancel))
    &&& plan.where_future@ == kept_predicates(preds, last_lt, None)
}

fn prefix_ident(prefix_args: &Vec<AttrPath>) -> (ident: Result<&String, PlanError>)
    ensures
        ({
            let prefix = super::syntax::attr_views(prefix_args@);
            match ident {
                Ok(name) => {
                    &&& prefix.len() == 1
                    &&& is_ident(prefix[0])
                    &&& name@ == prefix[0].segments[0].ident
                },
                Err(e) => if prefix.len() != 1 {
                    e == PlanError::PrefixCount
                } else {
                    e == PlanError::PrefixIdent && !is_ident(prefix[0])
                },
            }
        }),
{
    let ghost prefix = super::syntax::attr_views(prefix_args@);
    if prefix_args.len() != 1 {
        return Err(PlanError::PrefixCount);
    }
    let path = &prefix_args[0];
    assert(prefix[0] == path@);
    if path.leading || path.segments.len() != 1 {
        return Err(PlanError::PrefixIdent);
    }
    let segment: &Segment = &path.segments[0];
    assert(prefix[0].segments[0] == segment.view());
    match segment.args {
        SegmentArgs::Plain => Ok(&segment.ident),
        _ => Err(PlanError::PrefixIdent),
    }
}

/// The fields made of the arguments but the last, and the type of the last.
fn split_arguments<'a>(inputs: &'a Vec<FnInput>, last_lt: &Lifetime, generics: &Vec<String>) -> (split:
    Result<(Vec<Ty>, Vec<usize>, Option<&'a Ty>), PlanError>)
    ensures
        match split {
            Ok((fields, patterns, last)) => {
                let views = super::syntax::arg_views(inputs@);
                &&& !has_receiver(views)
                &&& last is None <==> views.len() == 0
                &&& last matches Some(ty) ==> {
                    &&& ty.view() == views.last()->Typed_1
                    &&& last_argument_error(
                        ty.view(),
                        last_lt@,
                        super::syntax::name_views(generics@),
                    ) is None
                    &&& super::syntax::ty_views(fields@) == field_types(views, last_lt@)
                    &&& patterns@ == field_patterns(views)
                }
            },
            Err(e) => {
                let views = super::syntax::arg_views(inputs@);
                if has_receiver(views) {
                    e == PlanError::Receiver
                } else {
                    &&& views.len() > 0
                    &&& last_argument_error(
                        views.last()->Typed_1,
                        last_lt@,
                        super::syntax::name_views(generics@),
                    ) == Some(e)
                }
            },
        },
{
    let ghost views = super::syntax::arg_views(inputs@);
    let mut fields: Vec<Ty> = Vec::new();
    let mut patterns: Vec<usize> = Vec::new();
    if inputs.len() == 0 {
        return Ok((fields, patterns, None));
    }
    let ghost want_types = field_types(views, last_lt@);
    let ghost want_patterns = field_patterns(views);
    let count: usize = inputs.len() - 1;
    let mut i: usize = 0;
    while i < count
        invariant
            views == super::syntax::arg_views(inputs@),
            want_types == field_types(views, last_lt@),
            want_patterns == field_patterns(views),
            count == inputs@.len() - 1,
            i <= count,
            forall|k: int| 0 <= k < i ==> !(#[trigger] views[k] is Receiver),
            super::syntax::ty_views(fields@) == want_types.take(i as int),
            patterns@ == want_patterns.take(i as int),
        decreases count - i,
    {
        assert(views[i as int] == inputs@[i as int]@);
        assert(views.drop_last()[i as int] == views[i as int]);
        match &inputs[i] {
            FnInput::Typed(pat, ty) => {
                let ghost fields_before = fields@;
                fields.push(transform_type_outer_lifetime(ty, last_lt));
                patterns.push(*pat);
                assert(super::syntax::ty_views(fields@) =~= super::syntax::ty_views(
                    fields_before,
                ).push(fields@.last().view()));
                assert(want_types.take(i + 1) =~= want_types.take(i as int).push(
                    want_types[i as int],
                ));
                assert(patterns@ =~= want_patterns.take(i + 1));
            },
            FnInput::Receiver => {
                return Err(PlanError::Receiver);
            },
        }
        i = i + 1;
    }
    assert(want_types.take(count as int) =~= want_types);
    assert(want_patterns.take(count as int) =~= want_patterns);
    assert(views.last() == inputs@[count as int]@);
    match &inputs[count] {
        FnInput::Typed(_, ty) => {
            assert forall|k: int| 0 <= k < views.len() implies views[k]
                != super::syntax::FnArgView::Receiver by {
                if k < count {
                    assert(!(views[k] is Receiver));
                }
            }
            match check_last_argument(ty, last_lt, generics) {
                Some(e) => Err(e),
                None => Ok((fields, patterns, Some(ty))),
            }
        },
        FnInput::Receiver => {
            assert(views[count as int] == super::syntax::FnArgView::Receiver);
            Err(PlanError::Receiver)
        },
    }
}

/// Those of `names` that are not `last`, in their order.
pub open spec fn names_but(names: Seq<Seq<char>>, last: Seq<char>) -> Seq<Seq<char>> {
    names.filter(differs_from(last))
}

/// Being another name than `last`.
pub open spec fn differs_from(last: Seq<char>) -> spec_fn(Seq<char>) -> bool {
    |name: Seq<char>| name != last
}

fn lifetimes_but(lifetimes: &Vec<Lifetime>, last_lt: &Lifetime) -> (others: Vec<Lifetime>)
    ensures
        super::syntax::lifetime_names(others@) == names_but(
            super::syntax::lifetime_names(lifetimes@),
            last_lt@,
        ),
{
    let ghost names = super::syntax::lifetime_names(lifetimes@);
    let ghost keep = differs_from(last_lt@);
    let mut others: Vec<Lifetime> = Vec::new();
    let mut i: usize = 0;
    proof {
        reveal(Seq::filter);
        assert(super::syntax::lifetime_names(others@) =~= names.take(0).filter(keep));
    }
    while i < lifetimes.len()
        invariant
            names == super::syntax::lifetime_names(lifetimes@),
            keep == differs_from(last_lt@),
            i <= lifetimes@.len(),
            super::syntax::lifetime_names(others@) == names.take(i as int).filter(keep),
        decreases lifetimes@.len() - i,
    {
        proof {
            reveal(Seq::filter);
            assert(names.take(i + 1).drop_last() =~= names.take(i as int));
            assert(names.take(i + 1).last() == lifetimes@[i as int]@);
        }
        let ghost before = others@;
        if !lifetimes[i].same(last_lt) {
            others.push(lifetimes[i].duplicate());
            assert(super::syntax::lifetime_names(others@) =~= super::syntax::lifetime_names(
                before,
            ).push(lifetimes@[i as int]@));
        }
        i = i + 1;
    }
    assert(names.take(i as int) =~= names);
    others
}

/// Plan the cancellable future of the function `sig`. `prefix_args` are the arguments of
/// the attribute: one identifier, from which the generated names are made.
pub fn gen_may_cancel_future(prefix_args: &Vec<AttrPath>, sig: &FnSig) -> (plan: Result<
    FuturePlan,
    PlanError,
>)
    ensures
        match plan {
            Ok(p) => {
                &&& plan_error(super::syntax::attr_views(prefix_args@), sig@) is None
                &&& is_plan(p, super::syntax::attr_views(prefix_args@), sig@)
            },
            Err(e) => plan_error(super::syntax::attr_views(prefix_args@), sig@) == Some(e),
        },
{
    let prefix = match prefix_ident(prefix_args) {
        Ok(prefix) => prefix,
        Err(e) => return Err(e),
    };
    if !sig.is_async {
        return Err(PlanError::NotAsync);
    }
    let preds = match &sig.where_clause {
        Some(preds) => preds,
        None => return Err(PlanError::NoWhereClause),
    };
    let params = split_params(&sig.params);
    if params.generics_all.len() == 0 {
        return Err(PlanError::NoTypeParam);
    }
    if params.lifetimes_all.len() == 0 {
        return Err(PlanError::NoLifetime);
    }
    let last_lt = params.lifetimes_all[params.lifetimes_all.len() - 1].duplicate();
    let cancel_type_param = params.generics_all[params.generics_all.len() - 1].clone();
    let where_async = keep_predicates(preds, &last_lt, Some(&cancel_type_param));
    let where_future = keep_predicates(preds, &last_lt, None);
    let (mut fields, patterns, last_ty) = match split_arguments(
        &sig.inputs,
        &last_lt,
        &params.generics_all,
    ) {
        Ok(split) => split,
        Err(e) => return Err(e),
    };
    let output_ty = match &sig.output {
        Some(ty) => ty,
        None => return Err(PlanError::NoReturnType),
    };
    let cancel_ty = match last_ty {
        Some(ty) => ty,
        None => return Err(PlanError::NoCancelArgument),
    };
    let async_lifetimes = collect_used_lifetimes(&fields, &params.lifetimes_all);
    let factory_outlives = lifetimes_but(&async_lifetimes, &last_lt);
    let generics_async = build_generic_params(&async_lifetimes, &params.generics_no_cancel);
    let ghost own_fields = fields@;
    let count: usize = fields.len();
    fields.push(transform_type_outer_lifetime(cancel_ty, &last_lt));
    proof {
        assert(super::syntax::ty_views(fields@) =~= super::syntax::ty_views(own_fields).push(
            fields@.last().view(),
        ));
    }
    let future_lifetimes = collect_used_lifetimes(&fields, &params.lifetimes_all);
    let cancel_type = fields.remove(count);
    assert(fields@ =~= own_fields);
    let generics_future_no_cancel = build_generic_params(
        &future_lifetimes,
        &params.generics_no_cancel,
    );
    let generics_future = build_generic_params(&future_lifetimes, &params.generics_all);
    let output = transform_output_lifetimes(output_ty, &params.lifetimes_all, &last_lt);
    let name = stem_of(prefix);
    let async_struct = name.clone().concat("Async");
    let future_struct = name.clone().concat("Future");
    let factory_trait = "__".to_owned().concat(name.as_str()).concat("FutureFactory");
    Ok(
        FuturePlan {
            async_struct,
            future_struct,
            factory_trait,
            last_lt,
            cancel_type_param,
            fields,
            patterns,
            cancel_type,
            output,
            async_lifetimes,
            future_lifetimes,
            factory_outlives,
            generics_async,
            generics_future_no_cancel,
            generics_future,
            where_async,
            where_future,
        },
    )
}

} // verus!
