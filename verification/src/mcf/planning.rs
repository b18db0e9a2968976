//! What a plan is made of, in terms of the signature that was written.

use vstd::prelude::*;

use super::contains::{
    predicate_contains_lifetime, predicate_contains_type_param, ty_contains_lifetime,
    ty_contains_type_param,
};
use super::occurrence::{
    lifetime_replaced, name_replaced, renamed, renamed_arg, renamed_predicate, renamed_segment,
    same_name, Renaming,
};
use super::parse::{expand_plan, ExpandError, Expansion};
use super::plan::{
    build_generic_params, check_last_argument, gen_may_cancel_future, keep_predicates, FuturePlan,
    PlanError, TokenView,
};
use super::rewrite::{
    collect_used_lifetimes, transform_output_lifetimes, transform_type_outer_lifetime,
};
use super::syntax::{
    ArgView, AttrPath, FnArgView, FnSig, Lifetime, ParamView, Predicate, PredicateView, SegmentView,
    Ty, TyView,
};

verus! {

/// A predicate is kept iff the lifetime does not occur in it and neither does the type
/// parameter, if one is given: iff replacing them by others leaves it as it is. The kept ones
/// stay in their order.
#[verifier::rlimit(40)]
pub proof fn predicates_without_the_names_are_kept(
    preds: &Vec<Predicate>,
    last_lt: &Lifetime,
    cancel: Option<&String>,
    kept: Vec<usize>,
    place: usize,
    new_lt: Seq<char>,
    new_name: Seq<char>,
)
    requires
        call_ensures(keep_predicates, (preds, last_lt, cancel), kept),
        new_lt != last_lt@,
        cancel matches Some(name) ==> new_name != name@,
    ensures
        kept@.contains(place) <==> {
            &&& place < preds@.len()
            &&& renamed_predicate(preds@[place as int]@, lifetime_replaced(last_lt@, new_lt))
                == preds@[place as int]@
            &&& cancel matches Some(name) ==> renamed_predicate(
                preds@[place as int]@,
                name_replaced(name@, new_name),
            ) == preds@[place as int]@
        },
        forall|i: int, j: int| 0 <= i < j < kept@.len() ==> kept@[i] < kept@[j],
{
    let views = super::syntax::predicate_views(preds@);
    let name = super::plan::optional_chars(cancel);
    assert(preds@.len() == preds.len());
    super::laws::kept_predicates_are_clean(views, last_lt@, name, place);
    if place < preds@.len() {
        assert(views[place as int] == preds@[place as int]@);
        super::occurrence::lifetime_occurs_in_predicate(views[place as int], last_lt@, new_lt);
        if let Some(n) = cancel {
            super::occurrence::name_occurs_in_predicate(views[place as int], n@, new_name);
        }
    }
    kept_in_order(views, last_lt@, name);
}

proof fn kept_in_order(preds: Seq<PredicateView>, last_lt: Seq<char>, cancel: Option<Seq<char>>)
    requires
        preds.len() <= usize::MAX,
    ensures
        ({
            let kept = super::plan::kept_predicates(preds, last_lt, cancel);
            forall|i: int, j: int| 0 <= i < j < kept.len() ==> kept[i] < kept[j]
        }),
{
    let keep = |i: usize| super::plan::predicate_is_kept(preds[i as int], last_lt, cancel);
    let places = Seq::new(preds.len(), |i: int| i as usize);
    chosen_in_order(places, keep);
}

proof fn chosen_in_order(places: Seq<usize>, keep: spec_fn(usize) -> bool)
    requires
        forall|i: int, j: int| 0 <= i < j < places.len() ==> places[i] < places[j],
    ensures
        forall|i: int, j: int|
            0 <= i < j < places.filter(keep).len() ==> places.filter(keep)[i] < places.filter(
                keep,
            )[j],
        forall|i: int|
            0 <= i < places.filter(keep).len() ==> places.contains(
                #[trigger] places.filter(keep)[i],
            ),
    decreases places.len(),
{
    reveal(Seq::filter);
    if places.len() > 0 {
        let rest = places.drop_last();
        chosen_in_order(rest, keep);
        let sub = rest.filter(keep);
        let whole = places.filter(keep);
        let last = places.last();
        assert(whole == if keep(last) {
            sub.push(last)
        } else {
            sub
        });
        assert forall|i: int| 0 <= i < sub.len() implies sub[i] < last && places.contains(
            #[trigger] sub[i],
        ) by {
            assert(rest.contains(sub[i]));
            let k = rest.index_of(sub[i]);
            assert(places[k] == sub[i]);
            assert(places[k] < places[places.len() - 1]);
        }
        assert(places.contains(places[places.len() - 1]));
        assert forall|i: int, j: int| 0 <= i < j < whole.len() implies whole[i] < whole[j] by {
            if j == sub.len() {
                assert(sub[i] < last);
            }
        }
        assert forall|i: int| 0 <= i < whole.len() implies places.contains(#[trigger] whole[i]) by {
            if i < sub.len() {
                assert(whole[i] == sub[i]);
            }
        }
    }
}

/// Every reference is on the lifetime `lt`; all else stays.
pub open spec fn references_on(lt: Seq<char>) -> Renaming {
    Renaming {
        reference: |x: Option<Seq<char>>| Some(lt),
        argument: same_name(),
        last_name: same_name(),
        bound: same_name(),
        trait_argument: same_name(),
        trait_name: same_name(),
        outlives: same_name(),
    }
}

/// `last` if `lt` is one of `users`.
pub open spec fn user_or_last(users: Seq<Seq<char>>, last: Seq<char>, lt: Seq<char>) -> Seq<char> {
    if users.contains(lt) {
        last
    } else {
        lt
    }
}

/// Every lifetime of `users` becomes `last`; all else stays.
pub open spec fn users_on(users: Seq<Seq<char>>, last: Seq<char>) -> Renaming {
    Renaming {
        reference: |x: Option<Seq<char>>|
            match x {
                Some(lt) => Some(user_or_last(users, last, lt)),
                None => None,
            },
        argument: |lt: Seq<char>| user_or_last(users, last, lt),
        last_name: same_name(),
        bound: same_name(),
        trait_argument: same_name(),
        trait_name: same_name(),
        outlives: same_name(),
    }
}

/// Rewriting changes lifetimes alone. An argument type gets every reference on the last
/// lifetime and keeps the lifetimes among its arguments; a return type gets every lifetime of
/// the user, and no other, replaced by the last.
pub proof fn rewriting_is_renaming(ty: TyView, users: Seq<Seq<char>>, last: Seq<char>)
    ensures
        super::rewrite::rewritten(ty, super::rewrite::RuleView::Unify(last)) == renamed(
            ty,
            references_on(last),
        ),
        super::rewrite::rewritten(ty, super::rewrite::RuleView::Redirect(users, last)) == renamed(
            ty,
            users_on(users, last),
        ),
{
    rewriting_renames(ty, super::rewrite::RuleView::Unify(last), references_on(last));
    rewriting_renames(ty, super::rewrite::RuleView::Redirect(users, last), users_on(users, last));
}

/// The rule and the renaming do the same to lifetimes, and the renaming keeps names.
spec fn rule_is(rule: super::rewrite::RuleView, by: Renaming) -> bool {
    &&& forall|x: Option<Seq<char>>| #[trigger] rule.on_reference(x) == (by.reference)(x)
    &&& forall|x: Seq<char>| #[trigger] rule.on_argument(x) == (by.argument)(x)
    &&& by.last_name == same_name()
}

proof fn rewriting_renames(ty: TyView, rule: super::rewrite::RuleView, by: Renaming)
    requires
        rule_is(rule, by),
    ensures
        super::rewrite::rewritten(ty, rule) == renamed(ty, by),
    decreases ty,
{
    let a = super::rewrite::rewritten(ty, rule);
    let b = renamed(ty, by);
    match ty {
        TyView::Reference { lifetime, elem, .. } => {
            assert(rule.on_reference(lifetime) == (by.reference)(lifetime));
            rewriting_renames(*elem, rule, by);
        },
        TyView::Path { segments, .. } => {
            assert forall|i: int| 0 <= i < segments.len() implies a.path()[i] == b.path()[i] by {
                rewriting_renames_segment(segments[i], i == segments.len() - 1, rule, by);
            }
            assert(a.path() =~= b.path());
        },
        TyView::Tuple(elems) => {
            assert forall|i: int| 0 <= i < elems.len() implies a.elems()[i] == b.elems()[i] by {
                rewriting_renames(elems[i], rule, by);
            }
            assert(a.elems() =~= b.elems());
        },
        TyView::Array(elem, _) => rewriting_renames(*elem, rule, by),
        TyView::Slice(elem) => rewriting_renames(*elem, rule, by),
        TyView::Paren(elem) => rewriting_renames(*elem, rule, by),
        TyView::Group(elem) => rewriting_renames(*elem, rule, by),
        TyView::Other(_) => {},
    }
}

proof fn rewriting_renames_segment(
    seg: SegmentView,
    last: bool,
    rule: super::rewrite::RuleView,
    by: Renaming,
)
    requires
        rule_is(rule, by),
    ensures
        super::rewrite::rewritten_segment(seg, rule) == renamed_segment(seg, last, by),
    decreases seg,
{
    let a = super::rewrite::rewritten_segment(seg, rule);
    let b = renamed_segment(seg, last, by);
    assert forall|j: int| 0 <= j < seg.angle().len() implies a.angle()[j] == b.angle()[j] by {
        let arg = seg.angle()[j];
        assert(a.angle()[j] == super::rewrite::rewritten_arg(arg, rule));
        assert(b.angle()[j] == renamed_arg(arg, by));
        match arg {
            ArgView::Type(ty) => rewriting_renames(ty, rule, by),
            ArgView::Lifetime(lt) => {
                assert(rule.on_argument(lt) == (by.argument)(lt));
            },
            ArgView::Other(_) => {},
        }
    }
    assert(a.angle() =~= b.angle());
}

/// The parameters are sorted by kind, in their order: one more type parameter is one more type
/// at the end, one more lifetime is one more lifetime at the end, and one more constant is
/// neither.
pub proof fn parameters_are_sorted(params: Seq<ParamView>, name: Seq<char>, key: usize)
    ensures
        super::plan::types_of(Seq::empty()) == Seq::<Seq<char>>::empty(),
        super::plan::lifetimes_of(Seq::empty()) == Seq::<Seq<char>>::empty(),
        super::plan::types_of(params.push(ParamView::Type(name))) == super::plan::types_of(
            params,
        ).push(name),
        super::plan::types_of(params.push(ParamView::Lifetime(name))) == super::plan::types_of(
            params,
        ),
        super::plan::types_of(params.push(ParamView::Const(key))) == super::plan::types_of(params),
        super::plan::lifetimes_of(params.push(ParamView::Lifetime(name)))
            == super::plan::lifetimes_of(params).push(name),
        super::plan::lifetimes_of(params.push(ParamView::Type(name)))
            == super::plan::lifetimes_of(params),
        super::plan::lifetimes_of(params.push(ParamView::Const(key)))
            == super::plan::lifetimes_of(params),
        super::plan::types_before_last(Seq::empty()) == Seq::<Seq<char>>::empty(),
        super::plan::types_before_last(params.push(ParamView::Type(name)))
            == super::plan::types_of(params),
        super::plan::types_before_last(params.push(ParamView::Lifetime(name)))
            == super::plan::types_of(params),
        super::plan::types_before_last(params.push(ParamView::Const(key)))
            == super::plan::types_of(params),
{
    let t = params.push(ParamView::Type(name));
    let l = params.push(ParamView::Lifetime(name));
    let c = params.push(ParamView::Const(key));
    assert(t.drop_last() =~= params && l.drop_last() =~= params && c.drop_last() =~= params);
    assert(super::plan::types_of(t) =~= super::plan::types_of(params).push(name));
    assert(super::plan::lifetimes_of(l) =~= super::plan::lifetimes_of(params).push(name));
}

/// The type parameter is declared.
pub open spec fn declares_type(params: Seq<ParamView>, name: Seq<char>) -> bool {
    params.contains(ParamView::Type(name))
}

/// The lifetime is declared, and none is declared behind it.
pub open spec fn is_last_lifetime(params: Seq<ParamView>, lt: Seq<char>) -> bool {
    exists|k: int|
        #![trigger params[k]]
        0 <= k < params.len() && params[k] == ParamView::Lifetime(lt) && forall|j: int|
            k < j < params.len() ==> !(#[trigger] params[j] is Lifetime)
}

#[verifier::rlimit(40)]
proof fn sorted_parameters(params: Seq<ParamView>)
    ensures
        forall|name: Seq<char>|
            #![trigger super::plan::types_of(params).contains(name)]
            super::plan::types_of(params).contains(name) <==> declares_type(params, name),
        super::plan::types_of(params).len() > 0 <==> exists|i: int|
            0 <= i < params.len() && #[trigger] params[i] is Type,
        super::plan::lifetimes_of(params).len() > 0 <==> exists|i: int|
            0 <= i < params.len() && #[trigger] params[i] is Lifetime,
        super::plan::lifetimes_of(params).len() > 0 ==> is_last_lifetime(
            params,
            super::plan::lifetimes_of(params).last(),
        ),
        forall|lt: Seq<char>|
            #![trigger super::plan::lifetimes_of(params).contains(lt)]
            super::plan::lifetimes_of(params).contains(lt) <==> params.contains(
                ParamView::Lifetime(lt),
            ),
    decreases params.len(),
{
    if params.len() > 0 {
        let rest = params.drop_last();
        let end = params.len() - 1;
        let last = params[end];
        sorted_parameters(rest);
        assert(params =~= rest.push(last));
        match last {
            ParamView::Type(n) => parameters_are_sorted(rest, n, 0),
            ParamView::Lifetime(n) => parameters_are_sorted(rest, n, 0),
            ParamView::Const(key) => parameters_are_sorted(rest, Seq::empty(), key),
        }
        let types = super::plan::types_of(params);
        let old_types = super::plan::types_of(rest);
        let lts = super::plan::lifetimes_of(params);
        let old_lts = super::plan::lifetimes_of(rest);
        assert forall|p: ParamView| params.contains(p) <==> rest.contains(p) || p == last by {
            if rest.contains(p) {
                let i = rest.index_of(p);
                assert(params[i] == p);
            }
            if params.contains(p) {
                let i = params.index_of(p);
                if i < end {
                    assert(rest[i] == p);
                }
            }
            assert(params[end] == last);
        }
        assert forall|name: Seq<char>|
            #![trigger types.contains(name)]
            types.contains(name) <==> declares_type(params, name) by {
            assert(old_types.contains(name) <==> declares_type(rest, name));
            pushed_members(old_types, types, last, name);
        }
        assert forall|lt: Seq<char>|
            #![trigger lts.contains(lt)]
            lts.contains(lt) <==> params.contains(ParamView::Lifetime(lt)) by {
            assert(old_lts.contains(lt) <==> rest.contains(ParamView::Lifetime(lt)));
            if let ParamView::Lifetime(n) = last {
                pushed_member(old_lts, n, lt);
            }
        }
        if exists|i: int| 0 <= i < params.len() && #[trigger] params[i] is Type {
            let i = choose|i: int| 0 <= i < params.len() && #[trigger] params[i] is Type;
            if i < end {
                assert(rest[i] is Type);
            }
        }
        if exists|i: int| 0 <= i < rest.len() && #[trigger] rest[i] is Type {
            let i = choose|i: int| 0 <= i < rest.len() && #[trigger] rest[i] is Type;
            assert(params[i] is Type);
        }
        if exists|i: int| 0 <= i < params.len() && #[trigger] params[i] is Lifetime {
            let i = choose|i: int| 0 <= i < params.len() && #[trigger] params[i] is Lifetime;
            if i < end {
                assert(rest[i] is Lifetime);
            }
        }
        if exists|i: int| 0 <= i < rest.len() && #[trigger] rest[i] is Lifetime {
            let i = choose|i: int| 0 <= i < rest.len() && #[trigger] rest[i] is Lifetime;
            assert(params[i] is Lifetime);
        }
        if lts.len() > 0 {
            if let ParamView::Lifetime(n) = last {
                assert(params[end] == ParamView::Lifetime(lts.last()));
            } else {
                let lt = lts.last();
                let k = choose|k: int|
                    #![trigger rest[k]]
                    0 <= k < rest.len() && rest[k] == ParamView::Lifetime(lt) && forall|j: int|
                        k < j < rest.len() ==> !(#[trigger] rest[j] is Lifetime);
                assert(params[k] == ParamView::Lifetime(lt));
                assert forall|j: int| k < j < params.len() implies !(#[trigger] params[j] is Lifetime) by {
                    if j < end {
                        assert(rest[j] == params[j]);
                    }
                }
            }
        }
    }
}

proof fn pushed_member(list: Seq<Seq<char>>, item: Seq<char>, name: Seq<char>)
    ensures
        list.push(item).contains(name) <==> list.contains(name) || name == item,
{
    let longer = list.push(item);
    if list.contains(name) {
        let i = list.index_of(name);
        assert(longer[i] == name);
    }
    assert(longer[list.len() as int] == item);
    if longer.contains(name) {
        let i = longer.index_of(name);
        if i < list.len() {
            assert(list[i] == name);
        }
    }
}

proof fn pushed_members(
    before: Seq<Seq<char>>,
    after: Seq<Seq<char>>,
    last: ParamView,
    name: Seq<char>,
)
    requires
        match last {
            ParamView::Type(n) => after == before.push(n),
            _ => after == before,
        },
    ensures
        after.contains(name) <==> before.contains(name) || last == ParamView::Type(name),
{
    if let ParamView::Type(n) = last {
        pushed_member(before, n, name);
    }
}

/// The type is `&'lt mut C` with `C` a declared type parameter.
pub open spec fn is_token_type(ty: TyView, lt: Seq<char>, params: Seq<ParamView>) -> bool {
    ty matches TyView::Reference { lifetime, mutable, elem } && {
        &&& lifetime == Some(lt)
        &&& mutable
        &&& *elem matches TyView::Path { segments, .. } && segments.len() == 1 && declares_type(
            params,
            segments[0].ident,
        )
    }
}

/// A future is planned iff the attribute has one argument, an identifier, and the function is
/// `async`, has a where clause, a type parameter, a lifetime, a return type and no receiver,
/// and its last argument is a `mut` reference on its last lifetime to a type parameter. The
/// error names what is wrong first, in this order: the attribute, `async`, the where clause,
/// the type parameter, the lifetime, the receiver, the last argument, the return type.
#[verifier::rlimit(40)]
pub proof fn futures_are_planned_for_fitting_functions(
    prefix_args: &Vec<AttrPath>,
    sig: &FnSig,
    plan: Result<FuturePlan, PlanError>,
)
    requires
        call_ensures(gen_may_cancel_future, (prefix_args, sig), plan),
    ensures
        ({
            let s = sig@;
            let n = s.inputs.len() as int;
            let one = prefix_args@.len() == 1;
            let ident = !prefix_args@[0].leading && prefix_args@[0].segments@.len() == 1
                && prefix_args@[0]@.segments[0].args is Plain;
            let has_type = exists|i: int| 0 <= i < s.params.len() && #[trigger] s.params[i] is Type;
            let has_lifetime = exists|i: int|
                0 <= i < s.params.len() && #[trigger] s.params[i] is Lifetime;
            let receiver = exists|i: int| 0 <= i < n && #[trigger] s.inputs[i] is Receiver;
            let token = n > 0 && s.inputs[n - 1] is Typed && exists|lt: Seq<char>|
                #![trigger is_last_lifetime(s.params, lt)]
                is_last_lifetime(s.params, lt) && is_token_type(
                    s.inputs[n - 1]->Typed_1,
                    lt,
                    s.params,
                );
            &&& plan is Ok <==> {
                &&& one && ident && s.is_async && s.where_clause is Some && has_type && has_lifetime
                &&& !receiver && s.output is Some && token
            }
            &&& plan matches Err(e) ==> if !one {
                e == PlanError::PrefixCount
            } else if !ident {
                e == PlanError::PrefixIdent
            } else if !s.is_async {
                e == PlanError::NotAsync
            } else if s.where_clause is None {
                e == PlanError::NoWhereClause
            } else if !has_type {
                e == PlanError::NoTypeParam
            } else if !has_lifetime {
                e == PlanError::NoLifetime
            } else if receiver {
                e == PlanError::Receiver
            } else if n > 0 && !token {
                ||| e is LastNotReference || e is LastNotMut || e is LastNoLifetime
                ||| e is LastLifetime || e is LastNotPath || e is LastNotSimple || e is LastNotParam
            } else if s.output is None {
                e == PlanError::NoReturnType
            } else {
                e == PlanError::NoCancelArgument
            }
        }),
{
    let s = sig@;
    let n = s.inputs.len() as int;
    let prefix = super::syntax::attr_views(prefix_args@);
    sorted_parameters(s.params);
    if prefix_args@.len() == 1 {
        assert(prefix[0] == prefix_args@[0]@);
        assert(prefix[0].segments.len() == prefix_args@[0].segments@.len());
    }
    if super::plan::has_receiver(s.inputs) {
        let i = s.inputs.index_of(FnArgView::Receiver);
        assert(s.inputs[i] is Receiver);
    }
    if exists|i: int| 0 <= i < n && #[trigger] s.inputs[i] is Receiver {
        let i = choose|i: int| 0 <= i < n && #[trigger] s.inputs[i] is Receiver;
        assert(s.inputs[i] == FnArgView::Receiver);
        assert(super::plan::has_receiver(s.inputs));
    }
    if n > 0 {
        assert(s.inputs.last() == s.inputs[n - 1]);
    }
    let lts = super::plan::lifetimes_of(s.params);
    assert forall|a: Seq<char>, b: Seq<char>|
        is_last_lifetime(s.params, a) && is_last_lifetime(s.params, b) implies a == b by {
        let k = choose|k: int|
            #![trigger s.params[k]]
            0 <= k < s.params.len() && s.params[k] == ParamView::Lifetime(a) && forall|j: int|
                k < j < s.params.len() ==> !(#[trigger] s.params[j] is Lifetime);
        let l = choose|k: int|
            #![trigger s.params[k]]
            0 <= k < s.params.len() && s.params[k] == ParamView::Lifetime(b) && forall|j: int|
                k < j < s.params.len() ==> !(#[trigger] s.params[j] is Lifetime);
        assert(s.params[k] is Lifetime && s.params[l] is Lifetime);
    }
    if lts.len() > 0 {
        assert(is_last_lifetime(s.params, lts.last()));
    }
}

/// The places of the predicates on the future struct are those in which the last lifetime does
/// not occur; on the argument struct, those in which the type parameter of the token does not
/// occur either.
#[verifier::rlimit(40)]
pub proof fn planned_predicates_are_the_users(
    prefix_args: &Vec<AttrPath>,
    sig: &FnSig,
    plan: FuturePlan,
    place: usize,
    new_lt: Seq<char>,
    new_name: Seq<char>,
)
    requires
        call_ensures(gen_may_cancel_future, (prefix_args, sig), Ok(plan)),
        new_lt != plan.last_lt@,
        new_name != plan.cancel_type_param@,
    ensures
        sig.where_clause matches Some(preds) && {
            let pred = preds@[place as int]@;
            let free_of_lifetime = renamed_predicate(
                pred,
                lifetime_replaced(plan.last_lt@, new_lt),
            ) == pred;
            let free_of_token = renamed_predicate(
                pred,
                name_replaced(plan.cancel_type_param@, new_name),
            ) == pred;
            &&& plan.where_future@.contains(place) <==> place < preds@.len() && free_of_lifetime
            &&& plan.where_async@.contains(place) <==> place < preds@.len() && free_of_lifetime
                && free_of_token
            &&& forall|i: int, j: int|
                0 <= i < j < plan.where_future@.len() ==> plan.where_future@[i]
                    < plan.where_future@[j]
            &&& forall|i: int, j: int|
                0 <= i < j < plan.where_async@.len() ==> plan.where_async@[i] < plan.where_async@[j]
        },
{
    let preds = sig.where_clause->0;
    let views = super::syntax::predicate_views(preds@);
    let last_lt = plan.last_lt@;
    let cancel = plan.cancel_type_param@;
    assert(sig@.where_clause == Some(views));
    assert(preds@.len() == preds.len());
    super::laws::kept_predicates_are_clean(views, last_lt, None, place);
    super::laws::kept_predicates_are_clean(views, last_lt, Some(cancel), place);
    kept_in_order(views, last_lt, None);
    kept_in_order(views, last_lt, Some(cancel));
    if place < preds@.len() {
        assert(views[place as int] == preds@[place as int]@);
        super::occurrence::lifetime_occurs_in_predicate(views[place as int], last_lt, new_lt);
        super::occurrence::name_occurs_in_predicate(views[place as int], cancel, new_name);
    }
}

/// A list of parameters: the items stand in their order, lifetimes first, with a separator
/// between each two and nowhere else.
pub open spec fn lists(
    tokens: Seq<TokenView>,
    lifetimes: Seq<Seq<char>>,
    types: Seq<Seq<char>>,
) -> bool {
    let count = lifetimes.len() + types.len();
    &&& tokens.len() == if count == 0 {
        0
    } else {
        2 * count - 1
    }
    &&& forall|k: int| 0 <= k < lifetimes.len() ==> tokens[2 * k] == TokenView::Lifetime(#[trigger] lifetimes[k])
    &&& forall|k: int|
        0 <= k < types.len() ==> tokens[2 * (lifetimes.len() + k)] == TokenView::Type(#[trigger] types[k])
    &&& forall|k: int| 0 <= k < count - 1 ==> tokens[#[trigger] (2 * k + 1)] == TokenView::Comma
}

proof fn separated_lists(lifetimes: Seq<Seq<char>>, types: Seq<Seq<char>>)
    ensures
        lists(
            super::plan::separated(super::plan::params_in_order(lifetimes, types)),
            lifetimes,
            types,
        ),
{
    let items = super::plan::params_in_order(lifetimes, types);
    let tokens = super::plan::separated(items);
    let count = lifetimes.len() + types.len();
    assert(items.len() == count);
    assert forall|k: int| 0 <= k < lifetimes.len() implies tokens[2 * k] == TokenView::Lifetime(
        #[trigger] lifetimes[k],
    ) by {
        assert((2 * k) % 2 == 0 && (2 * k) / 2 == k);
        assert(items[k] == TokenView::Lifetime(lifetimes[k]));
    }
    assert forall|k: int| 0 <= k < types.len() implies tokens[2 * (lifetimes.len() + k)]
        == TokenView::Type(#[trigger] types[k]) by {
        let at = lifetimes.len() + k;
        assert((2 * at) % 2 == 0 && (2 * at) / 2 == at);
        assert(items[at] == TokenView::Type(types[k]));
    }
    assert forall|k: int| 0 <= k < count - 1 implies tokens[#[trigger] (2 * k + 1)]
        == TokenView::Comma by {
        assert((2 * k + 1) % 2 == 1);
    }
}

/// The parts of a plan. Each argument but the last is a field, under its own pattern, with its
/// references on the last lifetime; the last is the type of the token; the output has the
/// user's lifetimes replaced by the last. The structs list the lifetimes that they name and
/// the type parameters of the function, the argument struct without that of the token.
#[verifier::rlimit(40)]
pub proof fn plans_follow_the_signature(
    prefix_args: &Vec<AttrPath>,
    sig: &FnSig,
    plan: FuturePlan,
)
    requires
        call_ensures(gen_may_cancel_future, (prefix_args, sig), Ok(plan)),
    ensures
        ({
            let s = sig@;
            let n = s.inputs.len() as int;
            let last_lt = plan.last_lt@;
            let types = super::plan::types_of(s.params);
            let lifetimes = super::plan::lifetimes_of(s.params);
            let name = prefix_args@[0]@.segments[0].ident;
            &&& plan.fields@.len() == n - 1
            &&& plan.patterns@.len() == n - 1
            &&& forall|i: int|
                0 <= i < n - 1 ==> {
                    &&& (#[trigger] s.inputs[i]) is Typed
                    &&& plan.patterns@[i] == s.inputs[i]->Typed_0
                    &&& plan.fields@[i].view() == renamed(
                        s.inputs[i]->Typed_1,
                        references_on(last_lt),
                    )
                }
            &&& plan.cancel_type.view() == renamed(
                s.inputs[n - 1]->Typed_1,
                references_on(last_lt),
            )
            &&& plan.output.view() == renamed(s.output->0, users_on(lifetimes, last_lt))
            &&& is_last_lifetime(s.params, last_lt)
            &&& declares_type(s.params, plan.cancel_type_param@)
            &&& plan.cancel_type_param@ == types[types.len() - 1]
            &&& lists(
                super::plan::token_views(plan.generics_async@),
                super::syntax::lifetime_names(plan.async_lifetimes@),
                super::plan::types_before_last(s.params),
            )
            &&& lists(
                super::plan::token_views(plan.generics_future_no_cancel@),
                super::syntax::lifetime_names(plan.future_lifetimes@),
                super::plan::types_before_last(s.params),
            )
            &&& lists(
                super::plan::token_views(plan.generics_future@),
                super::syntax::lifetime_names(plan.future_lifetimes@),
                types,
            )
            &&& !(name.len() >= 2 && name[0] == 'r' && name[1] == '#') ==> {
                &&& plan.async_struct@ == name + "Async"@
                &&& plan.future_struct@ == name + "Future"@
                &&& plan.factory_trait@ == "__"@ + name + "FutureFactory"@
            }
            &&& name.len() >= 2 && name[0] == 'r' && name[1] == '#' ==> {
                let bare = name.subrange(2, name.len() as int);
                &&& plan.async_struct@ == bare + "Async"@
                &&& plan.future_struct@ == bare + "Future"@
                &&& plan.factory_trait@ == "__"@ + bare + "FutureFactory"@
            }
        }),
{
    let s = sig@;
    let n = s.inputs.len() as int;
    let last_lt = plan.last_lt@;
    let types = super::plan::types_of(s.params);
    let lifetimes = super::plan::lifetimes_of(s.params);
    let prefix = super::syntax::attr_views(prefix_args@);
    let fields = super::syntax::ty_views(plan.fields@);
    assert(prefix[0] == prefix_args@[0]@);
    let name = prefix[0].segments[0].ident;
    assert(name.skip(2) =~= name.subrange(2, name.len() as int) || name.len() < 2);
    sorted_parameters(s.params);
    assert(types.contains(types[types.len() - 1]));
    futures_are_planned_for_fitting_functions(prefix_args, sig, Ok(plan));
    assert(fields == super::plan::field_types(s.inputs, last_lt));
    assert(fields.len() == s.inputs.drop_last().len());
    assert forall|i: int| 0 <= i < n - 1 implies {
        &&& (#[trigger] s.inputs[i]) is Typed
        &&& plan.patterns@[i] == s.inputs[i]->Typed_0
        &&& plan.fields@[i].view() == renamed(s.inputs[i]->Typed_1, references_on(last_lt))
    } by {
        assert(s.inputs.drop_last()[i] == s.inputs[i]);
        assert(fields[i] == plan.fields@[i].view());
        rewriting_is_renaming(s.inputs[i]->Typed_1, lifetimes, last_lt);
        assert(!(s.inputs[i] is Receiver));
    }
    assert(s.inputs.last() == s.inputs[n - 1]);
    rewriting_is_renaming(s.inputs[n - 1]->Typed_1, lifetimes, last_lt);
    rewriting_is_renaming(s.output->0, lifetimes, last_lt);
    separated_lists(
        super::syntax::lifetime_names(plan.async_lifetimes@),
        super::plan::types_before_last(s.params),
    );
    separated_lists(
        super::syntax::lifetime_names(plan.future_lifetimes@),
        super::plan::types_before_last(s.params),
    );
    separated_lists(super::syntax::lifetime_names(plan.future_lifetimes@), types);
}

/// The lifetimes that types use stand in the order of their declaration: one more declared
/// lifetime is one more at the end iff it occurs in one of the types.
pub proof fn used_lifetimes_in_order(
    types: Seq<TyView>,
    all: Seq<Seq<char>>,
    lt: Seq<char>,
    new_lt: Seq<char>,
)
    requires
        new_lt != lt,
    ensures
        super::rewrite::used_lifetimes(types, Seq::empty()) == Seq::<Seq<char>>::empty(),
        super::rewrite::used_lifetimes(types, all.push(lt)) == if exists|i: int|
            0 <= i < types.len() && renamed(#[trigger] types[i], lifetime_replaced(lt, new_lt))
                != types[i] {
            super::rewrite::used_lifetimes(types, all).push(lt)
        } else {
            super::rewrite::used_lifetimes(types, all)
        },
{
    reveal(Seq::filter);
    assert(all.push(lt).drop_last() =~= all);
    assert forall|i: int| 0 <= i < types.len() implies (super::contains::ty_mentions(
        #[trigger] types[i],
        lt,
    ) <==> renamed(types[i], lifetime_replaced(lt, new_lt)) != types[i]) by {
        super::occurrence::lifetime_occurs_in_type(types[i], lt, new_lt);
    }
    if super::rewrite::some_ty_mentions(types, lt) {
        let i = choose|i: int|
            0 <= i < types.len() && super::contains::ty_mentions(#[trigger] types[i], lt);
        assert(renamed(types[i], lifetime_replaced(lt, new_lt)) != types[i]);
    }
}

/// The lifetimes of a plan: those of the function that occur in the fields, for the future
/// also in the type of the token, and of the former those that are not the last have to
/// outlive it. They stand in the order of their declaration.
#[verifier::rlimit(40)]
pub proof fn planned_lifetimes_occur(
    prefix_args: &Vec<AttrPath>,
    sig: &FnSig,
    plan: FuturePlan,
    lt: Seq<char>,
    new_lt: Seq<char>,
)
    requires
        call_ensures(gen_may_cancel_future, (prefix_args, sig), Ok(plan)),
        new_lt != lt,
    ensures
        ({
            let by = lifetime_replaced(lt, new_lt);
            let declared = sig@.params.contains(ParamView::Lifetime(lt));
            let in_fields = exists|i: int|
                0 <= i < plan.fields@.len() && renamed((#[trigger] plan.fields@[i]).view(), by)
                    != plan.fields@[i].view();
            let in_token = renamed(plan.cancel_type.view(), by) != plan.cancel_type.view();
            &&& super::syntax::lifetime_names(plan.async_lifetimes@).contains(lt) <==> declared
                && in_fields
            &&& super::syntax::lifetime_names(plan.future_lifetimes@).contains(lt) <==> declared && (
            in_fields || in_token)
            &&& super::syntax::lifetime_names(plan.factory_outlives@).contains(lt) <==> declared
                && in_fields && lt != plan.last_lt@
        }),
        ({
            let all = super::plan::lifetimes_of(sig@.params);
            let fields = super::syntax::ty_views(plan.fields@);
            let used = super::rewrite::used_lifetimes(fields, all);
            &&& super::syntax::lifetime_names(plan.async_lifetimes@) == used
            &&& super::syntax::lifetime_names(plan.future_lifetimes@)
                == super::rewrite::used_lifetimes(fields.push(plan.cancel_type.view()), all)
            &&& super::syntax::lifetime_names(plan.factory_outlives@) == super::plan::names_but(
                used,
                plan.last_lt@,
            )
        }),
{
    let by = lifetime_replaced(lt, new_lt);
    let lifetimes = super::plan::lifetimes_of(sig@.params);
    let fields = super::syntax::ty_views(plan.fields@);
    let token = plan.cancel_type.view();
    let both = fields.push(token);
    sorted_parameters(sig@.params);
    assert(lifetimes.contains(lt) <==> sig@.params.contains(ParamView::Lifetime(lt)));
    super::laws::used_lifetimes_are_named(fields, lifetimes, lt);
    super::laws::used_lifetimes_are_named(both, lifetimes, lt);
    super::occurrence::lifetime_occurs_in_type(token, lt, new_lt);
    assert forall|i: int| 0 <= i < fields.len() implies (super::contains::ty_mentions(
        #[trigger] fields[i],
        lt,
    ) <==> renamed(plan.fields@[i].view(), by) != plan.fields@[i].view()) by {
        super::occurrence::lifetime_occurs_in_type(fields[i], lt, new_lt);
    }
    if super::rewrite::some_ty_mentions(fields, lt) {
        let i = choose|i: int|
            0 <= i < fields.len() && super::contains::ty_mentions(#[trigger] fields[i], lt);
        assert(renamed(plan.fields@[i].view(), by) != plan.fields@[i].view());
        assert(super::contains::ty_mentions(both[i], lt));
    }
    if exists|i: int|
        0 <= i < plan.fields@.len() && renamed((#[trigger] plan.fields@[i]).view(), by)
            != plan.fields@[i].view() {
        let i = choose|i: int|
            0 <= i < plan.fields@.len() && renamed((#[trigger] plan.fields@[i]).view(), by)
                != plan.fields@[i].view();
        assert(super::contains::ty_mentions(fields[i], lt));
    }
    if super::contains::ty_mentions(token, lt) {
        assert(super::contains::ty_mentions(both[fields.len() as int], lt));
    }
    if super::rewrite::some_ty_mentions(both, lt) {
        let i = choose|i: int|
            0 <= i < both.len() && super::contains::ty_mentions(#[trigger] both[i], lt);
        if i < fields.len() {
            assert(super::contains::ty_mentions(fields[i], lt));
        }
    }
    let used = super::rewrite::used_lifetimes(fields, lifetimes);
    super::laws::filtered_members(used, super::plan::differs_from(plan.last_lt@), lt);
}

/// The searches find what occurs: a name that, replaced by another, makes a difference.
pub proof fn searches_find_what_occurs(
    ty: &Ty,
    pred: &Predicate,
    lt: &Lifetime,
    name: &String,
    found: bool,
    other: Seq<char>,
)
    ensures
        other != lt@ && call_ensures(ty_contains_lifetime, (ty, lt), found) ==> found == (renamed(
            ty.view(),
            lifetime_replaced(lt@, other),
        ) != ty.view()),
        other != name@ && call_ensures(ty_contains_type_param, (ty, name), found) ==> found == (
        renamed(ty.view(), name_replaced(name@, other)) != ty.view()),
        other != lt@ && call_ensures(predicate_contains_lifetime, (pred, lt), found) ==> found == (
        renamed_predicate(pred@, lifetime_replaced(lt@, other)) != pred@),
        other != name@ && call_ensures(predicate_contains_type_param, (pred, name), found)
            ==> found == (renamed_predicate(pred@, name_replaced(name@, other)) != pred@),
{
    if other != lt@ {
        super::occurrence::lifetime_occurs_in_type(ty.view(), lt@, other);
        super::occurrence::lifetime_occurs_in_predicate(pred@, lt@, other);
    }
    if other != name@ {
        super::occurrence::name_occurs_in_type(ty.view(), name@, other);
        super::occurrence::name_occurs_in_predicate(pred@, name@, other);
    }
}

/// The two rewrites change lifetimes alone: the one puts every reference on the given
/// lifetime, the other replaces the user's lifetimes by the last.
pub proof fn rewrites_rename(
    ty: &Ty,
    users: &Vec<Lifetime>,
    last: &Lifetime,
    after: Ty,
)
    ensures
        call_ensures(transform_type_outer_lifetime, (ty, last), after) ==> after.view() == renamed(
            ty.view(),
            references_on(last@),
        ),
        call_ensures(transform_output_lifetimes, (ty, users, last), after) ==> after.view()
            == renamed(ty.view(), users_on(super::syntax::lifetime_names(users@), last@)),
{
    rewriting_is_renaming(ty.view(), super::syntax::lifetime_names(users@), last@);
}

/// Lists of parameters are written with separators between the items, and the lifetimes that
/// types use are collected from those that are given.
#[verifier::rlimit(40)]
pub proof fn lists_are_written_and_collected(
    types: &Vec<Ty>,
    all: &Vec<Lifetime>,
    names: &Vec<String>,
    tokens: Vec<super::plan::ParamToken>,
    used: Vec<Lifetime>,
    lt: Seq<char>,
    other: Seq<char>,
)
    requires
        other != lt,
    ensures
        call_ensures(build_generic_params, (all, names), tokens) ==> lists(
            super::plan::token_views(tokens@),
            super::syntax::lifetime_names(all@),
            super::syntax::name_views(names@),
        ),
        call_ensures(collect_used_lifetimes, (types, all), used) ==> (
        super::syntax::lifetime_names(used@).contains(lt) <==> super::syntax::lifetime_names(
            all@,
        ).contains(lt) && exists|i: int|
            0 <= i < types@.len() && renamed(
                (#[trigger] types@[i]).view(),
                lifetime_replaced(lt, other),
            ) != types@[i].view()),
{
    let views = super::syntax::ty_views(types@);
    let lifetimes = super::syntax::lifetime_names(all@);
    separated_lists(lifetimes, super::syntax::name_views(names@));
    super::laws::used_lifetimes_are_named(views, lifetimes, lt);
    assert forall|i: int| 0 <= i < views.len() implies (super::contains::ty_mentions(
        #[trigger] views[i],
        lt,
    ) <==> renamed(types@[i].view(), lifetime_replaced(lt, other)) != types@[i].view()) by {
        super::occurrence::lifetime_occurs_in_type(views[i], lt, other);
    }
    if super::rewrite::some_ty_mentions(views, lt) {
        let i = choose|i: int|
            0 <= i < views.len() && super::contains::ty_mentions(#[trigger] views[i], lt);
        assert(renamed(types@[i].view(), lifetime_replaced(lt, other)) != types@[i].view());
    }
    if exists|i: int|
        0 <= i < types@.len() && renamed(
            (#[trigger] types@[i]).view(),
            lifetime_replaced(lt, other),
        ) != types@[i].view() {
        let i = choose|i: int|
            0 <= i < types@.len() && renamed(
                (#[trigger] types@[i]).view(),
                lifetime_replaced(lt, other),
            ) != types@[i].view();
        assert(super::contains::ty_mentions(views[i], lt));
    }
}

/// The last argument is accepted iff it is `&'c mut C` with `'c` the given lifetime and `C`
/// one of the type parameters. Otherwise the error names the first part, from the outside in,
/// that is not so.
#[verifier::rlimit(40)]
pub proof fn last_argument_is_the_token(
    ty: &Ty,
    last_lt: &Lifetime,
    generics: &Vec<String>,
    error: Option<PlanError>,
)
    requires
        call_ensures(check_last_argument, (ty, last_lt, generics), error),
    ensures
        match *ty {
            Ty::Reference { lifetime, mutable, elem } => {
                let written = lifetime is Some;
                let right = lifetime matches Some(lt) && lt@ == last_lt@;
                let path = *elem is Path;
                let simple = elem.view().path().len() == 1;
                let param = exists|i: int|
                    0 <= i < generics@.len() && (#[trigger] generics@[i])@
                        == elem.view().path()[0].ident;
                &&& error is None <==> mutable && right && path && simple && param
                &&& error == Some(PlanError::LastNotMut) <==> !mutable
                &&& error == Some(PlanError::LastNoLifetime) <==> mutable && !written
                &&& error == Some(PlanError::LastLifetime) <==> mutable && written && !right
                &&& error == Some(PlanError::LastNotPath) <==> mutable && right && !path
                &&& error == Some(PlanError::LastNotSimple) <==> mutable && right && path && !simple
                &&& error == Some(PlanError::LastNotParam) <==> mutable && right && path && simple
                    && !param
            },
            _ => error == Some(PlanError::LastNotReference),
        },
{
    let names = super::syntax::name_views(generics@);
    if let Ty::Reference { elem, .. } = *ty {
        if *elem is Path && elem.view().path().len() == 1 {
            let ident = elem.view().path()[0].ident;
            if names.contains(ident) {
                let i = names.index_of(ident);
                assert(generics@[i]@ == ident);
            }
            if exists|i: int| 0 <= i < generics@.len() && (#[trigger] generics@[i])@ == ident {
                let i = choose|i: int|
                    0 <= i < generics@.len() && (#[trigger] generics@[i])@ == ident;
                assert(names[i] == ident);
            }
        }
    }
}

/// An attribute and a function that were written as text are planned as what they are parsed
/// to: with the same result, and the same parts of the plan.
#[verifier::rlimit(40)]
pub proof fn expanding_is_planning(
    attr: &str,
    item: &str,
    made: Result<Expansion, ExpandError>,
    prefix_args: &Vec<AttrPath>,
    sig: &FnSig,
    planned: Result<FuturePlan, PlanError>,
)
    requires
        call_ensures(expand_plan, (attr, item), made),
        call_ensures(gen_may_cancel_future, (prefix_args, sig), planned),
    ensures
        super::parse::parsed_attribute(attr@) is None <==> made == Err::<Expansion, ExpandError>(
            ExpandError::Attribute,
        ),
        super::parse::parsed_attribute(attr@) is Some && super::parse::parsed_signature(
            item@,
        ) is None <==> made == Err::<Expansion, ExpandError>(ExpandError::Item),
        super::parse::parsed_attribute(attr@) == Some(super::syntax::attr_views(prefix_args@))
            && super::parse::parsed_signature(item@) == Some(sig@) ==> match (made, planned) {
            (Ok(a), Ok(b)) => {
                &&& a.plan.async_struct@ == b.async_struct@
                &&& a.plan.future_struct@ == b.future_struct@
                &&& a.plan.factory_trait@ == b.factory_trait@
                &&& a.plan.last_lt@ == b.last_lt@
                &&& a.plan.cancel_type_param@ == b.cancel_type_param@
                &&& super::syntax::ty_views(a.plan.fields@) == super::syntax::ty_views(b.fields@)
                &&& a.plan.patterns@ == b.patterns@
                &&& a.plan.cancel_type.view() == b.cancel_type.view()
                &&& a.plan.output.view() == b.output.view()
                &&& super::plan::token_views(a.plan.generics_async@) == super::plan::token_views(
                    b.generics_async@,
                )
                &&& super::plan::token_views(a.plan.generics_future_no_cancel@)
                    == super::plan::token_views(b.generics_future_no_cancel@)
                &&& super::plan::token_views(a.plan.generics_future@) == super::plan::token_views(
                    b.generics_future@,
                )
                &&& super::syntax::lifetime_names(a.plan.factory_outlives@)
                    == super::syntax::lifetime_names(b.factory_outlives@)
                &&& a.plan.where_async@ == b.where_async@
                &&& a.plan.where_future@ == b.where_future@
            },
            (Err(a), Err(b)) => a == ExpandError::Plan(b),
            _ => false,
        },
{
}

/// The lifetimes but the last keep their order: one more lifetime is one more at the end iff it
/// is not the last.
pub proof fn other_lifetimes_in_order(names: Seq<Seq<char>>, name: Seq<char>, last: Seq<char>)
    ensures
        super::plan::names_but(Seq::empty(), last) == Seq::<Seq<char>>::empty(),
        super::plan::names_but(names.push(name), last) == if name == last {
            super::plan::names_but(names, last)
        } else {
            super::plan::names_but(names, last).push(name)
        },
{
    reveal(Seq::filter);
    assert(names.push(name).drop_last() =~= names);
}

} // verus!
