//! What holds of every rewritten type and of every plan. Parts that are kept under a key
//! are neither looked into nor rewritten.

use vstd::prelude::*;

verus! {

/// Every reference in the type is on the lifetime `lt`.
pub open spec fn all_references_on(ty: super::syntax::TyView, lt: Seq<char>) -> bool
    decreases ty,
{
    match ty {
        super::syntax::TyView::Reference { lifetime, elem, .. } => lifetime == Some(lt)
            && all_references_on(*elem, lt),
        super::syntax::TyView::Tuple(_) => forall|i: int|
            #![trigger ty.elems()[i]]
            0 <= i < ty.elems().len() ==> all_references_on(ty.elems()[i], lt),
        super::syntax::TyView::Array(elem, _) => all_references_on(*elem, lt),
        super::syntax::TyView::Slice(elem) => all_references_on(*elem, lt),
        super::syntax::TyView::Paren(elem) => all_references_on(*elem, lt),
        super::syntax::TyView::Group(elem) => all_references_on(*elem, lt),
        super::syntax::TyView::Path { .. } => forall|i: int, j: int|
            #![trigger ty.path()[i].angle()[j]]
            0 <= i < ty.path().len() && 0 <= j < ty.path()[i].angle().len() ==> {
                match ty.path()[i].angle()[j] {
                    super::syntax::ArgView::Type(inner) => all_references_on(inner, lt),
                    _ => true,
                }
            },
        super::syntax::TyView::Other(_) => true,
    }
}

/// After an argument type was moved to the last lifetime, every reference in it is on
/// that lifetime.
pub proof fn unified_references(ty: super::syntax::TyView, lt: Seq<char>)
    ensures
        all_references_on(
            super::rewrite::rewritten(ty, super::rewrite::RuleView::Unify(lt)),
            lt,
        ),
    decreases ty,
{
    let rule = super::rewrite::RuleView::Unify(lt);
    let after = super::rewrite::rewritten(ty, rule);
    match ty {
        super::syntax::TyView::Reference { elem, .. } => unified_references(*elem, lt),
        super::syntax::TyView::Tuple(elems) => {
            assert forall|i: int|
                #![trigger after.elems()[i]]
                0 <= i < after.elems().len() implies all_references_on(after.elems()[i], lt) by {
                unified_references(elems[i], lt);
            }
        },
        super::syntax::TyView::Array(elem, _) => unified_references(*elem, lt),
        super::syntax::TyView::Slice(elem) => unified_references(*elem, lt),
        super::syntax::TyView::Paren(elem) => unified_references(*elem, lt),
        super::syntax::TyView::Group(elem) => unified_references(*elem, lt),
        super::syntax::TyView::Path { segments, .. } => {
            assert forall|i: int, j: int|
                #![trigger after.path()[i].angle()[j]]
                0 <= i < after.path().len() && 0 <= j < after.path()[i].angle().len() implies {
                match after.path()[i].angle()[j] {
                    super::syntax::ArgView::Type(inner) => all_references_on(inner, lt),
                    _ => true,
                }
            } by {
                assert(after.path()[i] == super::rewrite::rewritten_segment(segments[i], rule));
                assert(after.path()[i].angle()[j] == super::rewrite::rewritten_arg(
                    segments[i].angle()[j],
                    rule,
                ));
                if let super::syntax::ArgView::Type(inner) = segments[i].angle()[j] {
                    unified_references(inner, lt);
                }
            }
        },
        super::syntax::TyView::Other(_) => {},
    }
}

/// After a return type was redirected, it names no lifetime of the user but the last.
pub proof fn redirected_lifetimes_vanish(
    ty: super::syntax::TyView,
    users: Seq<Seq<char>>,
    last: Seq<char>,
    lt: Seq<char>,
)
    requires
        users.contains(lt),
        lt != last,
    ensures
        !super::contains::ty_mentions(
            super::rewrite::rewritten(ty, super::rewrite::RuleView::Redirect(users, last)),
            lt,
        ),
    decreases ty,
{
    let rule = super::rewrite::RuleView::Redirect(users, last);
    let after = super::rewrite::rewritten(ty, rule);
    match ty {
        super::syntax::TyView::Reference { elem, .. } => {
            redirected_lifetimes_vanish(*elem, users, last, lt);
        },
        super::syntax::TyView::Tuple(elems) => {
            assert forall|i: int|
                #![trigger after.elems()[i]]
                0 <= i < after.elems().len() implies !super::contains::ty_mentions(after.elems()[i], lt) by {
                redirected_lifetimes_vanish(elems[i], users, last, lt);
            }
        },
        super::syntax::TyView::Array(elem, _) => {
            redirected_lifetimes_vanish(*elem, users, last, lt);
        },
        super::syntax::TyView::Slice(elem) => {
            redirected_lifetimes_vanish(*elem, users, last, lt);
        },
        super::syntax::TyView::Paren(elem) => {
            redirected_lifetimes_vanish(*elem, users, last, lt);
        },
        super::syntax::TyView::Group(elem) => {
            redirected_lifetimes_vanish(*elem, users, last, lt);
        },
        super::syntax::TyView::Path { segments, .. } => {
            assert forall|i: int, j: int|
                #![trigger after.path()[i].angle()[j]]
                0 <= i < after.path().len() && 0 <= j < after.path()[i].angle().len() implies !({
                match after.path()[i].angle()[j] {
                    super::syntax::ArgView::Lifetime(name) => name == lt,
                    super::syntax::ArgView::Type(inner) => super::contains::ty_mentions(inner, lt),
                    super::syntax::ArgView::Other(_) => false,
                }
            }) by {
                assert(after.path()[i] == super::rewrite::rewritten_segment(segments[i], rule));
                assert(after.path()[i].angle()[j] == super::rewrite::rewritten_arg(
                    segments[i].angle()[j],
                    rule,
                ));
                if let super::syntax::ArgView::Type(inner) = segments[i].angle()[j] {
                    redirected_lifetimes_vanish(inner, users, last, lt);
                }
            }
        },
        super::syntax::TyView::Other(_) => {},
    }
}

/// A return type that names no lifetime of the user but the last stays as it is: so do
/// `'static` and elided lifetimes.
pub proof fn unaffected_output_stays(
    ty: super::syntax::TyView,
    users: Seq<Seq<char>>,
    last: Seq<char>,
)
    requires
        forall|lt: Seq<char>|
            #![trigger super::contains::ty_mentions(ty, lt)]
            users.contains(lt) && lt != last ==> !super::contains::ty_mentions(ty, lt),
    ensures
        super::rewrite::rewritten(ty, super::rewrite::RuleView::Redirect(users, last)) == ty,
    decreases ty,
{
    let rule = super::rewrite::RuleView::Redirect(users, last);
    let after = super::rewrite::rewritten(ty, rule);
    match ty {
        super::syntax::TyView::Reference { lifetime, elem, .. } => {
            assert forall|lt: Seq<char>|
                #![trigger super::contains::ty_mentions(*elem, lt)]
                users.contains(lt) && lt != last implies !super::contains::ty_mentions(*elem, lt) by {
                assert(!super::contains::ty_mentions(ty, lt));
            }
            if let Some(lt) = lifetime {
                if users.contains(lt) && lt != last {
                    assert(!super::contains::ty_mentions(ty, lt));
                }
            }
            unaffected_output_stays(*elem, users, last);
        },
        super::syntax::TyView::Tuple(elems) => {
            assert forall|i: int| 0 <= i < elems.len() implies after.elems()[i] == elems[i] by {
                assert forall|lt: Seq<char>|
                    #![trigger super::contains::ty_mentions(elems[i], lt)]
                    users.contains(lt) && lt != last implies !super::contains::ty_mentions(elems[i], lt) by {
                    assert(!super::contains::ty_mentions(ty, lt));
                    assert(ty.elems()[i] == elems[i]);
                }
                unaffected_output_stays(elems[i], users, last);
            }
            assert(after.elems() =~= elems);
        },
        super::syntax::TyView::Array(elem, _) => {
            assert forall|lt: Seq<char>|
                #![trigger super::contains::ty_mentions(*elem, lt)]
                users.contains(lt) && lt != last implies !super::contains::ty_mentions(*elem, lt) by {
                assert(!super::contains::ty_mentions(ty, lt));
            }
            unaffected_output_stays(*elem, users, last);
        },
        super::syntax::TyView::Slice(elem) => {
            assert forall|lt: Seq<char>|
                #![trigger super::contains::ty_mentions(*elem, lt)]
                users.contains(lt) && lt != last implies !super::contains::ty_mentions(*elem, lt) by {
                assert(!super::contains::ty_mentions(ty, lt));
            }
            unaffected_output_stays(*elem, users, last);
        },
        super::syntax::TyView::Paren(elem) => {
            assert forall|lt: Seq<char>|
                #![trigger super::contains::ty_mentions(*elem, lt)]
                users.contains(lt) && lt != last implies !super::contains::ty_mentions(*elem, lt) by {
                assert(!super::contains::ty_mentions(ty, lt));
            }
            unaffected_output_stays(*elem, users, last);
        },
        super::syntax::TyView::Group(elem) => {
            assert forall|lt: Seq<char>|
                #![trigger super::contains::ty_mentions(*elem, lt)]
                users.contains(lt) && lt != last implies !super::contains::ty_mentions(*elem, lt) by {
                assert(!super::contains::ty_mentions(ty, lt));
            }
            unaffected_output_stays(*elem, users, last);
        },
        super::syntax::TyView::Path { segments, .. } => {
            assert forall|i: int| 0 <= i < segments.len() implies after.path()[i]
                == segments[i] by {
                let seg = segments[i];
                let seg_after = super::rewrite::rewritten_segment(seg, rule);
                assert(after.path()[i] == seg_after);
                assert forall|j: int| 0 <= j < seg.angle().len() implies seg_after.angle()[j]
                    == seg.angle()[j] by {
                    let arg = seg.angle()[j];
                    assert(seg_after.angle()[j] == super::rewrite::rewritten_arg(arg, rule));
                    assert(ty.path()[i].angle()[j] == arg);
                    match arg {
                        super::syntax::ArgView::Lifetime(lt) => {
                            if users.contains(lt) && lt != last {
                                assert(!super::contains::ty_mentions(ty, lt));
                            }
                        },
                        super::syntax::ArgView::Type(inner) => {
                            assert forall|lt: Seq<char>|
                                #![trigger super::contains::ty_mentions(inner, lt)]
                                users.contains(lt) && lt != last implies !super::contains::ty_mentions(
                                inner,
                                lt,
                            ) by {
                                assert(!super::contains::ty_mentions(ty, lt));
                            }
                            unaffected_output_stays(inner, users, last);
                        },
                        super::syntax::ArgView::Other(_) => {},
                    }
                }
                assert(seg_after.angle() =~= seg.angle());
            }
            assert(after.path() =~= segments);
        },
        super::syntax::TyView::Other(_) => {},
    }
}

/// Redirecting a return type twice is redirecting it once.
pub proof fn redirecting_twice(
    ty: super::syntax::TyView,
    users: Seq<Seq<char>>,
    last: Seq<char>,
)
    ensures
        ({
            let rule = super::rewrite::RuleView::Redirect(users, last);
            let once = super::rewrite::rewritten(ty, rule);
            super::rewrite::rewritten(once, rule) == once
        }),
{
    let rule = super::rewrite::RuleView::Redirect(users, last);
    let once = super::rewrite::rewritten(ty, rule);
    assert forall|lt: Seq<char>|
        #![trigger super::contains::ty_mentions(once, lt)]
        users.contains(lt) && lt != last implies !super::contains::ty_mentions(once, lt) by {
        redirected_lifetimes_vanish(ty, users, last, lt);
    }
    unaffected_output_stays(once, users, last);
}

/// The predicates that a plan keeps name neither the lifetime nor the type of the
/// cancellation token, and every predicate that names neither is kept.
pub proof fn kept_predicates_are_clean(
    preds: Seq<super::syntax::PredicateView>,
    last_lt: Seq<char>,
    cancel: Option<Seq<char>>,
    place: usize,
)
    requires
        preds.len() <= usize::MAX,
    ensures
        super::plan::kept_predicates(preds, last_lt, cancel).contains(place) <==> place
            < preds.len() && super::plan::predicate_is_kept(preds[place as int], last_lt, cancel),
{
    let places = Seq::new(preds.len(), |i: int| i as usize);
    let keep = |i: usize| super::plan::predicate_is_kept(preds[i as int], last_lt, cancel);
    let kept = super::plan::kept_predicates(preds, last_lt, cancel);
    assert(kept == places.filter(keep));
    filtered_members(places, keep, place);
    if place < preds.len() {
        assert(places[place as int] == place);
    }
}

/// The lifetimes of a plan are those of the function that one of the fields names.
pub proof fn used_lifetimes_are_named(
    types: Seq<super::syntax::TyView>,
    all: Seq<Seq<char>>,
    lt: Seq<char>,
)
    ensures
        super::rewrite::used_lifetimes(types, all).contains(lt) <==> all.contains(lt)
            && super::rewrite::some_ty_mentions(types, lt),
{
    let keep = |name: Seq<char>| super::rewrite::some_ty_mentions(types, name);
    assert(super::rewrite::used_lifetimes(types, all) == all.filter(keep));
    filtered_members(all, keep, lt);
}

/// The generated types declare exactly the lifetimes of the function that they name: the
/// argument struct those in its fields, the future struct those in its fields and in the
/// type of the token. The last lifetime is one of the latter, and the output names no other
/// lifetime of the function: what it names is declared by the future struct.
pub proof fn named_lifetimes_are_declared(
    plan: super::plan::FuturePlan,
    prefix: Seq<super::syntax::PathView>,
    sig: super::syntax::SigView,
    lt: Seq<char>,
)
    requires
        super::plan::plan_error(prefix, sig) is None,
        super::plan::is_plan(plan, prefix, sig),
        super::plan::lifetimes_of(sig.params).contains(lt),
    ensures
        ({
            let fields = super::syntax::ty_views(plan.fields@);
            let in_fields = super::rewrite::some_ty_mentions(fields, lt);
            let in_token = super::contains::ty_mentions(plan.cancel_type.view(), lt);
            let in_output = super::contains::ty_mentions(plan.output.view(), lt);
            let declared = super::plan::TokenView::Lifetime(lt);
            &&& super::plan::token_views(plan.generics_async@).contains(declared) <==> in_fields
            &&& super::plan::token_views(plan.generics_future_no_cancel@).contains(declared)
                <==> in_fields || in_token
            &&& super::plan::token_views(plan.generics_future@).contains(declared) <==> in_fields
                || in_token || in_output
            &&& lt == plan.last_lt@ ==> in_token
            &&& in_output ==> lt == plan.last_lt@
        }),
{
    let params = sig.params;
    let lifetimes = super::plan::lifetimes_of(params);
    let last_lt = lifetimes.last();
    let fields = super::syntax::ty_views(plan.fields@);
    let token = plan.cancel_type.view();
    let both = fields.push(token);
    let used = super::rewrite::used_lifetimes(fields, lifetimes);
    let used_in_future = super::rewrite::used_lifetimes(both, lifetimes);
    used_lifetimes_are_named(fields, lifetimes, lt);
    used_lifetimes_are_named(both, lifetimes, lt);
    if super::rewrite::some_ty_mentions(fields, lt) {
        let i = choose|i: int|
            0 <= i < fields.len() && super::contains::ty_mentions(#[trigger] fields[i], lt);
        assert(super::contains::ty_mentions(both[i], lt));
    }
    if super::contains::ty_mentions(token, lt) {
        assert(super::contains::ty_mentions(both[fields.len() as int], lt));
    }
    if super::rewrite::some_ty_mentions(both, lt) {
        let i = choose|i: int|
            0 <= i < both.len() && super::contains::ty_mentions(#[trigger] both[i], lt);
        if i < fields.len() {
            assert(super::contains::ty_mentions(fields[i], lt));
        }
    }
    listed_lifetimes(used, super::plan::types_before_last(params), lt);
    listed_lifetimes(used_in_future, super::plan::types_before_last(params), lt);
    listed_lifetimes(used_in_future, super::plan::types_of(params), lt);
    if lt != last_lt {
        redirected_lifetimes_vanish(sig.output->0, lifetimes, last_lt, lt);
    }
}

proof fn listed_lifetimes(lifetimes: Seq<Seq<char>>, types: Seq<Seq<char>>, lt: Seq<char>)
    ensures
        super::plan::separated(super::plan::params_in_order(lifetimes, types)).contains(
            super::plan::TokenView::Lifetime(lt),
        ) <==> lifetimes.contains(lt),
{
    let items = super::plan::params_in_order(lifetimes, types);
    let list = super::plan::separated(items);
    let token = super::plan::TokenView::Lifetime(lt);
    if lifetimes.contains(lt) {
        let i = lifetimes.index_of(lt);
        assert(items[i] == token);
        assert((2 * i) % 2 == 0 && (2 * i) / 2 == i);
        assert(list[2 * i] == token);
    }
    if list.contains(token) {
        let k = list.index_of(token);
        assert(k % 2 == 0);
        let i = k / 2;
        assert(items[i] == token);
        assert(i < lifetimes.len());
        assert(lifetimes[i] == lt);
    }
}

pub(crate) proof fn filtered_members<A>(list: Seq<A>, keep: spec_fn(A) -> bool, item: A)
    ensures
        list.filter(keep).contains(item) <==> list.contains(item) && keep(item),
    decreases list.len(),
{
    reveal(Seq::filter);
    if list.len() > 0 {
        let rest = list.drop_last();
        filtered_members(rest, keep, item);
        let sub = rest.filter(keep);
        let whole = list.filter(keep);
        if list.contains(item) {
            let i = list.index_of(item);
            if i < list.len() - 1 {
                assert(rest[i] == item);
            }
        }
        if rest.contains(item) {
            let i = rest.index_of(item);
            assert(list[i] == item);
        }
        if keep(list.last()) {
            assert(whole == sub.push(list.last()));
            assert(whole.last() == list.last());
            if sub.contains(item) {
                let k = sub.index_of(item);
                assert(whole[k] == item);
            }
            if whole.contains(item) {
                let k = whole.index_of(item);
                if k < sub.len() {
                    assert(sub[k] == item);
                }
            }
        }
        assert(list[list.len() - 1] == list.last());
    }
}

} // verus!
