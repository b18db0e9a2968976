//! The keys in a signature and in a plan.
//!
//! A key is the place, counted from one, of a text that is kept beside the signature.

use vstd::prelude::*;

verus! {

/// `key` is the place of one of `count` kept texts.
pub open spec fn is_key(key: usize, count: nat) -> bool {
    1 <= key <= count
}

/// All keys in the type are places of kept texts.
pub open spec fn ty_keys_within(ty: super::syntax::TyView, count: nat) -> bool
    decreases ty,
{
    match ty {
        super::syntax::TyView::Reference { elem, .. } => ty_keys_within(*elem, count),
        super::syntax::TyView::Path { prefix, .. } => {
            &&& prefix matches Some(key) ==> is_key(key, count)
            &&& forall|i: int|
                #![trigger ty.path()[i]]
                0 <= i < ty.path().len() ==> segment_keys_within(ty.path()[i], count)
        },
        super::syntax::TyView::Tuple(_) => forall|i: int|
            #![trigger ty.elems()[i]]
            0 <= i < ty.elems().len() ==> ty_keys_within(ty.elems()[i], count),
        super::syntax::TyView::Array(elem, len) => is_key(len, count) && ty_keys_within(
            *elem,
            count,
        ),
        super::syntax::TyView::Slice(elem) => ty_keys_within(*elem, count),
        super::syntax::TyView::Paren(elem) => ty_keys_within(*elem, count),
        super::syntax::TyView::Group(elem) => ty_keys_within(*elem, count),
        super::syntax::TyView::Other(key) => is_key(key, count),
    }
}

/// All keys in the path segment are places of kept texts.
pub open spec fn segment_keys_within(seg: super::syntax::SegmentView, count: nat) -> bool
    decreases seg,
{
    &&& seg.args matches super::syntax::ArgsView::Other(key) ==> is_key(key, count)
    &&& forall|j: int|
        #![trigger seg.angle()[j]]
        0 <= j < seg.angle().len() ==> arg_keys_within(seg.angle()[j], count)
}

/// All keys in the generic argument are places of kept texts.
pub open spec fn arg_keys_within(arg: super::syntax::ArgView, count: nat) -> bool
    decreases arg,
{
    match arg {
        super::syntax::ArgView::Lifetime(_) => true,
        super::syntax::ArgView::Type(ty) => ty_keys_within(ty, count),
        super::syntax::ArgView::Other(key) => is_key(key, count),
    }
}

/// All keys in the arguments and in the return type of the function are places of kept
/// texts.
pub open spec fn sig_keys_within(sig: super::syntax::SigView, count: nat) -> bool {
    &&& forall|i: int|
        0 <= i < sig.inputs.len() ==> match #[trigger] sig.inputs[i] {
            super::syntax::FnArgView::Receiver => true,
            super::syntax::FnArgView::Typed(pat, ty) => is_key(pat, count) && ty_keys_within(
                ty,
                count,
            ),
        }
    &&& sig.output matches Some(ty) ==> ty_keys_within(ty, count)
}

/// All keys in the plan are places of kept texts.
pub open spec fn plan_keys_within(plan: super::plan::FuturePlan, count: nat) -> bool {
    &&& forall|i: int|
        0 <= i < plan.patterns@.len() ==> is_key(#[trigger] plan.patterns@[i], count)
    &&& forall|i: int|
        0 <= i < plan.fields@.len() ==> ty_keys_within((#[trigger] plan.fields@[i]).view(), count)
    &&& ty_keys_within(plan.cancel_type.view(), count)
    &&& ty_keys_within(plan.output.view(), count)
}

/// Rewriting the lifetimes of a type brings no new keys.
pub proof fn rewriting_keeps_keys(
    ty: super::syntax::TyView,
    rule: super::rewrite::RuleView,
    count: nat,
)
    requires
        ty_keys_within(ty, count),
    ensures
        ty_keys_within(super::rewrite::rewritten(ty, rule), count),
    decreases ty,
{
    let after = super::rewrite::rewritten(ty, rule);
    match ty {
        super::syntax::TyView::Reference { elem, .. } => rewriting_keeps_keys(*elem, rule, count),
        super::syntax::TyView::Path { segments, .. } => {
            assert forall|i: int|
                #![trigger after.path()[i]]
                0 <= i < after.path().len() implies segment_keys_within(after.path()[i], count) by {
                assert(segment_keys_within(ty.path()[i], count));
                rewriting_keeps_segment_keys(segments[i], rule, count);
            }
        },
        super::syntax::TyView::Tuple(elems) => {
            assert forall|i: int|
                #![trigger after.elems()[i]]
                0 <= i < after.elems().len() implies ty_keys_within(after.elems()[i], count) by {
                assert(ty_keys_within(ty.elems()[i], count));
                rewriting_keeps_keys(elems[i], rule, count);
            }
        },
        super::syntax::TyView::Array(elem, _) => rewriting_keeps_keys(*elem, rule, count),
        super::syntax::TyView::Slice(elem) => rewriting_keeps_keys(*elem, rule, count),
        super::syntax::TyView::Paren(elem) => rewriting_keeps_keys(*elem, rule, count),
        super::syntax::TyView::Group(elem) => rewriting_keeps_keys(*elem, rule, count),
        super::syntax::TyView::Other(_) => {},
    }
}

proof fn rewriting_keeps_segment_keys(
    seg: super::syntax::SegmentView,
    rule: super::rewrite::RuleView,
    count: nat,
)
    requires
        segment_keys_within(seg, count),
    ensures
        segment_keys_within(super::rewrite::rewritten_segment(seg, rule), count),
    decreases seg,
{
    let after = super::rewrite::rewritten_segment(seg, rule);
    assert forall|j: int|
        #![trigger after.angle()[j]]
        0 <= j < after.angle().len() implies arg_keys_within(after.angle()[j], count) by {
        let arg = seg.angle()[j];
        assert(arg_keys_within(arg, count));
        assert(after.angle()[j] == super::rewrite::rewritten_arg(arg, rule));
        if let super::syntax::ArgView::Type(ty) = arg {
            rewriting_keeps_keys(ty, rule, count);
        }
    }
}

/// A plan has no keys but those of its signature.
pub proof fn planning_keeps_keys(
    plan: super::plan::FuturePlan,
    prefix: Seq<super::syntax::PathView>,
    sig: super::syntax::SigView,
    count: nat,
)
    requires
        super::plan::plan_error(prefix, sig) is None,
        super::plan::is_plan(plan, prefix, sig),
        sig_keys_within(sig, count),
    ensures
        plan_keys_within(plan, count),
{
    let lifetimes = super::plan::lifetimes_of(sig.params);
    let last_lt = lifetimes.last();
    let unify = super::rewrite::RuleView::Unify(last_lt);
    let inputs = sig.inputs;
    assert forall|i: int| 0 <= i < inputs.len() implies {
        &&& #[trigger] inputs[i] is Typed
        &&& is_key(inputs[i]->Typed_0, count)
        &&& ty_keys_within(
            super::rewrite::rewritten(inputs[i]->Typed_1, unify),
            count,
        )
    } by {
        assert(!(inputs[i] is Receiver)) by {
            if inputs[i] is Receiver {
                assert(inputs[i] == super::syntax::FnArgView::Receiver);
                assert(super::plan::has_receiver(inputs));
            }
        }
        rewriting_keeps_keys(inputs[i]->Typed_1, unify, count);
    }
    assert forall|i: int| 0 <= i < plan.patterns@.len() implies is_key(
        #[trigger] plan.patterns@[i],
        count,
    ) by {
        assert(inputs.drop_last()[i] == inputs[i]);
    }
    let fields = super::syntax::ty_views(plan.fields@);
    assert(fields == super::plan::field_types(inputs, last_lt));
    assert(fields.len() == inputs.drop_last().len());
    assert forall|i: int| 0 <= i < plan.fields@.len() implies ty_keys_within(
        (#[trigger] plan.fields@[i]).view(),
        count,
    ) by {
        assert(fields[i] == plan.fields@[i].view());
        assert(inputs.drop_last()[i] == inputs[i]);
        assert(fields[i] == super::rewrite::rewritten(inputs[i]->Typed_1, unify));
    }
    assert(inputs.last() == inputs[inputs.len() - 1]);
    rewriting_keeps_keys(
        sig.output->0,
        super::rewrite::RuleView::Redirect(lifetimes, last_lt),
        count,
    );
}

} // verus!
