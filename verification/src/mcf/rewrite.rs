//! Rewriting the lifetimes of a type.

use vstd::prelude::*;

use super::contains::{lifetimes_contain, ty_contains_lifetime};
use super::syntax::{GenericArg, Lifetime, Segment, SegmentArgs, Ty};

verus! {

/// How lifetimes are rewritten.
#[derive(Debug)]
pub enum Rule<'a> {
    /// Every reference gets this lifetime; lifetimes among generic arguments stay.
    Unify(&'a Lifetime),
    /// Each of the first lifetimes but the second becomes the second; all other
    /// lifetimes stay, and so do references without one.
    Redirect(&'a Vec<Lifetime>, &'a Lifetime),
}

/// What a [`Rule`] means.
pub ghost enum RuleView {
    Unify(Seq<char>),
    Redirect(Seq<Seq<char>>, Seq<char>),
}

impl<'a> View for Rule<'a> {
    type V = RuleView;

    open spec fn view(&self) -> RuleView {
        match *self {
            Rule::Unify(lt) => RuleView::Unify(lt@),
            Rule::Redirect(users, last) => RuleView::Redirect(
                super::syntax::lifetime_names(users@),
                last@,
            ),
        }
    }
}

impl RuleView {
    /// The rule replaces the lifetime `lt` where it is written.
    pub open spec fn replaces(self, lt: Seq<char>) -> bool {
        match self {
            RuleView::Unify(_) => false,
            RuleView::Redirect(users, last) => lt != last && users.contains(lt),
        }
    }

    /// The lifetime of a reference after the rule.
    pub open spec fn on_reference(self, lifetime: Option<Seq<char>>) -> Option<Seq<char>> {
        match self {
            RuleView::Unify(new) => Some(new),
            RuleView::Redirect(_, last) => match lifetime {
                Some(lt) => if self.replaces(lt) {
                    Some(last)
                } else {
                    Some(lt)
                },
                None => None,
            },
        }
    }

    /// The generic argument `lt` after the rule.
    pub open spec fn on_argument(self, lt: Seq<char>) -> Seq<char> {
        match self {
            RuleView::Unify(_) => lt,
            RuleView::Redirect(_, last) => if self.replaces(lt) {
                last
            } else {
                lt
            },
        }
    }
}

/// The type after the rule was applied to every reference and every lifetime argument
/// that is reached through references, tuples, arrays, slices, groups and paths.
pub open spec fn rewritten(ty: super::syntax::TyView, rule: RuleView) -> super::syntax::TyView
    decreases ty,
{
    match ty {
        super::syntax::TyView::Reference { lifetime, mutable, elem } =>
            super::syntax::TyView::Reference {
            lifetime: rule.on_reference(lifetime),
            mutable,
            elem: Box::new(rewritten(*elem, rule)),
        },
        super::syntax::TyView::Tuple(elems) => super::syntax::TyView::Tuple(
            Seq::new(
                elems.len(),
                |i: int|
                    if 0 <= i < elems.len() {
                        rewritten(elems[i], rule)
                    } else {
                        arbitrary()
                    },
            ),
        ),
        super::syntax::TyView::Array(elem, len) => super::syntax::TyView::Array(
            Box::new(rewritten(*elem, rule)),
            len,
        ),
        super::syntax::TyView::Slice(elem) => super::syntax::TyView::Slice(
            Box::new(rewritten(*elem, rule)),
        ),
        super::syntax::TyView::Paren(elem) => super::syntax::TyView::Paren(
            Box::new(rewritten(*elem, rule)),
        ),
        super::syntax::TyView::Group(elem) => super::syntax::TyView::Group(
            Box::new(rewritten(*elem, rule)),
        ),
        super::syntax::TyView::Path { prefix, segments } => super::syntax::TyView::Path {
            prefix,
            segments: Seq::new(
                segments.len(),
                |i: int|
                    if 0 <= i < segments.len() {
                        rewritten_segment(segments[i], rule)
                    } else {
                        arbitrary()
                    },
            ),
        },
        super::syntax::TyView::Other(key) => super::syntax::TyView::Other(key),
    }
}

/// The path segment after the rule.
pub open spec fn rewritten_segment(
    seg: super::syntax::SegmentView,
    rule: RuleView,
) -> super::syntax::SegmentView
    decreases seg,
{
    super::syntax::SegmentView {
        ident: seg.ident,
        args: match seg.args {
            super::syntax::ArgsView::Angle(list) => super::syntax::ArgsView::Angle(
                Seq::new(
                    list.len(),
                    |j: int|
                        if 0 <= j < list.len() {
                            rewritten_arg(list[j], rule)
                        } else {
                            arbitrary()
                        },
                ),
            ),
            other => other,
        },
    }
}

/// The generic argument after the rule.
pub open spec fn rewritten_arg(
    arg: super::syntax::ArgView,
    rule: RuleView,
) -> super::syntax::ArgView
    decreases arg,
{
    match arg {
        super::syntax::ArgView::Lifetime(lt) => super::syntax::ArgView::Lifetime(
            rule.on_argument(lt),
        ),
        super::syntax::ArgView::Type(ty) => super::syntax::ArgView::Type(rewritten(ty, rule)),
        super::syntax::ArgView::Other(key) => super::syntax::ArgView::Other(key),
    }
}

impl<'a> Rule<'a> {
    fn replaces(&self, lt: &Lifetime) -> (yes: bool)
        ensures
            yes == self@.replaces(lt@),
    {
        match self {
            Rule::Unify(_) => false,
            Rule::Redirect(users, last) => !lt.same(last) && lifetimes_contain(users, lt),
        }
    }

    fn on_reference(&self, lifetime: &Option<Lifetime>) -> (after: Option<Lifetime>)
        ensures
            optional_name(after) == self@.on_reference(optional_name(*lifetime)),
    {
        match self {
            Rule::Unify(new) => Some(new.duplicate()),
            Rule::Redirect(_, last) => match lifetime {
                Some(lt) => if self.replaces(lt) {
                    Some(last.duplicate())
                } else {
                    Some(lt.duplicate())
                },
                None => None,
            },
        }
    }

    fn on_argument(&self, lt: &Lifetime) -> (after: Lifetime)
        ensures
            after@ == self@.on_argument(lt@),
    {
        match self {
            Rule::Unify(_) => lt.duplicate(),
            Rule::Redirect(_, last) => if self.replaces(lt) {
                last.duplicate()
            } else {
                lt.duplicate()
            },
        }
    }
}

/// The name of a lifetime that may be missing.
pub open spec fn optional_name(lifetime: Option<Lifetime>) -> Option<Seq<char>> {
    match lifetime {
        Some(lt) => Some(lt@),
        None => None,
    }
}

/// The type with its lifetimes rewritten by `rule`.
pub fn rewrite(ty: &Ty, rule: &Rule<'_>) -> (after: Ty)
    ensures
        after.view() == rewritten(ty.view(), rule@),
    decreases ty,
{
    match ty {
        Ty::Reference { lifetime, mutable, elem } => Ty::Reference {
            lifetime: rule.on_reference(lifetime),
            mutable: *mutable,
            elem: Box::new(rewrite(elem, rule)),
        },
        Ty::Tuple(elems) => {
            let mut done: Vec<Ty> = Vec::new();
            let mut i: usize = 0;
            while i < elems.len()
                invariant
                    *ty matches Ty::Tuple(own) && own == elems,
                    i <= elems@.len(),
                    done@.len() == i,
                    forall|k: int|
                        0 <= k < i ==> (#[trigger] done@[k]).view() == rewritten(
                            elems@[k].view(),
                            rule@,
                        ),
                decreases elems@.len() - i,
            {
                let elem = rewrite(&elems[i], rule);
                done.push(elem);
                i = i + 1;
            }
            let after = Ty::Tuple(done);
            proof {
                let want = rewritten(ty.view(), rule@);
                assert(after.view().elems() =~= want.elems());
            }
            after
        },
        Ty::Array(elem, len) => Ty::Array(Box::new(rewrite(elem, rule)), *len),
        Ty::Slice(elem) => Ty::Slice(Box::new(rewrite(elem, rule))),
        Ty::Paren(elem) => Ty::Paren(Box::new(rewrite(elem, rule))),
        Ty::Group(elem) => Ty::Group(Box::new(rewrite(elem, rule))),
        Ty::Path { prefix, segments } => {
            let mut done: Vec<Segment> = Vec::new();
            let mut i: usize = 0;
            while i < segments.len()
                invariant
                    *ty matches Ty::Path { segments: own, .. } && own == segments,
                    i <= segments@.len(),
                    done@.len() == i,
                    forall|k: int|
                        0 <= k < i ==> (#[trigger] done@[k]).view() == rewritten_segment(
                            segments@[k].view(),
                            rule@,
                        ),
                decreases segments@.len() - i,
            {
                let seg = rewrite_segment(&segments[i], rule);
                done.push(seg);
                i = i + 1;
            }
            let after = Ty::Path { prefix: *prefix, segments: done };
            proof {
                let want = rewritten(ty.view(), rule@);
                assert(after.view()->Path_segments =~= want->Path_segments);
            }
            after
        },
        Ty::Other(key) => Ty::Other(*key),
    }
}

fn rewrite_segment(seg: &Segment, rule: &Rule<'_>) -> (after: Segment)
    ensures
        after.view() == rewritten_segment(seg.view(), rule@),
    decreases seg,
{
    let args = match &seg.args {
        SegmentArgs::Plain => SegmentArgs::Plain,
        SegmentArgs::Angle(list) => {
            let mut done: Vec<GenericArg> = Vec::new();
            let mut j: usize = 0;
            while j < list.len()
                invariant
                    seg.args matches SegmentArgs::Angle(own) && own == list,
                    j <= list@.len(),
                    done@.len() == j,
                    forall|k: int|
                        0 <= k < j ==> (#[trigger] done@[k]).view() == rewritten_arg(
                            list@[k].view(),
                            rule@,
                        ),
                decreases list@.len() - j,
            {
                let arg = match &list[j] {
                    GenericArg::Lifetime(lt) => GenericArg::Lifetime(rule.on_argument(lt)),
                    GenericArg::Type(ty) => GenericArg::Type(rewrite(ty, rule)),
                    GenericArg::Other(key) => GenericArg::Other(*key),
                };
                done.push(arg);
                j = j + 1;
            }
            SegmentArgs::Angle(done)
        },
        SegmentArgs::Other(key) => SegmentArgs::Other(*key),
    };
    let after = Segment { ident: seg.ident.clone(), args };
    proof {
        let want = rewritten_segment(seg.view(), rule@);
        assert(after.view().angle() =~= want.angle());
    }
    after
}

/// One of the types names the lifetime `lt`.
pub open spec fn some_ty_mentions(types: Seq<super::syntax::TyView>, lt: Seq<char>) -> bool {
    exists|i: int| 0 <= i < types.len() && super::contains::ty_mentions(#[trigger] types[i], lt)
}

/// Those of `all` that one of the types names, in their order.
pub open spec fn used_lifetimes(
    types: Seq<super::syntax::TyView>,
    all: Seq<Seq<char>>,
) -> Seq<Seq<char>> {
    all.filter(|lt: Seq<char>| some_ty_mentions(types, lt))
}

fn types_contain_lifetime(types: &Vec<Ty>, lt: &Lifetime) -> (found: bool)
    ensures
        found == some_ty_mentions(super::syntax::ty_views(types@), lt@),
{
    let ghost views = super::syntax::ty_views(types@);
    let mut i: usize = 0;
    while i < types.len()
        invariant
            views == super::syntax::ty_views(types@),
            i <= types@.len(),
            forall|k: int|
                0 <= k < i ==> !super::contains::ty_mentions(#[trigger] views[k], lt@),
        decreases types@.len() - i,
    {
        if ty_contains_lifetime(&types[i], lt) {
            assert(super::contains::ty_mentions(views[i as int], lt@));
            return true;
        }
        i = i + 1;
    }
    false
}

/// Those of `all_lifetimes` that one of the types names, in their order.
pub fn collect_used_lifetimes(types: &Vec<Ty>, all_lifetimes: &Vec<Lifetime>) -> (used: Vec<
    Lifetime,
>)
    ensures
        super::syntax::lifetime_names(used@) == used_lifetimes(
            super::syntax::ty_views(types@),
            super::syntax::lifetime_names(all_lifetimes@),
        ),
{
    let ghost views = super::syntax::ty_views(types@);
    let ghost all = super::syntax::lifetime_names(all_lifetimes@);
    let ghost keep = |lt: Seq<char>| some_ty_mentions(views, lt);
    let mut used: Vec<Lifetime> = Vec::new();
    let mut i: usize = 0;
    proof {
        reveal(Seq::filter);
        assert(super::syntax::lifetime_names(used@) =~= all.take(0).filter(keep));
    }
    while i < all_lifetimes.len()
        invariant
            views == super::syntax::ty_views(types@),
            all == super::syntax::lifetime_names(all_lifetimes@),
            keep == (|lt: Seq<char>| some_ty_mentions(views, lt)),
            i <= all_lifetimes@.len(),
            super::syntax::lifetime_names(used@) == all.take(i as int).filter(keep),
        decreases all_lifetimes@.len() - i,
    {
        proof {
            reveal(Seq::filter);
            assert(all.take(i + 1).drop_last() =~= all.take(i as int));
            assert(all.take(i + 1).last() == all_lifetimes@[i as int]@);
        }
        let ghost before = used@;
        if types_contain_lifetime(types, &all_lifetimes[i]) {
            used.push(all_lifetimes[i].duplicate());
            assert(super::syntax::lifetime_names(used@) =~= super::syntax::lifetime_names(
                before,
            ).push(all_lifetimes@[i as int]@));
        }
        i = i + 1;
    }
    assert(all.take(i as int) =~= all);
    used
}

/// The type with every reference on the lifetime `new_lt`.
pub fn transform_type_outer_lifetime(ty: &Ty, new_lt: &Lifetime) -> (after: Ty)
    ensures
        after.view() == rewritten(ty.view(), RuleView::Unify(new_lt@)),
{
    rewrite(ty, &Rule::Unify(new_lt))
}

/// The return type with every lifetime of `user_lifetimes` replaced by `last_lt`. Other
/// lifetimes, such as `'static` and elided ones, stay.
pub fn transform_output_lifetimes(
    ty: &Ty,
    user_lifetimes: &Vec<Lifetime>,
    last_lt: &Lifetime,
) -> (after: Ty)
    ensures
        after.view() == rewritten(
            ty.view(),
            RuleView::Redirect(super::syntax::lifetime_names(user_lifetimes@), last_lt@),
        ),
{
    rewrite(ty, &Rule::Redirect(user_lifetimes, last_lt))
}

} // verus!
