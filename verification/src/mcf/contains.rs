//! Which lifetimes and type parameters occur in a type or in a where predicate.

use vstd::prelude::*;

use super::syntax::{Bound, GenericArg, Lifetime, Predicate, Segment, SegmentArgs, Ty};

verus! {

/// The type names the lifetime `lt` somewhere, on a reference or as a generic argument.
///
/// What is kept under a key is not seen: trait objects, `impl` types, function pointers
/// and the like (`Other` types), what stands before a path, arguments in parentheses, and
/// generic arguments that are neither a lifetime nor a type, such as `Item = T`.
pub open spec fn ty_mentions(ty: super::syntax::TyView, lt: Seq<char>) -> bool
    decreases ty,
{
    match ty {
        super::syntax::TyView::Reference { lifetime, elem, .. } => lifetime == Some(lt)
            || ty_mentions(*elem, lt),
        super::syntax::TyView::Tuple(_) => exists|i: int|
            #![trigger ty.elems()[i]]
            0 <= i < ty.elems().len() && ty_mentions(ty.elems()[i], lt),
        super::syntax::TyView::Array(elem, _) => ty_mentions(*elem, lt),
        super::syntax::TyView::Slice(elem) => ty_mentions(*elem, lt),
        super::syntax::TyView::Paren(elem) => ty_mentions(*elem, lt),
        super::syntax::TyView::Group(elem) => ty_mentions(*elem, lt),
        super::syntax::TyView::Path { .. } => exists|i: int, j: int|
            #![trigger ty.path()[i].angle()[j]]
            0 <= i < ty.path().len() && 0 <= j < ty.path()[i].angle().len() && {
                match ty.path()[i].angle()[j] {
                    super::syntax::ArgView::Lifetime(name) => name == lt,
                    super::syntax::ArgView::Type(inner) => ty_mentions(inner, lt),
                    super::syntax::ArgView::Other(_) => false,
                }
            },
        super::syntax::TyView::Other(_) => false,
    }
}

/// The generic argument names the lifetime `lt`.
pub open spec fn arg_mentions(arg: super::syntax::ArgView, lt: Seq<char>) -> bool {
    match arg {
        super::syntax::ArgView::Lifetime(name) => name == lt,
        super::syntax::ArgView::Type(ty) => ty_mentions(ty, lt),
        super::syntax::ArgView::Other(_) => false,
    }
}

/// The path segment names the lifetime `lt` among its arguments.
pub open spec fn segment_mentions(seg: super::syntax::SegmentView, lt: Seq<char>) -> bool {
    exists|j: int|
        #![trigger seg.angle()[j]]
        0 <= j < seg.angle().len() && arg_mentions(seg.angle()[j], lt)
}

/// Whether the type names the lifetime `target_lt`.
pub fn ty_contains_lifetime(ty: &Ty, target_lt: &Lifetime) -> (found: bool)
    ensures
        found == ty_mentions(ty.view(), target_lt@),
    decreases ty,
{
    match ty {
        Ty::Reference { lifetime, elem, .. } => {
            if let Some(lt) = lifetime {
                if lt.same(target_lt) {
                    return true;
                }
            }
            ty_contains_lifetime(elem, target_lt)
        },
        Ty::Path { segments, .. } => {
            let ghost segs = ty.view().path();
            let mut i: usize = 0;
            while i < segments.len()
                invariant
                    *ty matches Ty::Path { segments: s, .. } && s == segments,
                    ty.view() == (super::syntax::TyView::Path {
                        prefix: ty->Path_prefix,
                        segments: segs,
                    }),
                    segs.len() == segments@.len(),
                    forall|k: int|
                        0 <= k < segs.len() ==> #[trigger] segs[k] == segments@[k].view(),
                    i <= segments@.len(),
                    forall|k: int| 0 <= k < i ==> !segment_mentions(#[trigger] segs[k], target_lt@),
                decreases segments@.len() - i,
            {
                assert(segs[i as int] == segments@[i as int].view());
                if segment_contains_lifetime(&segments[i], target_lt) {
                    proof {
                        let seg = segs[i as int];
                        let j = choose|j: int|
                            #![trigger seg.angle()[j]]
                            0 <= j < seg.angle().len() && arg_mentions(seg.angle()[j], target_lt@);
                        assert(arg_mentions(ty.view().path()[i as int].angle()[j], target_lt@));
                    }
                    return true;
                }
                i = i + 1;
            }
            proof {
                assert forall|a: int, b: int|
                    #![trigger segs[a].angle()[b]]
                    0 <= a < segs.len() && 0 <= b < segs[a].angle().len() implies !arg_mentions(
                    segs[a].angle()[b],
                    target_lt@,
                ) by {
                    assert(!segment_mentions(segs[a], target_lt@));
                }
            }
            false
        },
        Ty::Tuple(elems) => {
            let ghost views = ty.view().elems();
            let mut i: usize = 0;
            while i < elems.len()
                invariant
                    *ty matches Ty::Tuple(own) && own == elems,
                    ty.view() == super::syntax::TyView::Tuple(views),
                    views.len() == elems@.len(),
                    forall|k: int|
                        0 <= k < views.len() ==> #[trigger] views[k] == elems@[k].view(),
                    i <= elems@.len(),
                    forall|k: int| 0 <= k < i ==> !ty_mentions(#[trigger] views[k], target_lt@),
                decreases elems@.len() - i,
            {
                assert(views[i as int] == elems@[i as int].view());
                if ty_contains_lifetime(&elems[i], target_lt) {
                    assert(ty_mentions(ty.view().elems()[i as int], target_lt@));
                    return true;
                }
                i = i + 1;
            }
            false
        },
        Ty::Array(elem, _) => ty_contains_lifetime(elem, target_lt),
        Ty::Slice(elem) => ty_contains_lifetime(elem, target_lt),
        Ty::Paren(elem) => ty_contains_lifetime(elem, target_lt),
        Ty::Group(elem) => ty_contains_lifetime(elem, target_lt),
        Ty::Other(_) => false,
    }
}

fn segment_contains_lifetime(seg: &Segment, target_lt: &Lifetime) -> (found: bool)
    ensures
        found == segment_mentions(seg.view(), target_lt@),
    decreases seg,
{
    if let SegmentArgs::Angle(list) = &seg.args {
        let ghost l = seg.view().angle();
        let mut j: usize = 0;
        while j < list.len()
            invariant
                seg.args matches SegmentArgs::Angle(own) && own == list,
                l == seg.view().angle(),
                l.len() == list@.len(),
                forall|k: int| 0 <= k < l.len() ==> #[trigger] l[k] == list@[k].view(),
                j <= list@.len(),
                forall|k: int| 0 <= k < j ==> !arg_mentions(#[trigger] l[k], target_lt@),
            decreases list@.len() - j,
        {
            assert(l[j as int] == list@[j as int].view());
            let here = match &list[j] {
                GenericArg::Lifetime(lt) => lt.same(target_lt),
                GenericArg::Type(ty) => ty_contains_lifetime(ty, target_lt),
                GenericArg::Other(_) => false,
            };
            if here {
                assert(arg_mentions(seg.view().angle()[j as int], target_lt@));
                return true;
            }
            j = j + 1;
        }
    }
    false
}

/// The type uses the type parameter `name`: as the last segment of a path, or in the
/// generic arguments of a path; looking through references, tuples, arrays, slices,
/// parentheses and groups. What is kept under a key is not seen.
pub open spec fn ty_uses(ty: super::syntax::TyView, name: Seq<char>) -> bool
    decreases ty,
{
    match ty {
        super::syntax::TyView::Path { segments, .. } => {
            ||| segments.len() > 0 && segments.last().ident == name
            ||| exists|i: int, j: int|
                #![trigger segments[i].angle()[j]]
                0 <= i < segments.len() && 0 <= j < segments[i].angle().len() && {
                    match segments[i].angle()[j] {
                        super::syntax::ArgView::Lifetime(lt) => lt == name,
                        super::syntax::ArgView::Type(inner) => ty_uses(inner, name),
                        super::syntax::ArgView::Other(_) => false,
                    }
                }
        },
        super::syntax::TyView::Reference { elem, .. } => ty_uses(*elem, name),
        super::syntax::TyView::Tuple(_) => exists|i: int|
            #![trigger ty.elems()[i]]
            0 <= i < ty.elems().len() && ty_uses(ty.elems()[i], name),
        super::syntax::TyView::Array(elem, _) => ty_uses(*elem, name),
        super::syntax::TyView::Slice(elem) => ty_uses(*elem, name),
        super::syntax::TyView::Paren(elem) => ty_uses(*elem, name),
        super::syntax::TyView::Group(elem) => ty_uses(*elem, name),
        super::syntax::TyView::Other(_) => false,
    }
}

/// The generic argument uses the type parameter `name`.
pub open spec fn arg_uses(arg: super::syntax::ArgView, name: Seq<char>) -> bool {
    match arg {
        super::syntax::ArgView::Lifetime(lt) => lt == name,
        super::syntax::ArgView::Type(ty) => ty_uses(ty, name),
        super::syntax::ArgView::Other(_) => false,
    }
}

/// The path segment uses the type parameter `name` among its arguments.
pub open spec fn segment_uses(seg: super::syntax::SegmentView, name: Seq<char>) -> bool {
    exists|j: int|
        #![trigger seg.angle()[j]]
        0 <= j < seg.angle().len() && arg_uses(seg.angle()[j], name)
}

/// Whether the type uses the type parameter `target_ident`.
pub fn ty_contains_type_param(ty: &Ty, target_ident: &String) -> (found: bool)
    ensures
        found == ty_uses(ty.view(), target_ident@),
    decreases ty,
{
    match ty {
        Ty::Path { segments, .. } => {
            let ghost segs = ty.view()->Path_segments;
            if segments.len() > 0 {
                let last = &segments[segments.len() - 1];
                assert(segs.last() == segments@.last().view());
                if last.ident == *target_ident {
                    return true;
                }
            }
            let mut i: usize = 0;
            while i < segments.len()
                invariant
                    *ty matches Ty::Path { segments: s, .. } && s == segments,
                    ty.view() == (super::syntax::TyView::Path {
                        prefix: ty->Path_prefix,
                        segments: segs,
                    }),
                    segs.len() == segments@.len(),
                    forall|k: int|
                        0 <= k < segs.len() ==> #[trigger] segs[k] == segments@[k].view(),
                    segs.len() > 0 ==> segs.last().ident != target_ident@,
                    i <= segments@.len(),
                    forall|k: int| 0 <= k < i ==> !segment_uses(#[trigger] segs[k], target_ident@),
                decreases segments@.len() - i,
            {
                assert(segs[i as int] == segments@[i as int].view());
                if segment_contains_type_param(&segments[i], target_ident) {
                    proof {
                        let seg = segs[i as int];
                        let j = choose|j: int|
                            #![trigger seg.angle()[j]]
                            0 <= j < seg.angle().len() && arg_uses(seg.angle()[j], target_ident@);
                        assert(arg_uses(segs[i as int].angle()[j], target_ident@));
                    }
                    return true;
                }
                i = i + 1;
            }
            proof {
                assert forall|a: int, b: int|
                    #![trigger segs[a].angle()[b]]
                    0 <= a < segs.len() && 0 <= b < segs[a].angle().len() implies !arg_uses(
                    segs[a].angle()[b],
                    target_ident@,
                ) by {
                    assert(!segment_uses(segs[a], target_ident@));
                }
            }
            false
        },
        Ty::Reference { elem, .. } => ty_contains_type_param(elem, target_ident),
        Ty::Array(elem, _) => ty_contains_type_param(elem, target_ident),
        Ty::Slice(elem) => ty_contains_type_param(elem, target_ident),
        Ty::Paren(elem) => ty_contains_type_param(elem, target_ident),
        Ty::Group(elem) => ty_contains_type_param(elem, target_ident),
        Ty::Other(_) => false,
        Ty::Tuple(elems) => {
            let ghost views = ty.view().elems();
            let mut i: usize = 0;
            while i < elems.len()
                invariant
                    *ty matches Ty::Tuple(own) && own == elems,
                    ty.view() == super::syntax::TyView::Tuple(views),
                    views.len() == elems@.len(),
                    forall|k: int|
                        0 <= k < views.len() ==> #[trigger] views[k] == elems@[k].view(),
                    i <= elems@.len(),
                    forall|k: int| 0 <= k < i ==> !ty_uses(#[trigger] views[k], target_ident@),
                decreases elems@.len() - i,
            {
                assert(views[i as int] == elems@[i as int].view());
                if ty_contains_type_param(&elems[i], target_ident) {
                    assert(ty_uses(ty.view().elems()[i as int], target_ident@));
                    return true;
                }
                i = i + 1;
            }
            false
        },
    }
}

fn segment_contains_type_param(seg: &Segment, target_ident: &String) -> (found: bool)
    ensures
        found == segment_uses(seg.view(), target_ident@),
    decreases seg,
{
    if let SegmentArgs::Angle(list) = &seg.args {
        let ghost l = seg.view().angle();
        let mut j: usize = 0;
        while j < list.len()
            invariant
                seg.args matches SegmentArgs::Angle(own) && own == list,
                l == seg.view().angle(),
                l.len() == list@.len(),
                forall|k: int| 0 <= k < l.len() ==> #[trigger] l[k] == list@[k].view(),
                j <= list@.len(),
                forall|k: int| 0 <= k < j ==> !arg_uses(#[trigger] l[k], target_ident@),
            decreases list@.len() - j,
        {
            assert(l[j as int] == list@[j as int].view());
            let here = match &list[j] {
                GenericArg::Lifetime(lt) => lt.ident == *target_ident,
                GenericArg::Type(ty) => ty_contains_type_param(ty, target_ident),
                GenericArg::Other(_) => false,
            };
            if here {
                assert(arg_uses(seg.view().angle()[j as int], target_ident@));
                return true;
            }
            j = j + 1;
        }
    }
    false
}

/// The trait path names the lifetime `lt` among the arguments of a segment.
pub open spec fn path_mentions(path: Seq<super::syntax::SegmentView>, lt: Seq<char>) -> bool {
    exists|i: int| 0 <= i < path.len() && segment_mentions(#[trigger] path[i], lt)
}

/// The bound names the lifetime `lt`.
pub open spec fn bound_mentions(bound: super::syntax::BoundView, lt: Seq<char>) -> bool {
    match bound {
        super::syntax::BoundView::Lifetime(name) => name == lt,
        super::syntax::BoundView::Trait(path) => path_mentions(path, lt),
        super::syntax::BoundView::Other(_) => false,
    }
}

/// One of the bounds names the lifetime `lt`.
pub open spec fn some_bound_mentions(bounds: Seq<super::syntax::BoundView>, lt: Seq<char>) -> bool {
    exists|i: int| 0 <= i < bounds.len() && bound_mentions(#[trigger] bounds[i], lt)
}

/// The predicate names the lifetime `lt`.
pub open spec fn predicate_mentions(pred: super::syntax::PredicateView, lt: Seq<char>) -> bool {
    match pred {
        super::syntax::PredicateView::Lifetime { lifetime, outlives } => lifetime == lt
            || outlives.contains(lt),
        super::syntax::PredicateView::Type { bounded, bounds } => {
            ||| ty_mentions(bounded, lt)
            ||| some_bound_mentions(bounds, lt)
        },
        super::syntax::PredicateView::Other(_) => false,
    }
}

/// Whether the predicate names the lifetime `target_lt`.
pub fn predicate_contains_lifetime(pred: &Predicate, target_lt: &Lifetime) -> (found: bool)
    ensures
        found == predicate_mentions(pred@, target_lt@),
{
    match pred {
        Predicate::Lifetime { lifetime, outlives } => lifetime.same(target_lt)
            || lifetimes_contain(outlives, target_lt),
        Predicate::Type { bounded, bounds } => {
            if ty_contains_lifetime(bounded, target_lt) {
                return true;
            }
            let ghost views = pred@->Type_bounds;
            let mut i: usize = 0;
            while i < bounds.len()
                invariant
                    pred@ == (super::syntax::PredicateView::Type {
                        bounded: bounded.view(),
                        bounds: views,
                    }),
                    !ty_mentions(bounded.view(), target_lt@),
                    views.len() == bounds@.len(),
                    forall|k: int|
                        0 <= k < views.len() ==> #[trigger] views[k] == bounds@[k]@,
                    i <= bounds@.len(),
                    forall|k: int|
                        0 <= k < i ==> !bound_mentions(#[trigger] views[k], target_lt@),
                decreases bounds@.len() - i,
            {
                assert(views[i as int] == bounds@[i as int]@);
                let here = match &bounds[i] {
                    Bound::Lifetime(lt) => lt.same(target_lt),
                    Bound::Trait(path) => path_contains_lifetime(path, target_lt),
                    Bound::Other(_) => false,
                };
                if here {
                    assert(bound_mentions(views[i as int], target_lt@));
                    return true;
                }
                i = i + 1;
            }
            false
        },
        Predicate::Other(_) => false,
    }
}

/// Whether the list holds the lifetime `target_lt`.
pub fn lifetimes_contain(list: &Vec<Lifetime>, target_lt: &Lifetime) -> (found: bool)
    ensures
        found == super::syntax::lifetime_names(list@).contains(target_lt@),
{
    let ghost names = super::syntax::lifetime_names(list@);
    let mut i: usize = 0;
    while i < list.len()
        invariant
            names == super::syntax::lifetime_names(list@),
            i <= list@.len(),
            forall|k: int| 0 <= k < i ==> #[trigger] names[k] != target_lt@,
        decreases list@.len() - i,
    {
        if list[i].same(target_lt) {
            assert(names[i as int] == target_lt@);
            return true;
        }
        i = i + 1;
    }
    false
}

fn path_contains_lifetime(path: &Vec<Segment>, target_lt: &Lifetime) -> (found: bool)
    ensures
        found == path_mentions(super::syntax::segment_views(path@), target_lt@),
{
    let ghost views = super::syntax::segment_views(path@);
    let mut i: usize = 0;
    while i < path.len()
        invariant
            views == super::syntax::segment_views(path@),
            i <= path@.len(),
            forall|k: int| 0 <= k < i ==> !segment_mentions(#[trigger] views[k], target_lt@),
        decreases path@.len() - i,
    {
        assert(views[i as int] == path@[i as int].view());
        if segment_contains_lifetime(&path[i], target_lt) {
            return true;
        }
        i = i + 1;
    }
    false
}

/// The trait path uses the type parameter `name`: as the name of a segment, or in a
/// type among the arguments.
pub open spec fn path_uses(path: Seq<super::syntax::SegmentView>, name: Seq<char>) -> bool {
    exists|i: int| 0 <= i < path.len() && trait_segment_uses(#[trigger] path[i], name)
}

/// The segment of a trait path uses the type parameter `name`.
pub open spec fn trait_segment_uses(seg: super::syntax::SegmentView, name: Seq<char>) -> bool {
    ||| seg.ident == name
    ||| exists|j: int|
        #![trigger seg.angle()[j]]
        0 <= j < seg.angle().len() && (seg.angle()[j] matches super::syntax::ArgView::Type(ty)
            && ty_uses(ty, name))
}

/// The bound uses the type parameter `name`.
pub open spec fn bound_uses(bound: super::syntax::BoundView, name: Seq<char>) -> bool {
    bound matches super::syntax::BoundView::Trait(path) && path_uses(path, name)
}

/// One of the bounds uses the type parameter `name`.
pub open spec fn some_bound_uses(bounds: Seq<super::syntax::BoundView>, name: Seq<char>) -> bool {
    exists|i: int| 0 <= i < bounds.len() && bound_uses(#[trigger] bounds[i], name)
}

/// The predicate uses the type parameter `name`.
pub open spec fn predicate_uses(pred: super::syntax::PredicateView, name: Seq<char>) -> bool {
    match pred {
        super::syntax::PredicateView::Type { bounded, bounds } => {
            ||| ty_uses(bounded, name)
            ||| some_bound_uses(bounds, name)
        },
        super::syntax::PredicateView::Lifetime { lifetime, outlives } => lifetime == name
            || outlives.contains(name),
        super::syntax::PredicateView::Other(_) => false,
    }
}

/// Whether the predicate uses the type parameter `target_ident`.
pub fn predicate_contains_type_param(pred: &Predicate, target_ident: &String) -> (found: bool)
    ensures
        found == predicate_uses(pred@, target_ident@),
{
    match pred {
        Predicate::Type { bounded, bounds } => {
            if ty_contains_type_param(bounded, target_ident) {
                return true;
            }
            let ghost views = pred@->Type_bounds;
            let mut i: usize = 0;
            while i < bounds.len()
                invariant
                    pred@ == (super::syntax::PredicateView::Type {
                        bounded: bounded.view(),
                        bounds: views,
                    }),
                    !ty_uses(bounded.view(), target_ident@),
                    views.len() == bounds@.len(),
                    forall|k: int|
                        0 <= k < views.len() ==> #[trigger] views[k] == bounds@[k]@,
                    i <= bounds@.len(),
                    forall|k: int| 0 <= k < i ==> !bound_uses(#[trigger] views[k], target_ident@),
                decreases bounds@.len() - i,
            {
                assert(views[i as int] == bounds@[i as int]@);
                if let Bound::Trait(path) = &bounds[i] {
                    if path_contains_type_param(path, target_ident) {
                        assert(bound_uses(views[i as int], target_ident@));
                        return true;
                    }
                }
                i = i + 1;
            }
            false
        },
        Predicate::Lifetime { lifetime, outlives } => {
            if lifetime.ident == *target_ident {
                return true;
            }
            let target = Lifetime::new(target_ident.clone());
            lifetimes_contain(outlives, &target)
        },
        Predicate::Other(_) => false,
    }
}

fn path_contains_type_param(path: &Vec<Segment>, target_ident: &String) -> (found: bool)
    ensures
        found == path_uses(super::syntax::segment_views(path@), target_ident@),
{
    let ghost views = super::syntax::segment_views(path@);
    let mut i: usize = 0;
    while i < path.len()
        invariant
            views == super::syntax::segment_views(path@),
            i <= path@.len(),
            forall|k: int| 0 <= k < i ==> !trait_segment_uses(#[trigger] views[k], target_ident@),
        decreases path@.len() - i,
    {
        assert(views[i as int] == path@[i as int].view());
        if path[i].ident == *target_ident {
            assert(trait_segment_uses(views[i as int], target_ident@));
            return true;
        }
        let ghost l = views[i as int].angle();
        if let SegmentArgs::Angle(list) = &path[i].args {
            let mut j: usize = 0;
            while j < list.len()
                invariant
                    views == super::syntax::segment_views(path@),
                    i < path@.len(),
                    l == views[i as int].angle(),
                    l.len() == list@.len(),
                    forall|k: int| 0 <= k < l.len() ==> #[trigger] l[k] == list@[k].view(),
                    j <= list@.len(),
                    forall|k: int|
                        0 <= k < j ==> !((#[trigger] l[k]) matches super::syntax::ArgView::Type(ty)
                            && ty_uses(ty, target_ident@)),
                decreases list@.len() - j,
            {
                assert(l[j as int] == list@[j as int].view());
                if let GenericArg::Type(ty) = &list[j] {
                    if ty_contains_type_param(ty, target_ident) {
                        assert(views[i as int].angle()[j as int] == super::syntax::ArgView::Type(
                            ty.view(),
                        ));
                        assert(trait_segment_uses(views[i as int], target_ident@));
                        return true;
                    }
                }
                j = j + 1;
            }
        }
        i = i + 1;
    }
    false
}

} // verus!
