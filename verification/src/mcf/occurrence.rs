//! Where names occur in types and predicates.
//!
//! A name occurs in a piece of syntax iff the piece changes when the name is replaced by
//! another one wherever it is written. What is kept under a key is not looked into.

use vstd::prelude::*;

use super::syntax::{
    ArgView, ArgsView, BoundView, PredicateView, SegmentView, TyView,
};

verus! {

/// What becomes of the names that are written in a piece of syntax, by the places where they
/// are written.
pub ghost struct Renaming {
    /// The lifetime of a reference, which may be missing.
    pub reference: spec_fn(Option<Seq<char>>) -> Option<Seq<char>>,
    /// A lifetime among the arguments of a path that is a type.
    pub argument: spec_fn(Seq<char>) -> Seq<char>,
    /// The last name of a path that is a type.
    pub last_name: spec_fn(Seq<char>) -> Seq<char>,
    /// A lifetime that is a bound.
    pub bound: spec_fn(Seq<char>) -> Seq<char>,
    /// A lifetime among the arguments of the path of a trait.
    pub trait_argument: spec_fn(Seq<char>) -> Seq<char>,
    /// A name in the path of a trait.
    pub trait_name: spec_fn(Seq<char>) -> Seq<char>,
    /// A lifetime that outlives or is outlived.
    pub outlives: spec_fn(Seq<char>) -> Seq<char>,
}

/// A name stays what it is.
pub open spec fn same_name() -> spec_fn(Seq<char>) -> Seq<char> {
    |x: Seq<char>| x
}

/// `old_name` becomes `new_name`.
pub open spec fn other_name(old_name: Seq<char>, new_name: Seq<char>) -> spec_fn(Seq<char>) -> Seq<
    char,
> {
    |x: Seq<char>|
        if x == old_name {
            new_name
        } else {
            x
        }
}

/// The lifetime `lt` becomes `new_lt` wherever a lifetime is written.
pub open spec fn lifetime_replaced(lt: Seq<char>, new_lt: Seq<char>) -> Renaming {
    Renaming {
        reference: |x: Option<Seq<char>>|
            if x == Some(lt) {
                Some(new_lt)
            } else {
                x
            },
        argument: other_name(lt, new_lt),
        last_name: same_name(),
        bound: other_name(lt, new_lt),
        trait_argument: other_name(lt, new_lt),
        trait_name: same_name(),
        outlives: other_name(lt, new_lt),
    }
}

/// The name `name` becomes `new_name` wherever a type parameter may be written: as the last
/// name of a type, as an argument of it, as a name in the path of a trait, or on either side of
/// a predicate on lifetimes.
pub open spec fn name_replaced(name: Seq<char>, new_name: Seq<char>) -> Renaming {
    Renaming {
        reference: |x: Option<Seq<char>>| x,
        argument: other_name(name, new_name),
        last_name: other_name(name, new_name),
        bound: same_name(),
        trait_argument: same_name(),
        trait_name: other_name(name, new_name),
        outlives: other_name(name, new_name),
    }
}

/// The type after renaming.
pub open spec fn renamed(ty: TyView, by: Renaming) -> TyView
    decreases ty,
{
    match ty {
        TyView::Reference { lifetime, mutable, elem } => TyView::Reference {
            lifetime: (by.reference)(lifetime),
            mutable,
            elem: Box::new(renamed(*elem, by)),
        },
        TyView::Path { prefix, segments } => TyView::Path {
            prefix,
            segments: Seq::new(
                segments.len(),
                |i: int|
                    if 0 <= i < segments.len() {
                        renamed_segment(segments[i], i == segments.len() - 1, by)
                    } else {
                        arbitrary()
                    },
            ),
        },
        TyView::Tuple(elems) => TyView::Tuple(
            Seq::new(
                elems.len(),
                |i: int|
                    if 0 <= i < elems.len() {
                        renamed(elems[i], by)
                    } else {
                        arbitrary()
                    },
            ),
        ),
        TyView::Array(elem, len) => TyView::Array(Box::new(renamed(*elem, by)), len),
        TyView::Slice(elem) => TyView::Slice(Box::new(renamed(*elem, by))),
        TyView::Paren(elem) => TyView::Paren(Box::new(renamed(*elem, by))),
        TyView::Group(elem) => TyView::Group(Box::new(renamed(*elem, by))),
        TyView::Other(key) => TyView::Other(key),
    }
}

/// The segment of a type after renaming.
pub open spec fn renamed_segment(seg: SegmentView, last: bool, by: Renaming) -> SegmentView
    decreases seg,
{
    SegmentView {
        ident: if last {
            (by.last_name)(seg.ident)
        } else {
            seg.ident
        },
        args: match seg.args {
            ArgsView::Angle(list) => ArgsView::Angle(
                Seq::new(
                    list.len(),
                    |j: int|
                        if 0 <= j < list.len() {
                            renamed_arg(list[j], by)
                        } else {
                            arbitrary()
                        },
                ),
            ),
            other => other,
        },
    }
}

/// The argument of a type after renaming.
pub open spec fn renamed_arg(arg: ArgView, by: Renaming) -> ArgView
    decreases arg,
{
    match arg {
        ArgView::Lifetime(lt) => ArgView::Lifetime((by.argument)(lt)),
        ArgView::Type(ty) => ArgView::Type(renamed(ty, by)),
        ArgView::Other(key) => ArgView::Other(key),
    }
}

/// The segment of the path of a trait after renaming.
pub open spec fn renamed_trait_segment(seg: SegmentView, by: Renaming) -> SegmentView {
    SegmentView {
        ident: (by.trait_name)(seg.ident),
        args: match seg.args {
            ArgsView::Angle(list) => ArgsView::Angle(
                list.map_values(
                    |arg: ArgView|
                        match arg {
                            ArgView::Lifetime(lt) => ArgView::Lifetime((by.trait_argument)(lt)),
                            _ => renamed_arg(arg, by),
                        },
                ),
            ),
            other => other,
        },
    }
}

/// The bound after renaming.
pub open spec fn renamed_bound(bound: BoundView, by: Renaming) -> BoundView {
    match bound {
        BoundView::Lifetime(lt) => BoundView::Lifetime((by.bound)(lt)),
        BoundView::Trait(path) => BoundView::Trait(
            path.map_values(|seg: SegmentView| renamed_trait_segment(seg, by)),
        ),
        BoundView::Other(key) => BoundView::Other(key),
    }
}

/// The predicate after renaming.
pub open spec fn renamed_predicate(pred: PredicateView, by: Renaming) -> PredicateView {
    match pred {
        PredicateView::Lifetime { lifetime, outlives } => PredicateView::Lifetime {
            lifetime: (by.outlives)(lifetime),
            outlives: outlives.map_values(by.outlives),
        },
        PredicateView::Type { bounded, bounds } => PredicateView::Type {
            bounded: renamed(bounded, by),
            bounds: bounds.map_values(|bound: BoundView| renamed_bound(bound, by)),
        },
        PredicateView::Other(key) => PredicateView::Other(key),
    }
}

/// A type names a lifetime iff it becomes another type when the lifetime is replaced.
#[verifier::rlimit(40)]
pub proof fn lifetime_occurs_in_type(ty: TyView, lt: Seq<char>, new_lt: Seq<char>)
    requires
        new_lt != lt,
    ensures
        super::contains::ty_mentions(ty, lt) <==> renamed(ty, lifetime_replaced(lt, new_lt)) != ty,
    decreases ty,
{
    let by = lifetime_replaced(lt, new_lt);
    let after = renamed(ty, by);
    match ty {
        TyView::Reference { elem, .. } => lifetime_occurs_in_type(*elem, lt, new_lt),
        TyView::Path { segments, .. } => {
            assert forall|i: int| 0 <= i < segments.len() implies (#[trigger] after.path()[i]
                != segments[i] <==> super::contains::segment_mentions(segments[i], lt)) by {
                lifetime_occurs_in_segment(segments[i], i == segments.len() - 1, lt, new_lt);
            }
            if exists|i: int| 0 <= i < segments.len() && #[trigger] after.path()[i] != segments[i] {
                let i = choose|i: int|
                    0 <= i < segments.len() && #[trigger] after.path()[i] != segments[i];
                assert(after.path() != ty.path());
                if super::contains::segment_mentions(segments[i], lt) {
                    let seg = segments[i];
                    let j = choose|j: int|
                        #![trigger seg.angle()[j]]
                        0 <= j < seg.angle().len() && super::contains::arg_mentions(seg.angle()[j], lt);
                    assert(super::contains::arg_mentions(ty.path()[i].angle()[j], lt));
                    assert(super::contains::arg_mentions(segments[i].angle()[j], lt));
                }
            } else {
                assert(after.path() =~= segments);
                assert forall|i: int, j: int|
                    #![trigger segments[i].angle()[j]]
                    0 <= i < segments.len() && 0 <= j < segments[i].angle().len() implies !super::contains::arg_mentions(
                    segments[i].angle()[j],
                    lt,
                ) by {
                    assert(after.path()[i] == segments[i]);
                    assert(!super::contains::segment_mentions(segments[i], lt));
                }
            }
        },
        TyView::Tuple(elems) => {
            assert forall|i: int| 0 <= i < elems.len() implies (#[trigger] after.elems()[i]
                != elems[i] <==> super::contains::ty_mentions(elems[i], lt)) by {
                lifetime_occurs_in_type(elems[i], lt, new_lt);
            }
            if super::contains::ty_mentions(ty, lt) {
                let i = choose|i: int|
                    #![trigger ty.elems()[i]]
                    0 <= i < ty.elems().len() && super::contains::ty_mentions(ty.elems()[i], lt);
                assert(after.elems()[i] != elems[i]);
            } else {
                assert forall|i: int| 0 <= i < elems.len() implies #[trigger] after.elems()[i]
                    == elems[i] by {
                    assert(!super::contains::ty_mentions(ty.elems()[i], lt));
                }
                assert(after.elems() =~= elems);
            }
        },
        TyView::Array(elem, _) => lifetime_occurs_in_type(*elem, lt, new_lt),
        TyView::Slice(elem) => lifetime_occurs_in_type(*elem, lt, new_lt),
        TyView::Paren(elem) => lifetime_occurs_in_type(*elem, lt, new_lt),
        TyView::Group(elem) => lifetime_occurs_in_type(*elem, lt, new_lt),
        TyView::Other(_) => {},
    }
}

proof fn lifetime_occurs_in_segment(seg: SegmentView, last: bool, lt: Seq<char>, new_lt: Seq<char>)
    requires
        new_lt != lt,
    ensures
        renamed_segment(seg, last, lifetime_replaced(lt, new_lt)) != seg <==> super::contains::segment_mentions(seg, lt),
    decreases seg,
{
    let by = lifetime_replaced(lt, new_lt);
    let after = renamed_segment(seg, last, by);
    assert forall|j: int| 0 <= j < seg.angle().len() implies (#[trigger] after.angle()[j]
        != seg.angle()[j] <==> super::contains::arg_mentions(seg.angle()[j], lt)) by {
        let arg = seg.angle()[j];
        assert(after.angle()[j] == renamed_arg(arg, by));
        if let ArgView::Type(ty) = arg {
            lifetime_occurs_in_type(ty, lt, new_lt);
        }
    }
    if super::contains::segment_mentions(seg, lt) {
        let j = choose|j: int|
            #![trigger seg.angle()[j]]
            0 <= j < seg.angle().len() && super::contains::arg_mentions(seg.angle()[j], lt);
        assert(after.angle()[j] != seg.angle()[j]);
    } else {
        assert forall|j: int| 0 <= j < seg.angle().len() implies #[trigger] after.angle()[j]
            == seg.angle()[j] by {
            assert(!super::contains::arg_mentions(seg.angle()[j], lt));
        }
        assert(after.angle() =~= seg.angle());
        assert(after.args == seg.args);
    }
}

proof fn lifetime_occurs_in_bound(bound: BoundView, lt: Seq<char>, new_lt: Seq<char>)
    requires
        new_lt != lt,
    ensures
        super::contains::bound_mentions(bound, lt) <==> renamed_bound(bound, lifetime_replaced(lt, new_lt)) != bound,
{
    let by = lifetime_replaced(lt, new_lt);
    if let BoundView::Trait(path) = bound {
        let after = renamed_bound(bound, by)->Trait_0;
        assert forall|i: int| 0 <= i < path.len() implies (#[trigger] after[i] != path[i] <==>
            super::contains::segment_mentions(path[i], lt)) by {
            lifetime_occurs_in_trait_segment(path[i], lt, new_lt);
        }
        if super::contains::path_mentions(path, lt) {
            let i = choose|i: int| 0 <= i < path.len() && super::contains::segment_mentions(#[trigger] path[i], lt);
            assert(after[i] != path[i]);
        } else {
            assert forall|i: int| 0 <= i < path.len() implies #[trigger] after[i] == path[i] by {
                assert(!super::contains::segment_mentions(path[i], lt));
            }
            assert(after =~= path);
        }
    }
}

#[verifier::rlimit(40)]
proof fn lifetime_occurs_in_trait_segment(seg: SegmentView, lt: Seq<char>, new_lt: Seq<char>)
    requires
        new_lt != lt,
    ensures
        super::contains::segment_mentions(seg, lt) <==> renamed_trait_segment(seg, lifetime_replaced(lt, new_lt)) != seg,
{
    let by = lifetime_replaced(lt, new_lt);
    let after = renamed_trait_segment(seg, by);
    let hit = |j: int| super::contains::arg_mentions(seg.angle()[j], lt);
    assert forall|j: int| 0 <= j < seg.angle().len() implies (#[trigger] after.angle()[j]
        != seg.angle()[j] <==> hit(j)) by {
        if let ArgView::Type(ty) = seg.angle()[j] {
            lifetime_occurs_in_type(ty, lt, new_lt);
        }
    }
    if exists|j: int| 0 <= j < seg.angle().len() && #[trigger] hit(j) {
        let j = choose|j: int| 0 <= j < seg.angle().len() && #[trigger] hit(j);
        assert(after.angle()[j] != seg.angle()[j]);
    } else {
        assert forall|j: int| 0 <= j < seg.angle().len() implies #[trigger] after.angle()[j]
            == seg.angle()[j] by {
            assert(!hit(j));
        }
        assert(after.angle() =~= seg.angle());
        assert(after.args == seg.args);
        assert forall|j: int| 0 <= j < seg.angle().len() implies !(super::contains::arg_mentions(#[trigger] seg.angle()[j], lt)) by {
            assert(!hit(j));
        }
    }
}

/// A predicate names a lifetime iff it becomes another predicate when the lifetime is
/// replaced, whatever the number of its bounds.
#[verifier::rlimit(40)]
pub proof fn lifetime_occurs_in_predicate(pred: PredicateView, lt: Seq<char>, new_lt: Seq<char>)
    requires
        new_lt != lt,
    ensures
        super::contains::predicate_mentions(pred, lt) <==> renamed_predicate(pred, lifetime_replaced(lt, new_lt)) != pred,
{
    let by = lifetime_replaced(lt, new_lt);
    let after = renamed_predicate(pred, by);
    match pred {
        PredicateView::Lifetime { lifetime, outlives } => {
            let others = after->Lifetime_outlives;
            if outlives.contains(lt) {
                let i = outlives.index_of(lt);
                assert(others[i] != outlives[i]);
            } else {
                assert forall|i: int| 0 <= i < outlives.len() implies #[trigger] others[i]
                    == outlives[i] by {
                    assert(outlives.contains(outlives[i]));
                }
                assert(others =~= outlives);
            }
        },
        PredicateView::Type { bounded, bounds } => {
            lifetime_occurs_in_type(bounded, lt, new_lt);
            let others = after->Type_bounds;
            assert forall|i: int| 0 <= i < bounds.len() implies (#[trigger] others[i] != bounds[i]
                <==> super::contains::bound_mentions(bounds[i], lt)) by {
                lifetime_occurs_in_bound(bounds[i], lt, new_lt);
            }
            if super::contains::some_bound_mentions(bounds, lt) {
                let i = choose|i: int|
                    0 <= i < bounds.len() && super::contains::bound_mentions(#[trigger] bounds[i], lt);
                assert(others[i] != bounds[i]);
            } else {
                assert forall|i: int| 0 <= i < bounds.len() implies #[trigger] others[i]
                    == bounds[i] by {
                    assert(!super::contains::bound_mentions(bounds[i], lt));
                }
                assert(others =~= bounds);
            }
        },
        PredicateView::Other(_) => {},
    }
}

/// A type uses a type parameter iff it becomes another type when the name is replaced.
#[verifier::rlimit(40)]
pub proof fn name_occurs_in_type(ty: TyView, name: Seq<char>, new_name: Seq<char>)
    requires
        new_name != name,
    ensures
        super::contains::ty_uses(ty, name) <==> renamed(ty, name_replaced(name, new_name)) != ty,
    decreases ty,
{
    let by = name_replaced(name, new_name);
    let after = renamed(ty, by);
    match ty {
        TyView::Reference { elem, .. } => name_occurs_in_type(*elem, name, new_name),
        TyView::Path { segments, .. } => {
            assert forall|i: int| 0 <= i < segments.len() implies (#[trigger] after.path()[i]
                != segments[i] <==> super::contains::segment_uses(segments[i], name) || i == segments.len() - 1
                && segments[i].ident == name) by {
                name_occurs_in_segment(segments[i], i == segments.len() - 1, name, new_name);
            }
            if exists|i: int| 0 <= i < segments.len() && #[trigger] after.path()[i] != segments[i] {
                let i = choose|i: int|
                    0 <= i < segments.len() && #[trigger] after.path()[i] != segments[i];
                assert(after.path() != ty.path());
                if super::contains::segment_uses(segments[i], name) {
                    let seg = segments[i];
                    let j = choose|j: int|
                        #![trigger seg.angle()[j]]
                        0 <= j < seg.angle().len() && super::contains::arg_uses(seg.angle()[j], name);
                    assert(super::contains::arg_uses(ty.path()[i].angle()[j], name));
                    assert(super::contains::arg_uses(segments[i].angle()[j], name));
                }
            } else {
                assert(after.path() =~= segments);
                assert forall|i: int, j: int|
                    #![trigger segments[i].angle()[j]]
                    0 <= i < segments.len() && 0 <= j < segments[i].angle().len() implies !super::contains::arg_uses(
                    segments[i].angle()[j],
                    name,
                ) by {
                    assert(after.path()[i] == segments[i]);
                    assert(!super::contains::segment_uses(segments[i], name));
                }
            }
        },
        TyView::Tuple(elems) => {
            assert forall|i: int| 0 <= i < elems.len() implies (#[trigger] after.elems()[i]
                != elems[i] <==> super::contains::ty_uses(elems[i], name)) by {
                name_occurs_in_type(elems[i], name, new_name);
            }
            if super::contains::ty_uses(ty, name) {
                let i = choose|i: int|
                    #![trigger ty.elems()[i]]
                    0 <= i < ty.elems().len() && super::contains::ty_uses(ty.elems()[i], name);
                assert(after.elems()[i] != elems[i]);
            } else {
                assert forall|i: int| 0 <= i < elems.len() implies #[trigger] after.elems()[i]
                    == elems[i] by {
                    assert(!super::contains::ty_uses(ty.elems()[i], name));
                }
                assert(after.elems() =~= elems);
            }
        },
        TyView::Array(elem, _) => name_occurs_in_type(*elem, name, new_name),
        TyView::Slice(elem) => name_occurs_in_type(*elem, name, new_name),
        TyView::Paren(elem) => name_occurs_in_type(*elem, name, new_name),
        TyView::Group(elem) => name_occurs_in_type(*elem, name, new_name),
        TyView::Other(_) => {},
    }
}

proof fn name_occurs_in_segment(seg: SegmentView, last: bool, name: Seq<char>, new_name: Seq<char>)
    requires
        new_name != name,
    ensures
        renamed_segment(seg, last, name_replaced(name, new_name)) != seg <==> super::contains::segment_uses(seg, name) || last && seg.ident == name,
    decreases seg,
{
    let by = name_replaced(name, new_name);
    let after = renamed_segment(seg, last, by);
    assert forall|j: int| 0 <= j < seg.angle().len() implies (#[trigger] after.angle()[j]
        != seg.angle()[j] <==> super::contains::arg_uses(seg.angle()[j], name)) by {
        let arg = seg.angle()[j];
        assert(after.angle()[j] == renamed_arg(arg, by));
        if let ArgView::Type(ty) = arg {
            name_occurs_in_type(ty, name, new_name);
        }
    }
    if super::contains::segment_uses(seg, name) {
        let j = choose|j: int|
            #![trigger seg.angle()[j]]
            0 <= j < seg.angle().len() && super::contains::arg_uses(seg.angle()[j], name);
        assert(after.angle()[j] != seg.angle()[j]);
    } else {
        assert forall|j: int| 0 <= j < seg.angle().len() implies #[trigger] after.angle()[j]
            == seg.angle()[j] by {
            assert(!super::contains::arg_uses(seg.angle()[j], name));
        }
        assert(after.angle() =~= seg.angle());
        assert(after.args == seg.args);
    }
}

proof fn name_occurs_in_bound(bound: BoundView, name: Seq<char>, new_name: Seq<char>)
    requires
        new_name != name,
    ensures
        super::contains::bound_uses(bound, name) <==> renamed_bound(bound, name_replaced(name, new_name)) != bound,
{
    let by = name_replaced(name, new_name);
    if let BoundView::Trait(path) = bound {
        let after = renamed_bound(bound, by)->Trait_0;
        assert forall|i: int| 0 <= i < path.len() implies (#[trigger] after[i] != path[i] <==>
            super::contains::trait_segment_uses(path[i], name)) by {
            name_occurs_in_trait_segment(path[i], name, new_name);
        }
        if super::contains::path_uses(path, name) {
            let i = choose|i: int| 0 <= i < path.len() && super::contains::trait_segment_uses(#[trigger] path[i], name);
            assert(after[i] != path[i]);
        } else {
            assert forall|i: int| 0 <= i < path.len() implies #[trigger] after[i] == path[i] by {
                assert(!super::contains::trait_segment_uses(path[i], name));
            }
            assert(after =~= path);
        }
    }
}

#[verifier::rlimit(40)]
proof fn name_occurs_in_trait_segment(seg: SegmentView, name: Seq<char>, new_name: Seq<char>)
    requires
        new_name != name,
    ensures
        super::contains::trait_segment_uses(seg, name) <==> renamed_trait_segment(seg, name_replaced(name, new_name)) != seg,
{
    let by = name_replaced(name, new_name);
    let after = renamed_trait_segment(seg, by);
    let hit = |j: int| (seg.angle()[j] matches ArgView::Type(ty) && super::contains::ty_uses(ty, name));
    assert forall|j: int| 0 <= j < seg.angle().len() implies (#[trigger] after.angle()[j]
        != seg.angle()[j] <==> hit(j)) by {
        if let ArgView::Type(ty) = seg.angle()[j] {
            name_occurs_in_type(ty, name, new_name);
        }
    }
    if exists|j: int| 0 <= j < seg.angle().len() && #[trigger] hit(j) {
        let j = choose|j: int| 0 <= j < seg.angle().len() && #[trigger] hit(j);
        assert(after.angle()[j] != seg.angle()[j]);
    } else {
        assert forall|j: int| 0 <= j < seg.angle().len() implies #[trigger] after.angle()[j]
            == seg.angle()[j] by {
            assert(!hit(j));
        }
        assert(after.angle() =~= seg.angle());
        assert(after.args == seg.args);
        assert forall|j: int| 0 <= j < seg.angle().len() implies !(((#[trigger] seg.angle()[j]) matches ArgView::Type(ty) && super::contains::ty_uses(ty, name))) by {
            assert(!hit(j));
        }
    }
}

/// A predicate uses a type parameter iff it becomes another predicate when the name is
/// replaced, whatever the number of its bounds.
#[verifier::rlimit(40)]
pub proof fn name_occurs_in_predicate(pred: PredicateView, name: Seq<char>, new_name: Seq<char>)
    requires
        new_name != name,
    ensures
        super::contains::predicate_uses(pred, name) <==> renamed_predicate(pred, name_replaced(name, new_name)) != pred,
{
    let by = name_replaced(name, new_name);
    let after = renamed_predicate(pred, by);
    match pred {
        PredicateView::Lifetime { lifetime, outlives } => {
            let others = after->Lifetime_outlives;
            if outlives.contains(name) {
                let i = outlives.index_of(name);
                assert(others[i] != outlives[i]);
            } else {
                assert forall|i: int| 0 <= i < outlives.len() implies #[trigger] others[i]
                    == outlives[i] by {
                    assert(outlives.contains(outlives[i]));
                }
                assert(others =~= outlives);
            }
        },
        PredicateView::Type { bounded, bounds } => {
            name_occurs_in_type(bounded, name, new_name);
            let others = after->Type_bounds;
            assert forall|i: int| 0 <= i < bounds.len() implies (#[trigger] others[i] != bounds[i]
                <==> super::contains::bound_uses(bounds[i], name)) by {
                name_occurs_in_bound(bounds[i], name, new_name);
            }
            if super::contains::some_bound_uses(bounds, name) {
                let i = choose|i: int|
                    0 <= i < bounds.len() && super::contains::bound_uses(#[trigger] bounds[i], name);
                assert(others[i] != bounds[i]);
            } else {
                assert forall|i: int| 0 <= i < bounds.len() implies #[trigger] others[i]
                    == bounds[i] by {
                    assert(!super::contains::bound_uses(bounds[i], name));
                }
                assert(others =~= bounds);
            }
        },
        PredicateView::Other(_) => {},
    }
}

} // verus!
