//! The parts of a function signature that the generator reads.
//!
//! A part that is only carried along is a key: a number under which the tokens of that
//! part are kept.

use vstd::prelude::*;

verus! {

/// A lifetime, by its name without the quote.
#[derive(Debug)]
pub struct Lifetime {
    /// The name.
    pub ident: String,
}

impl View for Lifetime {
    type V = Seq<char>;

    open spec fn view(&self) -> Seq<char> {
        self.ident@
    }
}

impl Lifetime {
    /// The lifetime named `ident`.
    pub fn new(ident: String) -> (lt: Self)
        ensures
            lt@ == ident@,
    {
        Lifetime { ident }
    }

    /// The same lifetime once more.
    pub fn duplicate(&self) -> (lt: Self)
        ensures
            lt@ == self@,
    {
        Lifetime { ident: self.ident.clone() }
    }

    /// Whether two lifetimes have the same name.
    pub fn same(&self, other: &Lifetime) -> (same: bool)
        ensures
            same == (self@ == other@),
    {
        self.ident == other.ident
    }
}

/// A type.
#[derive(Debug)]
pub enum Ty {
    /// `&'lifetime mut elem`.
    Reference {
        /// The lifetime, if written.
        lifetime: Option<Lifetime>,
        /// Whether it is a `mut` reference.
        mutable: bool,
        /// The type behind the reference.
        elem: Box<Ty>,
    },
    /// A path.
    Path {
        /// The key of what stands before the path: a qualified self or a leading
        /// `::`, if any.
        prefix: Option<usize>,
        /// The segments.
        segments: Vec<Segment>,
    },
    /// `(elems)`.
    Tuple(Vec<Ty>),
    /// `[elem; len]`, with the key of the length.
    Array(Box<Ty>, usize),
    /// `[elem]`.
    Slice(Box<Ty>),
    /// A type in parentheses.
    Paren(Box<Ty>),
    /// A type in an invisible group.
    Group(Box<Ty>),
    /// The key of any other type.
    Other(usize),
}

/// A segment of a path.
#[derive(Debug)]
pub struct Segment {
    /// The name.
    pub ident: String,
    /// The arguments.
    pub args: SegmentArgs,
}

/// The arguments of a path segment.
#[derive(Debug)]
pub enum SegmentArgs {
    /// No arguments.
    Plain,
    /// Arguments in angle brackets.
    Angle(Vec<GenericArg>),
    /// The key of any other arguments.
    Other(usize),
}

/// A generic argument.
#[derive(Debug)]
pub enum GenericArg {
    /// A lifetime.
    Lifetime(Lifetime),
    /// A type.
    Type(Ty),
    /// The key of any other argument.
    Other(usize),
}

/// A predicate of a where clause.
#[derive(Debug)]
pub enum Predicate {
    /// `lifetime: outlives`.
    Lifetime {
        /// The bounded lifetime.
        lifetime: Lifetime,
        /// The lifetimes that it outlives.
        outlives: Vec<Lifetime>,
    },
    /// `bounded: bounds`.
    Type {
        /// The bounded type.
        bounded: Ty,
        /// The bounds.
        bounds: Vec<Bound>,
    },
    /// The key of any other predicate.
    Other(usize),
}

/// A bound on a type.
#[derive(Debug)]
pub enum Bound {
    /// A lifetime.
    Lifetime(Lifetime),
    /// The path of a trait.
    Trait(Vec<Segment>),
    /// The key of any other bound.
    Other(usize),
}

/// A generic parameter of a function.
#[derive(Debug)]
pub enum FnParam {
    /// A lifetime.
    Lifetime(Lifetime),
    /// A type.
    Type(String),
    /// The key of a constant.
    Const(usize),
}

/// What a [`FnParam`] means.
pub ghost enum ParamView {
    Lifetime(Seq<char>),
    Type(Seq<char>),
    Const(usize),
}

impl View for FnParam {
    type V = ParamView;

    open spec fn view(&self) -> ParamView {
        match *self {
            FnParam::Lifetime(lt) => ParamView::Lifetime(lt@),
            FnParam::Type(name) => ParamView::Type(name@),
            FnParam::Const(key) => ParamView::Const(key),
        }
    }
}

/// An argument of a function.
#[derive(Debug)]
pub enum FnInput {
    /// `self` in any form.
    Receiver,
    /// `pat: ty`, with the key of the pattern.
    Typed(usize, Ty),
}

/// What a [`FnInput`] means.
pub ghost enum FnArgView {
    Receiver,
    Typed(usize, TyView),
}

impl View for FnInput {
    type V = FnArgView;

    open spec fn view(&self) -> FnArgView {
        match *self {
            FnInput::Receiver => FnArgView::Receiver,
            FnInput::Typed(pat, ty) => FnArgView::Typed(pat, ty.view()),
        }
    }
}

/// A function signature.
#[derive(Debug)]
pub struct FnSig {
    /// Whether the function is `async`.
    pub is_async: bool,
    /// The name.
    pub ident: String,
    /// The generic parameters.
    pub params: Vec<FnParam>,
    /// The predicates of the where clause, if there is one.
    pub where_clause: Option<Vec<Predicate>>,
    /// The arguments.
    pub inputs: Vec<FnInput>,
    /// The return type, if written.
    pub output: Option<Ty>,
}

/// A path without types: what is written as an argument of the attribute.
#[derive(Debug)]
pub struct AttrPath {
    /// The path starts with `::`.
    pub leading: bool,
    /// The segments.
    pub segments: Vec<Segment>,
}

/// What a [`FnSig`] means.
pub ghost struct SigView {
    pub is_async: bool,
    pub ident: Seq<char>,
    pub params: Seq<ParamView>,
    pub where_clause: Option<Seq<PredicateView>>,
    pub inputs: Seq<FnArgView>,
    pub output: Option<TyView>,
}

impl View for FnSig {
    type V = SigView;

    open spec fn view(&self) -> SigView {
        SigView {
            is_async: self.is_async,
            ident: self.ident@,
            params: param_views(self.params@),
            where_clause: match self.where_clause {
                Some(preds) => Some(predicate_views(preds@)),
                None => None,
            },
            inputs: arg_views(self.inputs@),
            output: match self.output {
                Some(ty) => Some(ty.view()),
                None => None,
            },
        }
    }
}

/// What an [`AttrPath`] means.
pub ghost struct PathView {
    pub leading: bool,
    pub segments: Seq<SegmentView>,
}

impl View for AttrPath {
    type V = PathView;

    open spec fn view(&self) -> PathView {
        PathView { leading: self.leading, segments: segment_views(self.segments@) }
    }
}

/// The meanings of the arguments of an attribute.
pub open spec fn attr_views(paths: Seq<AttrPath>) -> Seq<PathView> {
    paths.map_values(|p: AttrPath| p@)
}

/// The meanings of generic parameters.
pub open spec fn param_views(params: Seq<FnParam>) -> Seq<ParamView> {
    params.map_values(|p: FnParam| p@)
}

/// The meanings of where predicates.
pub open spec fn predicate_views(preds: Seq<Predicate>) -> Seq<PredicateView> {
    preds.map_values(|p: Predicate| p@)
}

/// The meanings of arguments.
pub open spec fn arg_views(inputs: Seq<FnInput>) -> Seq<FnArgView> {
    inputs.map_values(|a: FnInput| a@)
}

/// What a [`Predicate`] means.
pub ghost enum PredicateView {
    Lifetime { lifetime: Seq<char>, outlives: Seq<Seq<char>> },
    Type { bounded: TyView, bounds: Seq<BoundView> },
    Other(usize),
}

/// What a [`Bound`] means.
pub ghost enum BoundView {
    Lifetime(Seq<char>),
    Trait(Seq<SegmentView>),
    Other(usize),
}

/// The meanings of path segments.
pub open spec fn segment_views(segments: Seq<Segment>) -> Seq<SegmentView> {
    segments.map_values(|s: Segment| s.view())
}

/// The names of lifetimes.
pub open spec fn lifetime_names(lifetimes: Seq<Lifetime>) -> Seq<Seq<char>> {
    lifetimes.map_values(|lt: Lifetime| lt@)
}

/// The meanings of types.
pub open spec fn ty_views(types: Seq<Ty>) -> Seq<TyView> {
    types.map_values(|ty: Ty| ty.view())
}

/// The characters of names.
pub open spec fn name_views(names: Seq<String>) -> Seq<Seq<char>> {
    names.map_values(|name: String| name@)
}

impl View for Bound {
    type V = BoundView;

    open spec fn view(&self) -> BoundView {
        match *self {
            Bound::Lifetime(lt) => BoundView::Lifetime(lt@),
            Bound::Trait(path) => BoundView::Trait(segment_views(path@)),
            Bound::Other(key) => BoundView::Other(key),
        }
    }
}

impl View for Predicate {
    type V = PredicateView;

    open spec fn view(&self) -> PredicateView {
        match *self {
            Predicate::Lifetime { lifetime, outlives } => PredicateView::Lifetime {
                lifetime: lifetime@,
                outlives: lifetime_names(outlives@),
            },
            Predicate::Type { bounded, bounds } => PredicateView::Type {
                bounded: bounded.view(),
                bounds: bounds@.map_values(|b: Bound| b@),
            },
            Predicate::Other(key) => PredicateView::Other(key),
        }
    }
}

/// What a [`Ty`] means.
pub ghost enum TyView {
    Reference { lifetime: Option<Seq<char>>, mutable: bool, elem: Box<TyView> },
    Path { prefix: Option<usize>, segments: Seq<SegmentView> },
    Tuple(Seq<TyView>),
    Array(Box<TyView>, usize),
    Slice(Box<TyView>),
    Paren(Box<TyView>),
    Group(Box<TyView>),
    Other(usize),
}

impl TyView {
    /// The segments of a path.
    pub open spec fn path(self) -> Seq<SegmentView> {
        match self {
            TyView::Path { segments, .. } => segments,
            _ => Seq::empty(),
        }
    }

    /// The elements of a tuple.
    pub open spec fn elems(self) -> Seq<TyView> {
        match self {
            TyView::Tuple(elems) => elems,
            _ => Seq::empty(),
        }
    }
}

/// What a [`Segment`] means.
pub ghost struct SegmentView {
    pub ident: Seq<char>,
    pub args: ArgsView,
}

impl SegmentView {
    /// The arguments in angle brackets.
    pub open spec fn angle(self) -> Seq<ArgView> {
        match self.args {
            ArgsView::Angle(list) => list,
            _ => Seq::empty(),
        }
    }
}

/// What a [`SegmentArgs`] means.
pub ghost enum ArgsView {
    Plain,
    Angle(Seq<ArgView>),
    Other(usize),
}

/// What a [`GenericArg`] means.
pub ghost enum ArgView {
    Lifetime(Seq<char>),
    Type(TyView),
    Other(usize),
}

impl Ty {
    /// The meaning of the type.
    pub open spec fn view(self) -> TyView
        decreases self,
    {
        match self {
            Ty::Reference { lifetime, mutable, elem } => TyView::Reference {
                lifetime: match lifetime {
                    Some(lt) => Some(lt@),
                    None => None,
                },
                mutable,
                elem: Box::new(elem.view()),
            },
            Ty::Path { prefix, segments } => TyView::Path {
                prefix,
                segments: Seq::new(
                    segments@.len(),
                    |i: int|
                        if 0 <= i < segments@.len() {
                            segments@[i].view()
                        } else {
                            arbitrary()
                        },
                ),
            },
            Ty::Tuple(elems) => TyView::Tuple(
                Seq::new(
                    elems@.len(),
                    |i: int|
                        if 0 <= i < elems@.len() {
                            elems@[i].view()
                        } else {
                            arbitrary()
                        },
                ),
            ),
            Ty::Array(elem, len) => TyView::Array(Box::new(elem.view()), len),
            Ty::Slice(elem) => TyView::Slice(Box::new(elem.view())),
            Ty::Paren(elem) => TyView::Paren(Box::new(elem.view())),
            Ty::Group(elem) => TyView::Group(Box::new(elem.view())),
            Ty::Other(key) => TyView::Other(key),
        }
    }
}

impl Segment {
    /// The meaning of the segment.
    pub open spec fn view(self) -> SegmentView
        decreases self,
    {
        SegmentView { ident: self.ident@, args: self.args.view() }
    }
}

impl SegmentArgs {
    /// The meaning of the arguments.
    pub open spec fn view(self) -> ArgsView
        decreases self,
    {
        match self {
            SegmentArgs::Plain => ArgsView::Plain,
            SegmentArgs::Angle(args) => ArgsView::Angle(
                Seq::new(
                    args@.len(),
                    |i: int|
                        if 0 <= i < args@.len() {
                            args@[i].view()
                        } else {
                            arbitrary()
                        },
                ),
            ),
            SegmentArgs::Other(key) => ArgsView::Other(key),
        }
    }
}

impl GenericArg {
    /// The meaning of the argument.
    pub open spec fn view(self) -> ArgView
        decreases self,
    {
        match self {
            GenericArg::Lifetime(lt) => ArgView::Lifetime(lt@),
            GenericArg::Type(ty) => ArgView::Type(ty.view()),
            GenericArg::Other(key) => ArgView::Other(key),
        }
    }
}

} // verus!
