//! From the text of an attribute and of a function to the plan of its future.
//!
//! The texts are parsed by `syn`. Of the syntax tree the library keeps the parts that the
//! plan reads; any other part becomes a key, counted from one in the order in which the
//! parts are met, and its tokens are kept as text beside the signature.

use quote::ToTokens;
use vstd::prelude::*;

use super::plan::{gen_may_cancel_future, FuturePlan, PlanError};
use super::syntax::{
    AttrPath, Bound, FnInput, FnParam, FnSig, GenericArg, Lifetime, Predicate, Segment, SegmentArgs,
    Ty,
};

verus! {

/// `proc_macro2::TokenStream`.
#[verifier::external_type_specification]
#[verifier::external_body]
pub struct ExTokenStream(proc_macro2::TokenStream);

/// `proc_macro2::Ident`.
#[verifier::external_type_specification]
#[verifier::external_body]
pub struct ExIdent(proc_macro2::Ident);

/// `syn::Type`.
#[verifier::external_type_specification]
#[verifier::external_body]
pub struct ExType(syn::Type);

/// `syn::TypePath`.
#[verifier::external_type_specification]
#[verifier::external_body]
pub struct ExTypePath(syn::TypePath);

/// `syn::Path`.
#[verifier::external_type_specification]
#[verifier::external_body]
pub struct ExPath(syn::Path);

/// `syn::PathArguments`.
#[verifier::external_type_specification]
#[verifier::external_body]
pub struct ExPathArguments(syn::PathArguments);

/// `syn::GenericArgument`.
#[verifier::external_type_specification]
#[verifier::external_body]
pub struct ExGenericArgument(syn::GenericArgument);

/// `syn::TypeParamBound`.
#[verifier::external_type_specification]
#[verifier::external_body]
pub struct ExTypeParamBound(syn::TypeParamBound);

/// `syn::WherePredicate`.
#[verifier::external_type_specification]
#[verifier::external_body]
pub struct ExWherePredicate(syn::WherePredicate);

/// `syn::GenericParam`.
#[verifier::external_type_specification]
#[verifier::external_body]
pub struct ExGenericParam(syn::GenericParam);

/// `syn::FnArg`.
#[verifier::external_type_specification]
#[verifier::external_body]
pub struct ExFnArg(syn::FnArg);

/// `syn::Signature`.
#[verifier::external_type_specification]
#[verifier::external_body]
pub struct ExSignature(syn::Signature);

/// The signature of the function that `syn::parse_str::<syn::ItemFn>` reads from the
/// text, or `None` where it reports an error.
pub uninterp spec fn parsed_signature(item: Seq<char>) -> Option<super::syntax::SigView>;

/// The paths, separated by commas, that `syn`'s `Punctuated::parse_terminated` reads from
/// the text, or `None` where it reports an error.
pub uninterp spec fn parsed_attribute(attr: Seq<char>) -> Option<Seq<super::syntax::PathView>>;

/// A function that was parsed.
#[derive(Debug)]
pub struct ParsedItem {
    /// Its signature.
    pub sig: FnSig,
    /// The texts of the parts that the signature names by keys: the part of key `k` is at
    /// place `k - 1`.
    pub kept: Vec<String>,
}

/// Keeps the tokens, as `TokenStream::to_string` gives them, and returns their key.
#[verifier::external_body]
fn key_of(tokens: proc_macro2::TokenStream, kept: &mut Vec<String>) -> usize {
    kept.push(tokens.to_string());
    kept.len()
}

/// Converts the name of a `syn::Lifetime`.
#[verifier::external_body]
fn lifetime_of(name: &proc_macro2::Ident) -> Lifetime {
    Lifetime { ident: name.to_string() }
}

/// Converts a `syn::Type`, variant by variant.
#[verifier::external_body]
fn ty_of(ty: &syn::Type, kept: &mut Vec<String>) -> Ty {
    match ty {
        syn::Type::Reference(r) => Ty::Reference {
            lifetime: r.lifetime.as_ref().map(|lt| lifetime_of(&lt.ident)),
            mutable: r.mutability.is_some(),
            elem: Box::new(ty_of(&r.elem, kept)),
        },
        syn::Type::Path(p) => path_of(p, kept),
        other => compound_of(other, kept),
    }
}

/// Converts a `syn::Type` that is neither a reference nor a path, variant by variant.
#[verifier::external_body]
fn compound_of(ty: &syn::Type, kept: &mut Vec<String>) -> Ty {
    match ty {
        syn::Type::Tuple(t) => Ty::Tuple(t.elems.iter().map(|e| ty_of(e, kept)).collect()),
        syn::Type::Array(a) => {
            Ty::Array(Box::new(ty_of(&a.elem, kept)), key_of(a.len.to_token_stream(), kept))
        },
        syn::Type::Slice(s) => Ty::Slice(Box::new(ty_of(&s.elem, kept))),
        syn::Type::Paren(p) => Ty::Paren(Box::new(ty_of(&p.elem, kept))),
        syn::Type::Group(g) => Ty::Group(Box::new(ty_of(&g.elem, kept))),
        other => Ty::Other(key_of(other.to_token_stream(), kept)),
    }
}

/// Converts a `syn::TypePath`. Under the key of its prefix, if it has one, the whole path
/// is kept.
#[verifier::external_body]
fn path_of(path: &syn::TypePath, kept: &mut Vec<String>) -> Ty {
    let prefix = match (&path.qself, &path.path.leading_colon) {
        (None, None) => None,
        _ => Some(key_of(path.to_token_stream(), kept)),
    };
    Ty::Path { prefix, segments: segments_of(&path.path, kept) }
}

/// Converts the segments of a `syn::Path`.
#[verifier::external_body]
fn segments_of(path: &syn::Path, kept: &mut Vec<String>) -> Vec<Segment> {
    path.segments
        .iter()
        .map(|s| Segment { ident: s.ident.to_string(), args: args_of(&s.arguments, kept) })
        .collect()
}

/// Converts `syn::PathArguments`, variant by variant.
#[verifier::external_body]
fn args_of(args: &syn::PathArguments, kept: &mut Vec<String>) -> SegmentArgs {
    match args {
        syn::PathArguments::None => SegmentArgs::Plain,
        syn::PathArguments::AngleBracketed(a) => {
            SegmentArgs::Angle(a.args.iter().map(|arg| arg_of(arg, kept)).collect())
        },
        other => SegmentArgs::Other(key_of(other.to_token_stream(), kept)),
    }
}

/// Converts a `syn::GenericArgument`, variant by variant.
#[verifier::external_body]
fn arg_of(arg: &syn::GenericArgument, kept: &mut Vec<String>) -> GenericArg {
    match arg {
        syn::GenericArgument::Lifetime(lt) => GenericArg::Lifetime(lifetime_of(&lt.ident)),
        syn::GenericArgument::Type(ty) => GenericArg::Type(ty_of(ty, kept)),
        other => GenericArg::Other(key_of(other.to_token_stream(), kept)),
    }
}

/// Converts a `syn::TypeParamBound`, variant by variant.
#[verifier::external_body]
fn bound_of(bound: &syn::TypeParamBound, kept: &mut Vec<String>) -> Bound {
    match bound {
        syn::TypeParamBound::Lifetime(lt) => Bound::Lifetime(lifetime_of(&lt.ident)),
        syn::TypeParamBound::Trait(t) => Bound::Trait(segments_of(&t.path, kept)),
        other => Bound::Other(key_of(other.to_token_stream(), kept)),
    }
}

/// Converts a `syn::WherePredicate`, variant by variant.
#[verifier::external_body]
fn predicate_of(pred: &syn::WherePredicate, kept: &mut Vec<String>) -> Predicate {
    match pred {
        syn::WherePredicate::Lifetime(p) => Predicate::Lifetime {
            lifetime: lifetime_of(&p.lifetime.ident),
            outlives: p.bounds.iter().map(|lt| lifetime_of(&lt.ident)).collect(),
        },
        syn::WherePredicate::Type(p) => Predicate::Type {
            bounded: ty_of(&p.bounded_ty, kept),
            bounds: p.bounds.iter().map(|b| bound_of(b, kept)).collect(),
        },
        other => Predicate::Other(key_of(other.to_token_stream(), kept)),
    }
}

/// Converts a `syn::GenericParam`, variant by variant.
#[verifier::external_body]
fn param_of(param: &syn::GenericParam, kept: &mut Vec<String>) -> FnParam {
    match param {
        syn::GenericParam::Lifetime(p) => FnParam::Lifetime(lifetime_of(&p.lifetime.ident)),
        syn::GenericParam::Type(p) => FnParam::Type(p.ident.to_string()),
        syn::GenericParam::Const(p) => FnParam::Const(key_of(p.to_token_stream(), kept)),
    }
}

/// Converts a `syn::FnArg`, variant by variant.
#[verifier::external_body]
fn input_of(input: &syn::FnArg, kept: &mut Vec<String>) -> FnInput {
    match input {
        syn::FnArg::Receiver(_) => FnInput::Receiver,
        syn::FnArg::Typed(t) => {
            FnInput::Typed(key_of(t.pat.to_token_stream(), kept), ty_of(&t.ty, kept))
        },
    }
}

/// Converts a `syn::Signature`, field by field.
#[verifier::external_body]
fn sig_of(sig: &syn::Signature, kept: &mut Vec<String>) -> FnSig {
    let clause = sig.generics.where_clause.as_ref();
    FnSig {
        is_async: sig.asyncness.is_some(),
        ident: sig.ident.to_string(),
        params: sig.generics.params.iter().map(|p| param_of(p, kept)).collect(),
        where_clause: clause.map(|c| c.predicates.iter().map(|p| predicate_of(p, kept)).collect()),
        inputs: sig.inputs.iter().map(|i| input_of(i, kept)).collect(),
        output: match &sig.output {
            syn::ReturnType::Type(_, ty) => Some(ty_of(ty, kept)),
            syn::ReturnType::Default => None,
        },
    }
}

/// `syn::parse_str::<syn::ItemFn>` on the text, with its signature converted part by part.
///
/// The signature is a function of the text, named [`parsed_signature`]; there is none
/// where `syn` reports an error. There is a kept text for every key. What the kept texts
/// are is not spoken of: how tokens are spaced when they are printed is left open by
/// `proc_macro2`.
#[verifier::external_body]
fn parse_signature(item: &str) -> (parsed: Option<ParsedItem>)
    ensures
        match parsed {
            Some(p) => {
                &&& parsed_signature(item@) == Some(p.sig@)
                &&& super::keys::sig_keys_within(p.sig@, p.kept@.len())
            },
            None => parsed_signature(item@) is None,
        },
{
    let item = syn::parse_str::<syn::ItemFn>(item).ok()?;
    let mut kept = Vec::new();
    let sig = sig_of(&item.sig, &mut kept);
    Some(ParsedItem { sig, kept })
}

/// `syn`'s `Punctuated::<syn::Path, syn::token::Comma>::parse_terminated` on the text, with
/// the paths converted one by one.
///
/// They are a function of the text, named [`parsed_attribute`]; there are none where `syn`
/// reports an error.
#[verifier::external_body]
fn parse_attribute(attr: &str) -> (parsed: Option<Vec<AttrPath>>)
    ensures
        match parsed {
            Some(paths) => parsed_attribute(attr@) == Some(super::syntax::attr_views(paths@)),
            None => parsed_attribute(attr@) is None,
        },
{
    let parser = syn::punctuated::Punctuated::<syn::Path, syn::token::Comma>::parse_terminated;
    let paths = syn::parse::Parser::parse_str(parser, attr).ok()?;
    let kept = &mut Vec::new();
    let path = |p: &syn::Path| AttrPath {
        leading: p.leading_colon.is_some(),
        segments: segments_of(p, kept),
    };
    Some(paths.iter().map(path).collect())
}

/// Why an attribute cannot be expanded.
#[derive(Debug, Clone, Copy, PartialEq, Eq, Structural)]
pub enum ExpandError {
    /// The arguments of the attribute are no paths.
    Attribute,
    /// The item is no function.
    Item,
    /// No future can be planned for the function.
    Plan(PlanError),
}

/// What an attribute expands to.
#[derive(Debug)]
pub struct Expansion {
    /// The plan.
    pub plan: FuturePlan,
    /// The texts of the parts that the plan names by keys: the part of key `k` is at place
    /// `k - 1`.
    pub kept: Vec<String>,
}

/// Plan the cancellable future of a function that was parsed, under an attribute with the
/// arguments `prefix`. The kept texts are handed on.
pub fn expand_parsed(prefix: &Vec<AttrPath>, parsed: ParsedItem) -> (made: Result<
    Expansion,
    PlanError,
>)
    ensures
        match made {
            Ok(expansion) => {
                &&& super::plan::plan_error(super::syntax::attr_views(prefix@), parsed.sig@) is None
                &&& super::plan::is_plan(
                    expansion.plan,
                    super::syntax::attr_views(prefix@),
                    parsed.sig@,
                )
                &&& expansion.kept == parsed.kept
            },
            Err(e) => super::plan::plan_error(super::syntax::attr_views(prefix@), parsed.sig@)
                == Some(e),
        },
{
    match gen_may_cancel_future(prefix, &parsed.sig) {
        Ok(plan) => Ok(Expansion { plan, kept: parsed.kept }),
        Err(e) => Err(e),
    }
}

/// Plan the cancellable future of the function with the text `item`, under an attribute
/// whose arguments have the text `attr`.
pub fn expand_plan(attr: &str, item: &str) -> (made: Result<Expansion, ExpandError>)
    ensures
        match (parsed_attribute(attr@), parsed_signature(item@)) {
            (None, _) => made matches Err(e) && e == ExpandError::Attribute,
            (Some(_), None) => made matches Err(e) && e == ExpandError::Item,
            (Some(prefix), Some(sig)) => match made {
                Ok(expansion) => {
                    &&& super::plan::plan_error(prefix, sig) is None
                    &&& super::plan::is_plan(expansion.plan, prefix, sig)
                    &&& super::keys::plan_keys_within(expansion.plan, expansion.kept@.len())
                },
                Err(e) => {
                    &&& e matches ExpandError::Plan(error)
                    &&& super::plan::plan_error(prefix, sig) == Some(error)
                },
            },
        },
{
    let prefix = match parse_attribute(attr) {
        Some(prefix) => prefix,
        None => return Err(ExpandError::Attribute),
    };
    let parsed = match parse_signature(item) {
        Some(parsed) => parsed,
        None => return Err(ExpandError::Item),
    };
    let ghost sig = parsed.sig@;
    match expand_parsed(&prefix, parsed) {
        Ok(expansion) => {
            proof {
                super::keys::planning_keeps_keys(
                    expansion.plan,
                    super::syntax::attr_views(prefix@),
                    sig,
                    expansion.kept@.len(),
                );
            }
            Ok(expansion)
        },
        Err(e) => Err(ExpandError::Plan(e)),
    }
}

} // verus!
