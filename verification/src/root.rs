//! The root path: the namespace under which generated code refers to the
//! shared primitives.

use vstd::prelude::*;
use crate::config::{resolve_root_literal, root_literal, yields};
use crate::declaration::{views_of, TypeDeclaration};
use crate::error::GenerationError;

verus! {

/// A module-style path: identifiers separated by `::`, with or without a
/// leading `::`.
#[derive(Clone, Debug, PartialEq, Eq)]
pub struct RootPath {
    pub leading_colon: bool,
    pub segments: Vec<String>,
}

impl View for RootPath {
    type V = (bool, Seq<Seq<char>>);

    open spec fn view(&self) -> (bool, Seq<Seq<char>>) {
        (self.leading_colon, views_of(self.segments@))
    }
}

/// What `text` is as a module-style path: whether it starts with `::`, and
/// its segments; `None` where `text` is no such path.
pub uninterp spec fn mod_style_path(text: Seq<char>) -> Option<(bool, Seq<Seq<char>>)>;

/// Whether a path has at least one segment.
pub open spec fn has_segment(path: (bool, Seq<Seq<char>>)) -> bool {
    path.1.len() >= 1
}

/// The view of a path that may be missing.
pub open spec fn path_view(path: Option<RootPath>) -> Option<(bool, Seq<Seq<char>>)> {
    match path {
        Some(p) => Some(p@),
        None => None,
    }
}

/// Parses `text` as a module-style path with `syn::Path::parse_mod_style`,
/// applied to `text` as the content of a string literal
/// (`syn::LitStr::parse_with`).  Trusted: the result is the one that `syn`
/// gives for this text, which depends on the text alone; and a path that
/// `syn` gives has at least one segment, since it refuses an empty one.
#[verifier::external_body]
pub(crate) fn parse_mod_style(text: &str) -> (r: Option<RootPath>)
    ensures
        path_view(r) == mod_style_path(text@),
        r matches Some(path) ==> has_segment(path@),
{
    let literal = syn::LitStr::new(text, proc_macro2::Span::call_site());
    match literal.parse_with(syn::Path::parse_mod_style) {
        Ok(path) => Some(
            RootPath {
                leading_colon: path.leading_colon.is_some(),
                segments: path.segments.iter().map(|segment| segment.ident.to_string()).collect(),
            },
        ),
        Err(_) => None,
    }
}

/// The root path that a literal resolves to, given what the literal is as
/// a module-style path.
pub open spec fn resolved(
    literal: Result<Seq<char>, GenerationError>,
    parsed: Option<(bool, Seq<Seq<char>>)>,
) -> Result<(bool, Seq<Seq<char>>), GenerationError> {
    match literal {
        Err(e) => Err(e),
        Ok(_) => match parsed {
            Some(path) => Ok(path),
            None => Err(GenerationError::MalformedAttribute),
        },
    }
}

/// The root path of a declaration: the last override among the tokens of
/// the type, else the default, as a module-style path.
pub open spec fn root_of(attrs: Seq<crate::declaration::AttributeModel>) -> Result<
    (bool, Seq<Seq<char>>),
    GenerationError,
> {
    match root_literal(attrs) {
        Err(e) => Err(e),
        Ok(text) => resolved(Ok(text), mod_style_path(text)),
    }
}

/// Turns the outcome of parsing the root literal into the root path: a
/// literal that is no module-style path is a malformed token.
pub fn root_path_from(parsed: Option<RootPath>) -> (r: Result<RootPath, GenerationError>)
    ensures
        match parsed {
            Some(path) => r == Ok::<RootPath, GenerationError>(path),
            None => r == Err::<RootPath, GenerationError>(GenerationError::MalformedAttribute),
        },
{
    match parsed {
        Some(path) => Ok(path),
        None => Err(GenerationError::MalformedAttribute),
    }
}

/// Resolves the root path of a declaration.  Exactly one path resolves, or
/// generation fails.
pub fn root_path(input: &TypeDeclaration) -> (r: Result<RootPath, GenerationError>)
    ensures
        yields(r, root_of(input@.attrs)),
        r matches Ok(path) ==> has_segment(path@),
{
    match resolve_root_literal(&input.attrs) {
        Err(e) => Err(e),
        Ok(text) => root_path_from(parse_mod_style(text.as_str())),
    }
}

} // verus!
