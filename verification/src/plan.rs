//! One generation pass: from a declaration to the root path and the
//! descriptor that every capability of the type is built on.

use vstd::prelude::*;
use crate::config::{
    extract, extraction, lemma_extraction_well_formed, resolve_root_literal, root_literal, yields,
};
use crate::declaration::{DeclarationModel, TypeDeclaration};
use crate::error::GenerationError;
use crate::root::{has_segment, mod_style_path, parse_mod_style, path_view, RootPath};
use crate::schema::{DescriptorModel, TypeDescriptor, TypeModel, TypeRef};

verus! {

/// What one generation pass resolves for a type.
#[derive(Clone, Debug, PartialEq, Eq)]
pub struct Plan {
    /// The namespace of the shared primitives.
    pub root: RootPath,
    /// The structural description of the type.
    pub descriptor: TypeDescriptor,
    /// The type that the descriptor describes.
    pub ty: TypeRef,
}

/// The mathematical model of a [`Plan`].
pub struct PlanModel {
    pub root: (bool, Seq<Seq<char>>),
    pub descriptor: DescriptorModel,
    pub ty: TypeModel,
}

impl PlanModel {
    /// The invariant of a plan: its root path has a segment, its descriptor
    /// is well formed, and its type is the one that the descriptor
    /// describes.
    pub open spec fn well_formed(self) -> bool {
        &&& has_segment(self.root)
        &&& self.descriptor.well_formed()
        &&& self.ty == self.descriptor.type_model()
    }
}

impl View for Plan {
    type V = PlanModel;

    open spec fn view(&self) -> PlanModel {
        PlanModel { root: self.root@, descriptor: self.descriptor@, ty: self.ty@ }
    }
}

/// What a generation pass gives for a declaration whose root literal
/// parsed to `parsed`: a literal that is no path is a malformed token;
/// else the extraction decides.
pub open spec fn planned_with(decl: DeclarationModel, parsed: Option<(bool, Seq<Seq<char>>)>)
    -> Result<PlanModel, GenerationError> {
    match parsed {
        None => Err(GenerationError::MalformedAttribute),
        Some(root) => match extraction(decl) {
            Err(e) => Err(e),
            Ok(descriptor) => Ok(PlanModel { root, descriptor, ty: descriptor.type_model() }),
        },
    }
}

/// What a generation pass gives for a declaration.
pub open spec fn planned(decl: DeclarationModel) -> Result<PlanModel, GenerationError> {
    match root_literal(decl.attrs) {
        Err(e) => Err(e),
        Ok(text) => planned_with(decl, mod_style_path(text)),
    }
}

/// Every plan that a generation pass gives from a root path with a segment
/// is well formed.
pub proof fn lemma_planned_well_formed(
    decl: DeclarationModel,
    parsed: Option<(bool, Seq<Seq<char>>)>,
)
    requires
        parsed matches Some(root) ==> has_segment(root),
    ensures
        planned_with(decl, parsed) matches Ok(plan) ==> plan.well_formed(),
{
    lemma_extraction_well_formed(decl);
}

/// Completes a generation pass from the outcome of parsing the root
/// literal.
pub fn plan_with(input: &TypeDeclaration, parsed: Option<RootPath>) -> (r: Result<
    Plan,
    GenerationError,
>)
    ensures
        yields(r, planned_with(input@, path_view(parsed))),
        (parsed matches Some(root) ==> has_segment(root@)) ==> (r matches Ok(plan)
            ==> plan@.well_formed()),
{
    match parsed {
        None => Err(GenerationError::MalformedAttribute),
        Some(root) => match extract(input) {
            Err(e) => Err(e),
            Ok(descriptor) => {
                let ty = descriptor.type_ref();
                Ok(Plan { root, descriptor, ty })
            },
        },
    }
}

/// Runs one generation pass on a declaration.
pub fn plan(input: &TypeDeclaration) -> (r: Result<Plan, GenerationError>)
    ensures
        yields(r, planned(input@)),
        r matches Ok(plan) ==> plan@.well_formed(),
{
    match resolve_root_literal(&input.attrs) {
        Err(e) => Err(e),
        Ok(text) => plan_with(input, parse_mod_style(text.as_str())),
    }
}

} // verus!
