//! The declared shape of a data type: its name, its fields or variants with
//! their types, and the configuration tokens attached to them.

use vstd::prelude::*;
use crate::schema::{TypeModel, TypeRef};

verus! {

/// The views of a row of items, in order.
pub open spec fn views_of<T: View>(items: Seq<T>) -> Seq<T::V> {
    Seq::new(items.len(), |i: int| items[i]@)
}

/// What follows the name of a configuration token.
#[derive(Clone, Debug, PartialEq, Eq)]
pub enum AttrArg {
    /// Nothing: `#[name]`.
    Bare,
    /// A string literal: `#[name = "text"]`.
    Text(String),
    /// Anything else.
    Other,
}

/// The mathematical model of an [`AttrArg`].
pub enum AttrArgModel {
    Bare,
    Text(Seq<char>),
    Other,
}

impl View for AttrArg {
    type V = AttrArgModel;

    open spec fn view(&self) -> AttrArgModel {
        match self {
            AttrArg::Bare => AttrArgModel::Bare,
            AttrArg::Text(text) => AttrArgModel::Text(text@),
            AttrArg::Other => AttrArgModel::Other,
        }
    }
}

/// One configuration token attached to a type, a field or a variant.
#[derive(Clone, Debug, PartialEq, Eq)]
pub struct Attribute {
    /// The token's name where it is a single identifier, else `None`.
    pub name: Option<String>,
    pub arg: AttrArg,
}

/// The mathematical model of an [`Attribute`].
pub struct AttributeModel {
    pub name: Option<Seq<char>>,
    pub arg: AttrArgModel,
}

impl View for Attribute {
    type V = AttributeModel;

    open spec fn view(&self) -> AttributeModel {
        AttributeModel {
            name: match self.name {
                Some(name) => Some(name@),
                None => None,
            },
            arg: self.arg@,
        }
    }
}

/// A field of a struct, or a variant of an enum with the type of its
/// payload.
#[derive(Clone, Debug, PartialEq, Eq)]
pub struct Member {
    pub name: String,
    pub ty: TypeRef,
    pub attrs: Vec<Attribute>,
}

/// The mathematical model of a [`Member`].
pub struct MemberModel {
    pub name: Seq<char>,
    pub ty: TypeModel,
    pub attrs: Seq<AttributeModel>,
}

impl View for Member {
    type V = MemberModel;

    open spec fn view(&self) -> MemberModel {
        MemberModel { name: self.name@, ty: self.ty@, attrs: views_of(self.attrs@) }
    }
}

/// The members of a declared type, in declared order.
#[derive(Clone, Debug, PartialEq, Eq)]
pub enum Body {
    /// The fields of a struct.
    Struct(Vec<Member>),
    /// The variants of an enum.
    Enum(Vec<Member>),
}

/// The mathematical model of a [`Body`].
pub enum BodyModel {
    Struct(Seq<MemberModel>),
    Enum(Seq<MemberModel>),
}

impl View for Body {
    type V = BodyModel;

    open spec fn view(&self) -> BodyModel {
        match self {
            Body::Struct(fields) => BodyModel::Struct(views_of(fields@)),
            Body::Enum(variants) => BodyModel::Enum(views_of(variants@)),
        }
    }
}

/// The declared shape of one data type.
#[derive(Clone, Debug, PartialEq, Eq)]
pub struct TypeDeclaration {
    pub name: String,
    pub attrs: Vec<Attribute>,
    pub body: Body,
}

/// The mathematical model of a [`TypeDeclaration`].
pub struct DeclarationModel {
    pub name: Seq<char>,
    pub attrs: Seq<AttributeModel>,
    pub body: BodyModel,
}

impl View for TypeDeclaration {
    type V = DeclarationModel;

    open spec fn view(&self) -> DeclarationModel {
        DeclarationModel { name: self.name@, attrs: views_of(self.attrs@), body: self.body@ }
    }
}

} // verus!
