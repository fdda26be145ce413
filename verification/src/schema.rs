//! The structural description of a data type: what the codecs are
//! generated from.

use vstd::prelude::*;

verus! {

/// The fixed-width integer types of the wire format.
#[derive(Clone, Copy, Debug, PartialEq, Eq, Structural)]
pub enum IntKind {
    U8,
    U16,
    U32,
    U64,
    I8,
    I16,
    I32,
    I64,
}

impl IntKind {
    /// The number of bytes of an integer of this kind: its bit width over 8.
    pub open spec fn width(self) -> nat {
        match self {
            IntKind::U8 | IntKind::I8 => 1,
            IntKind::U16 | IntKind::I16 => 2,
            IntKind::U32 | IntKind::I32 => 4,
            IntKind::U64 | IntKind::I64 => 8,
        }
    }

    /// Whether `self` and `other` are the same kind.
    pub fn same(self, other: IntKind) -> (r: bool)
        ensures
            r == (self == other),
    {
        match (self, other) {
            (IntKind::U8, IntKind::U8)
            | (IntKind::U16, IntKind::U16)
            | (IntKind::U32, IntKind::U32)
            | (IntKind::U64, IntKind::U64)
            | (IntKind::I8, IntKind::I8)
            | (IntKind::I16, IntKind::I16)
            | (IntKind::I32, IntKind::I32)
            | (IntKind::I64, IntKind::I64) => true,
            _ => false,
        }
    }

    /// The number of bytes of an integer of this kind.
    pub fn byte_width(self) -> (n: usize)
        ensures
            n == self.width(),
    {
        match self {
            IntKind::U8 | IntKind::I8 => 1,
            IntKind::U16 | IntKind::I16 => 2,
            IntKind::U32 | IntKind::I32 => 4,
            IntKind::U64 | IntKind::I64 => 8,
        }
    }
}

/// A reference to the type of a field or of a variant's payload.
#[derive(Debug, PartialEq, Eq)]
pub enum TypeRef {
    /// One byte, `0` or `1`.
    Bool,
    /// A fixed-width integer, little-endian.
    Int(IntKind),
    /// An unsigned integer of up to 64 bits in variable-length form.
    VarUint,
    /// A string: its byte count in variable-length form, then its bytes.
    Str,
    /// A sequence: its element count in variable-length form, then the
    /// elements.
    List(Box<TypeRef>),
    /// An optional value: a presence byte, then the value if present.
    Optional(Box<TypeRef>),
    /// A product: the fields in declared order.
    Product(Vec<TypeRef>),
    /// A sum: a discriminant byte, then the payload of the variant it names.
    /// The variants stand in declared order.
    Sum(Vec<TypeRef>),
}

/// The mathematical model of a [`TypeRef`].
pub enum TypeModel {
    Bool,
    Int(IntKind),
    VarUint,
    Str,
    List(Box<TypeModel>),
    Optional(Box<TypeModel>),
    Product(Seq<TypeModel>),
    Sum(Seq<TypeModel>),
}

impl TypeRef {
    /// The mathematical model of this type reference.
    pub open spec fn model(self) -> TypeModel
        decreases self,
    {
        match self {
            TypeRef::Bool => TypeModel::Bool,
            TypeRef::Int(kind) => TypeModel::Int(kind),
            TypeRef::VarUint => TypeModel::VarUint,
            TypeRef::Str => TypeModel::Str,
            TypeRef::List(elem) => TypeModel::List(Box::new((*elem).model())),
            TypeRef::Optional(inner) => TypeModel::Optional(Box::new((*inner).model())),
            TypeRef::Product(fields) => TypeModel::Product(models_of(fields@)),
            TypeRef::Sum(variants) => TypeModel::Sum(models_of(variants@)),
        }
    }
}

/// The models of a row of type references, in order.
pub open spec fn models_of(types: Seq<TypeRef>) -> Seq<TypeModel>
    decreases types,
{
    Seq::new(
        types.len(),
        |i: int|
            if 0 <= i < types.len() {
                types[i].model()
            } else {
                TypeModel::Bool
            },
    )
}

impl View for TypeRef {
    type V = TypeModel;

    open spec fn view(&self) -> TypeModel {
        self.model()
    }
}

/// The most variants that one discriminant byte can tell apart.
pub open spec fn max_variants() -> nat {
    256
}

/// Whether a sum has a number of variants that cannot be: none where
/// `empty`, more than a discriminant byte tells apart where not.
pub open spec fn bad_count(variants: nat, empty: bool) -> bool {
    if empty {
        variants == 0
    } else {
        variants > max_variants()
    }
}

/// Whether neither `ty` nor a type inside it is a sum with such a number of
/// variants.
pub open spec fn free_of(ty: TypeModel, empty: bool) -> bool
    decreases ty, 0nat,
{
    match ty {
        TypeModel::Bool => true,
        TypeModel::Int(_) => true,
        TypeModel::VarUint => true,
        TypeModel::Str => true,
        TypeModel::List(elem) => free_of(*elem, empty),
        TypeModel::Optional(inner) => free_of(*inner, empty),
        TypeModel::Product(types) => each_free_of(types, empty),
        TypeModel::Sum(variants) => !bad_count(variants.len(), empty) && each_free_of(
            variants,
            empty,
        ),
    }
}

/// Whether every type of `types` is free of such sums.
pub open spec fn each_free_of(types: Seq<TypeModel>, empty: bool) -> bool
    decreases types, 1nat,
{
    forall|i: int| 0 <= i < types.len() ==> free_of(#[trigger] types[i], empty)
}

/// Whether neither `ty` nor a type inside it is a sum with a number of
/// variants that cannot be.
pub fn is_free_of(ty: &TypeRef, empty: bool) -> (r: bool)
    ensures
        r == free_of(ty@, empty),
    decreases ty,
{
    match ty {
        TypeRef::Bool => true,
        TypeRef::Int(_) => true,
        TypeRef::VarUint => true,
        TypeRef::Str => true,
        TypeRef::List(elem) => is_free_of(elem, empty),
        TypeRef::Optional(inner) => is_free_of(inner, empty),
        TypeRef::Product(types) => {
            assert(ty@ == TypeModel::Product(models_of(types@)));
            all_free_of(types, empty)
        },
        TypeRef::Sum(variants) => {
            assert(ty@ == TypeModel::Sum(models_of(variants@)));
            let bad = if empty {
                variants.len() == 0
            } else {
                variants.len() > 256
            };
            !bad && all_free_of(variants, empty)
        },
    }
}

/// Whether every type of `types` is free of such sums.
pub fn all_free_of(types: &Vec<TypeRef>, empty: bool) -> (r: bool)
    ensures
        r == each_free_of(models_of(types@), empty),
    decreases types,
{
    let mut i: usize = 0;
    while i < types.len()
        invariant
            i <= types.len(),
            forall|j: int| 0 <= j < i ==> free_of(#[trigger] models_of(types@)[j], empty),
        decreases types.len() - i,
    {
        if !is_free_of(&types[i], empty) {
            assert(!free_of(models_of(types@)[i as int], empty));
            return false;
        }
        i = i + 1;
    }
    true
}

/// Whether two texts hold the same characters.
pub fn same_text(a: &str, b: &str) -> (r: bool)
    ensures
        r == (a@ == b@),
{
    let left = a.to_owned();
    let right = b.to_owned();
    left == right
}

/// The type that a name stands for by itself: `bool`, the eight integer
/// kinds under their usual names, `String`, and `VarUint`.
pub open spec fn primitive_named(name: Seq<char>) -> Option<TypeModel> {
    if name == "bool"@ {
        Some(TypeModel::Bool)
    } else if name == "u8"@ {
        Some(TypeModel::Int(IntKind::U8))
    } else if name == "u16"@ {
        Some(TypeModel::Int(IntKind::U16))
    } else if name == "u32"@ {
        Some(TypeModel::Int(IntKind::U32))
    } else if name == "u64"@ {
        Some(TypeModel::Int(IntKind::U64))
    } else if name == "i8"@ {
        Some(TypeModel::Int(IntKind::I8))
    } else if name == "i16"@ {
        Some(TypeModel::Int(IntKind::I16))
    } else if name == "i32"@ {
        Some(TypeModel::Int(IntKind::I32))
    } else if name == "i64"@ {
        Some(TypeModel::Int(IntKind::I64))
    } else if name == "String"@ {
        Some(TypeModel::Str)
    } else if name == "VarUint"@ {
        Some(TypeModel::VarUint)
    } else {
        None
    }
}

/// The type that `name` stands for by itself, if any.
pub fn primitive_type(name: &str) -> (r: Option<TypeRef>)
    ensures
        match r {
            Some(ty) => primitive_named(name@) == Some(ty@),
            None => primitive_named(name@) is None,
        },
{
    if same_text(name, "bool") {
        Some(TypeRef::Bool)
    } else if same_text(name, "u8") {
        Some(TypeRef::Int(IntKind::U8))
    } else if same_text(name, "u16") {
        Some(TypeRef::Int(IntKind::U16))
    } else if same_text(name, "u32") {
        Some(TypeRef::Int(IntKind::U32))
    } else if same_text(name, "u64") {
        Some(TypeRef::Int(IntKind::U64))
    } else if same_text(name, "i8") {
        Some(TypeRef::Int(IntKind::I8))
    } else if same_text(name, "i16") {
        Some(TypeRef::Int(IntKind::I16))
    } else if same_text(name, "i32") {
        Some(TypeRef::Int(IntKind::I32))
    } else if same_text(name, "i64") {
        Some(TypeRef::Int(IntKind::I64))
    } else if same_text(name, "String") {
        Some(TypeRef::Str)
    } else if same_text(name, "VarUint") {
        Some(TypeRef::VarUint)
    } else {
        None
    }
}

/// The type that a container name stands for, applied to one argument:
/// `Vec` for a sequence, `Option` for an optional value.
pub open spec fn container_named(name: Seq<char>, argument: TypeModel) -> Option<TypeModel> {
    if name == "Vec"@ {
        Some(TypeModel::List(Box::new(argument)))
    } else if name == "Option"@ {
        Some(TypeModel::Optional(Box::new(argument)))
    } else {
        None
    }
}

/// The type that the container `name` stands for, applied to `argument`.
pub fn container_type(name: &str, argument: TypeRef) -> (r: Option<TypeRef>)
    ensures
        match r {
            Some(ty) => container_named(name@, argument@) == Some(ty@),
            None => container_named(name@, argument@) is None,
        },
{
    if same_text(name, "Vec") {
        Some(TypeRef::List(Box::new(argument)))
    } else if same_text(name, "Option") {
        Some(TypeRef::Optional(Box::new(argument)))
    } else {
        None
    }
}

/// The payload type of a variant with fields of the types `types`: the
/// type itself where there is one field, else the product of the types, so
/// that a unit variant has the empty product.
pub open spec fn payload_of(types: Seq<TypeModel>) -> TypeModel {
    if types.len() == 1 {
        types[0]
    } else {
        TypeModel::Product(types)
    }
}

/// The payload type of a variant with fields of the types `types`.
pub fn payload_type(types: Vec<TypeRef>) -> (r: TypeRef)
    ensures
        r@ == payload_of(models_of(types@)),
{
    let mut types = types;
    if types.len() == 1 {
        let only = types.pop();
        match only {
            Some(ty) => ty,
            None => TypeRef::Product(types),
        }
    } else {
        TypeRef::Product(types)
    }
}

/// Copies a row of type references.
pub fn clone_types(types: &Vec<TypeRef>) -> (r: Vec<TypeRef>)
    ensures
        models_of(r@) == models_of(types@),
    decreases types,
{
    let mut out: Vec<TypeRef> = Vec::new();
    let mut i: usize = 0;
    while i < types.len()
        invariant
            i <= types.len(),
            out@.len() == i,
            forall|j: int| 0 <= j < i ==> out@[j].model() == types@[j].model(),
        decreases types.len() - i,
    {
        let copy = types[i].clone();
        out.push(copy);
        i = i + 1;
    }
    assert(models_of(out@) =~= models_of(types@));
    out
}

impl Clone for TypeRef {
    fn clone(&self) -> (r: Self)
        ensures
            r@ == self@,
        decreases self,
    {
        match self {
            TypeRef::Bool => TypeRef::Bool,
            TypeRef::Int(kind) => TypeRef::Int(*kind),
            TypeRef::VarUint => TypeRef::VarUint,
            TypeRef::Str => TypeRef::Str,
            TypeRef::List(elem) => TypeRef::List(Box::new((&**elem).clone())),
            TypeRef::Optional(inner) => TypeRef::Optional(Box::new((&**inner).clone())),
            TypeRef::Product(fields) => TypeRef::Product(clone_types(fields)),
            TypeRef::Sum(variants) => TypeRef::Sum(clone_types(variants)),
        }
    }
}


/// What a field is to the storage table of its type.
#[derive(Clone, Copy, Debug, PartialEq, Eq, Structural)]
pub enum FieldRole {
    Plain,
    PrimaryKey,
    SecondaryKey,
}

impl FieldRole {
    /// Whether `self` and `other` are the same role.
    pub fn same(self, other: FieldRole) -> (r: bool)
        ensures
            r == (self == other),
    {
        match (self, other) {
            (FieldRole::Plain, FieldRole::Plain)
            | (FieldRole::PrimaryKey, FieldRole::PrimaryKey)
            | (FieldRole::SecondaryKey, FieldRole::SecondaryKey) => true,
            _ => false,
        }
    }
}

/// One field of a product type.
#[derive(Clone, Debug, PartialEq, Eq)]
pub struct FieldDescriptor {
    pub name: String,
    pub ty: TypeRef,
    pub role: FieldRole,
}

/// The mathematical model of a [`FieldDescriptor`].
pub struct FieldModel {
    pub name: Seq<char>,
    pub ty: TypeModel,
    pub role: FieldRole,
}

impl View for FieldDescriptor {
    type V = FieldModel;

    open spec fn view(&self) -> FieldModel {
        FieldModel { name: self.name@, ty: self.ty@, role: self.role }
    }
}

/// One variant of a sum type.
#[derive(Clone, Debug, PartialEq, Eq)]
pub struct VariantDescriptor {
    pub name: String,
    /// The zero-based position of the variant in the declaration.
    pub discriminant: u8,
    /// The type of the payload; the empty product for a unit variant.
    pub payload: TypeRef,
}

/// The mathematical model of a [`VariantDescriptor`].
pub struct VariantModel {
    pub name: Seq<char>,
    pub discriminant: u8,
    pub payload: TypeModel,
}

impl View for VariantDescriptor {
    type V = VariantModel;

    open spec fn view(&self) -> VariantModel {
        VariantModel { name: self.name@, discriminant: self.discriminant, payload: self.payload@ }
    }
}

/// Whether a type is a product of fields or a sum of variants.
#[derive(Clone, Copy, Debug, PartialEq, Eq, Structural)]
pub enum Kind {
    Product,
    Sum,
}

/// The canonical structural description of a type.  The order of the
/// fields, or of the variants, is that of the declaration; it is the order
/// on the wire.
#[derive(Clone, Debug, PartialEq, Eq)]
pub struct TypeDescriptor {
    pub name: String,
    pub kind: Kind,
    /// The fields of a product; empty for a sum.
    pub fields: Vec<FieldDescriptor>,
    /// The variants of a sum; empty for a product.
    pub variants: Vec<VariantDescriptor>,
}

/// The mathematical model of a [`TypeDescriptor`].
pub struct DescriptorModel {
    pub name: Seq<char>,
    pub kind: Kind,
    pub fields: Seq<FieldModel>,
    pub variants: Seq<VariantModel>,
}

impl DescriptorModel {
    /// The invariant of a descriptor: every sum in the described type has
    /// at least one variant and at most 256; a product has no variants; a
    /// sum has no fields, and each variant has its position as
    /// discriminant.
    pub open spec fn well_formed(self) -> bool {
        &&& free_of(self.type_model(), true)
        &&& free_of(self.type_model(), false)
        &&& match self.kind {
            Kind::Product => self.variants.len() == 0,
            Kind::Sum => {
                &&& self.fields.len() == 0
                &&& forall|i: int|
                    0 <= i < self.variants.len() ==> (#[trigger] self.variants[i]).discriminant
                        == i
            },
        }
    }

    /// The type that the descriptor describes: the product of its fields'
    /// types, or the sum of its variants' payload types.
    pub open spec fn type_model(self) -> TypeModel {
        match self.kind {
            Kind::Product => TypeModel::Product(
                Seq::new(self.fields.len(), |i: int| self.fields[i].ty),
            ),
            Kind::Sum => TypeModel::Sum(
                Seq::new(self.variants.len(), |i: int| self.variants[i].payload),
            ),
        }
    }
}

impl View for TypeDescriptor {
    type V = DescriptorModel;

    open spec fn view(&self) -> DescriptorModel {
        DescriptorModel {
            name: self.name@,
            kind: self.kind,
            fields: Seq::new(self.fields@.len(), |i: int| self.fields@[i]@),
            variants: Seq::new(self.variants@.len(), |i: int| self.variants@[i]@),
        }
    }
}

impl TypeDescriptor {
    /// The type that the descriptor describes.
    pub fn type_ref(&self) -> (r: TypeRef)
        ensures
            r@ == self@.type_model(),
    {
        let mut types: Vec<TypeRef> = Vec::new();
        match self.kind {
            Kind::Product => {
                let mut i: usize = 0;
                while i < self.fields.len()
                    invariant
                        i <= self.fields.len(),
                        types@.len() == i,
                        forall|j: int| 0 <= j < i ==> types@[j]@ == self.fields@[j]@.ty,
                    decreases self.fields.len() - i,
                {
                    types.push(self.fields[i].ty.clone());
                    i = i + 1;
                }
                assert(models_of(types@) =~= Seq::new(
                    self@.fields.len(),
                    |i: int| self@.fields[i].ty,
                ));
                TypeRef::Product(types)
            },
            Kind::Sum => {
                let mut i: usize = 0;
                while i < self.variants.len()
                    invariant
                        i <= self.variants.len(),
                        types@.len() == i,
                        forall|j: int| 0 <= j < i ==> types@[j]@ == self.variants@[j]@.payload,
                    decreases self.variants.len() - i,
                {
                    types.push(self.variants[i].payload.clone());
                    i = i + 1;
                }
                assert(models_of(types@) =~= Seq::new(
                    self@.variants.len(),
                    |i: int| self@.variants[i].payload,
                ));
                TypeRef::Sum(types)
            },
        }
    }
}

} // verus!
