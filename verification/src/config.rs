//! Reading the configuration tokens of a declaration: the root path under
//! which generated code finds the shared primitives, and the structural
//! description of the type with the role of each field.

use vstd::prelude::*;
use crate::declaration::{
    views_of, AttrArg, AttrArgModel, Attribute, AttributeModel, Body, BodyModel, DeclarationModel,
    Member, MemberModel, TypeDeclaration,
};
use crate::error::GenerationError;
use crate::schema::{
    bad_count, each_free_of, free_of, is_free_of, max_variants, same_text, DescriptorModel,
    FieldDescriptor, FieldModel, FieldRole, Kind, TypeDescriptor, TypeModel, VariantDescriptor,
    VariantModel,
};

verus! {

/// The name of the token that overrides the root path.
pub const ROOT_PATH: &'static str = "eosio_core_root_path";

/// The root path that applies where no token overrides it.
pub const DEFAULT_ROOT_PATH: &'static str = "::eosio_core";

/// The name of the token that names the storage table.
pub const TABLE_NAME: &'static str = "table_name";

/// The name of the token that marks the primary key.
pub const PRIMARY: &'static str = "primary";

/// The name of the token that marks a secondary key.
pub const SECONDARY: &'static str = "secondary";

/// The name of the token that marks a singleton table.
pub const SINGLETON: &'static str = "singleton";

/// Whether the token has the single identifier `name` as its name.
pub open spec fn is_named(a: AttributeModel, name: Seq<char>) -> bool {
    a.name == Some(name)
}

/// Whether the argument has the shape asked for: nothing where `bare`, a
/// string literal where not.
pub open spec fn shaped(arg: AttrArgModel, bare: bool) -> bool {
    if bare {
        arg is Bare
    } else {
        arg is Text
    }
}

/// Whether some token of `attrs` is named `name`.
pub open spec fn mentioned(attrs: Seq<AttributeModel>, name: Seq<char>) -> bool {
    exists|i: int| 0 <= i < attrs.len() && is_named(#[trigger] attrs[i], name)
}

/// Whether some token of `attrs` is named `name` and has another shape than
/// the one asked for.
pub open spec fn misshapen(attrs: Seq<AttributeModel>, name: Seq<char>, bare: bool) -> bool {
    exists|i: int|
        0 <= i < attrs.len() && is_named(#[trigger] attrs[i], name) && !shaped(attrs[i].arg, bare)
}

/// The string of the last token among the first `upto` of `attrs` that is
/// named `name` and holds a string.
pub open spec fn last_text(attrs: Seq<AttributeModel>, name: Seq<char>, upto: nat) -> Option<
    Seq<char>,
>
    decreases upto,
{
    if upto == 0 || upto > attrs.len() {
        None
    } else {
        let a = attrs[upto - 1];
        if is_named(a, name) && a.arg is Text {
            Some(a.arg->Text_0)
        } else {
            last_text(attrs, name, (upto - 1) as nat)
        }
    }
}

/// Whether some member has a token named `name`.
pub open spec fn members_mention(members: Seq<MemberModel>, name: Seq<char>) -> bool {
    exists|i: int| 0 <= i < members.len() && mentioned((#[trigger] members[i]).attrs, name)
}

/// Whether some member has a token named `name` of another shape than the
/// one asked for.
pub open spec fn members_misshape(members: Seq<MemberModel>, name: Seq<char>, bare: bool) -> bool {
    exists|i: int| 0 <= i < members.len() && misshapen((#[trigger] members[i]).attrs, name, bare)
}

/// Whether a recognized token stands where it has no meaning: a key marker
/// on the type itself, an option of the type on a field, or any recognized
/// token on a variant.
pub open spec fn misplaced(decl: DeclarationModel) -> bool {
    ||| mentioned(decl.attrs, PRIMARY@)
    ||| mentioned(decl.attrs, SECONDARY@)
    ||| members_mention(decl.body.members(), ROOT_PATH@)
    ||| members_mention(decl.body.members(), TABLE_NAME@)
    ||| members_mention(decl.body.members(), SINGLETON@)
    ||| (decl.body is Enum && members_mention(decl.body.members(), PRIMARY@))
    ||| (decl.body is Enum && members_mention(decl.body.members(), SECONDARY@))
}

/// Whether a key marker on a field carries an argument.
pub open spec fn malformed_marker(decl: DeclarationModel) -> bool {
    ||| members_misshape(decl.body.members(), PRIMARY@, true)
    ||| members_misshape(decl.body.members(), SECONDARY@, true)
}

/// The role that the tokens of a field give it.  A field marked both ways
/// is the primary key.
pub open spec fn role_of(attrs: Seq<AttributeModel>) -> FieldRole {
    if mentioned(attrs, PRIMARY@) {
        FieldRole::PrimaryKey
    } else if mentioned(attrs, SECONDARY@) {
        FieldRole::SecondaryKey
    } else {
        FieldRole::Plain
    }
}

/// The descriptor of a field.
pub open spec fn field_of(member: MemberModel) -> FieldModel {
    FieldModel { name: member.name, ty: member.ty, role: role_of(member.attrs) }
}

/// The descriptor of the variant declared at position `at`.
pub open spec fn variant_of(member: MemberModel, at: int) -> VariantModel {
    VariantModel { name: member.name, discriminant: at as u8, payload: member.ty }
}

/// The descriptor of a declaration: its members in declared order.
pub open spec fn descriptor_of(decl: DeclarationModel) -> DescriptorModel {
    match decl.body {
        BodyModel::Struct(fields) => DescriptorModel {
            name: decl.name,
            kind: Kind::Product,
            fields: Seq::new(fields.len(), |i: int| field_of(fields[i])),
            variants: Seq::empty(),
        },
        BodyModel::Enum(variants) => DescriptorModel {
            name: decl.name,
            kind: Kind::Sum,
            fields: Seq::empty(),
            variants: Seq::new(variants.len(), |i: int| variant_of(variants[i], i)),
        },
    }
}

/// Whether the type of every member is free of sums with such a number of
/// variants.
pub open spec fn members_free_of(members: Seq<MemberModel>, empty: bool) -> bool {
    forall|i: int| 0 <= i < members.len() ==> free_of((#[trigger] members[i]).ty, empty)
}

/// Whether the declared type is free of sums with such a number of
/// variants: the declared enum itself, and every sum in the type of a
/// member.
pub open spec fn sums_free_of(decl: DeclarationModel, empty: bool) -> bool {
    &&& decl.body is Enum ==> !bad_count(decl.body.members().len(), empty)
    &&& members_free_of(decl.body.members(), empty)
}

/// What extracting the descriptor of a declaration gives: the descriptor,
/// or the first of these that applies: a misplaced token, a key marker with
/// an argument, a sum without variants, a sum with more than a discriminant
/// byte tells apart.  The sums are the declared enum and every sum in the
/// type of a member.
pub open spec fn extraction(decl: DeclarationModel) -> Result<DescriptorModel, GenerationError> {
    if misplaced(decl) {
        Err(GenerationError::MisplacedAttribute)
    } else if malformed_marker(decl) {
        Err(GenerationError::MalformedAttribute)
    } else if !sums_free_of(decl, true) {
        Err(GenerationError::EmptySum)
    } else if !sums_free_of(decl, false) {
        Err(GenerationError::TooManyVariants)
    } else {
        Ok(descriptor_of(decl))
    }
}

/// The type of a descriptor is free of sums with a number of variants
/// that cannot be exactly where its declaration is.
pub proof fn lemma_descriptor_sums(decl: DeclarationModel, empty: bool)
    ensures
        free_of(descriptor_of(decl).type_model(), empty) == sums_free_of(decl, empty),
{
    let members = decl.body.members();
    let types = Seq::new(members.len(), |i: int| members[i].ty);
    assert(descriptor_of(decl).type_model() == match decl.body {
        BodyModel::Struct(_) => TypeModel::Product(types),
        BodyModel::Enum(_) => TypeModel::Sum(types),
    }) by {
        match decl.body {
            BodyModel::Struct(_) => {
                assert(descriptor_of(decl).type_model()->Product_0 =~= types);
            },
            BodyModel::Enum(_) => {
                assert(descriptor_of(decl).type_model()->Sum_0 =~= types);
            },
        }
    }
    assert(each_free_of(types, empty) == members_free_of(members, empty)) by {
        if members_free_of(members, empty) {
            assert forall|i: int| 0 <= i < types.len() implies free_of(
                #[trigger] types[i],
                empty,
            ) by {
                assert(free_of(members[i].ty, empty));
            }
        }
        if each_free_of(types, empty) {
            assert forall|i: int| 0 <= i < members.len() implies free_of(
                (#[trigger] members[i]).ty,
                empty,
            ) by {
                assert(free_of(types[i], empty));
            }
        }
    }
}

/// Every descriptor that extraction gives is well formed.
pub proof fn lemma_extraction_well_formed(decl: DeclarationModel)
    ensures
        extraction(decl) matches Ok(descriptor) ==> descriptor.well_formed(),
{
    lemma_descriptor_sums(decl, true);
    lemma_descriptor_sums(decl, false);
}

/// The string that names the root path: that of the last override among the
/// tokens of the type, else the default.  Every override must hold a string;
/// a token that is no override, whatever its name and shape, changes
/// nothing.
pub open spec fn root_literal(attrs: Seq<AttributeModel>) -> Result<Seq<char>, GenerationError> {
    if misshapen(attrs, ROOT_PATH@, false) {
        Err(GenerationError::MalformedAttribute)
    } else {
        match last_text(attrs, ROOT_PATH@, attrs.len()) {
            Some(text) => Ok(text),
            None => Ok(DEFAULT_ROOT_PATH@),
        }
    }
}

impl BodyModel {
    /// The fields or the variants.
    pub open spec fn members(self) -> Seq<MemberModel> {
        match self {
            BodyModel::Struct(fields) => fields,
            BodyModel::Enum(variants) => variants,
        }
    }
}

/// Whether `r` is what `expected` asks for: the same error, or a value with
/// the expected view.
pub open spec fn yields<T: View>(r: Result<T, GenerationError>, expected: Result<
    T::V,
    GenerationError,
>) -> bool {
    match expected {
        Ok(v) => r is Ok && r->Ok_0@ == v,
        Err(e) => r is Err && r->Err_0 == e,
    }
}

/// Whether the token has the single identifier `name` as its name.
pub fn name_is(attr: &Attribute, name: &str) -> (r: bool)
    ensures
        r == is_named(attr@, name@),
{
    match &attr.name {
        Some(own) => same_text(own.as_str(), name),
        None => false,
    }
}

/// Whether the argument has the shape asked for.
pub fn shape_is(arg: &AttrArg, bare: bool) -> (r: bool)
    ensures
        r == shaped(arg@, bare),
{
    match arg {
        AttrArg::Bare => bare,
        AttrArg::Text(_) => !bare,
        AttrArg::Other => false,
    }
}

/// Whether some token of `attrs` is named `name`.
pub fn has_attr(attrs: &Vec<Attribute>, name: &str) -> (r: bool)
    ensures
        r == mentioned(views_of(attrs@), name@),
{
    let mut i: usize = 0;
    while i < attrs.len()
        invariant
            i <= attrs.len(),
            forall|j: int| 0 <= j < i ==> !is_named(#[trigger] views_of(attrs@)[j], name@),
        decreases attrs.len() - i,
    {
        if name_is(&attrs[i], name) {
            assert(is_named(views_of(attrs@)[i as int], name@));
            return true;
        }
        i = i + 1;
    }
    false
}

/// Whether some token of `attrs` is named `name` and has another shape than
/// the one asked for.
pub fn has_misshapen(attrs: &Vec<Attribute>, name: &str, bare: bool) -> (r: bool)
    ensures
        r == misshapen(views_of(attrs@), name@, bare),
{
    let mut i: usize = 0;
    while i < attrs.len()
        invariant
            i <= attrs.len(),
            forall|j: int|
                0 <= j < i ==> !(is_named(#[trigger] views_of(attrs@)[j], name@) && !shaped(
                    views_of(attrs@)[j].arg,
                    bare,
                )),
        decreases attrs.len() - i,
    {
        if name_is(&attrs[i], name) && !shape_is(&attrs[i].arg, bare) {
            assert(is_named(views_of(attrs@)[i as int], name@) && !shaped(
                views_of(attrs@)[i as int].arg,
                bare,
            ));
            return true;
        }
        i = i + 1;
    }
    false
}

/// The string of the last token of `attrs` that is named `name` and holds a
/// string.
pub fn find_last_text(attrs: &Vec<Attribute>, name: &str) -> (r: Option<String>)
    ensures
        match r {
            Some(text) => last_text(views_of(attrs@), name@, attrs@.len()) == Some(text@),
            None => last_text(views_of(attrs@), name@, attrs@.len()) is None,
        },
{
    let mut found: Option<String> = None;
    let mut i: usize = 0;
    while i < attrs.len()
        invariant
            i <= attrs.len(),
            match found {
                Some(text) => last_text(views_of(attrs@), name@, i as nat) == Some(text@),
                None => last_text(views_of(attrs@), name@, i as nat) is None,
            },
        decreases attrs.len() - i,
    {
        if name_is(&attrs[i], name) {
            match &attrs[i].arg {
                AttrArg::Text(text) => {
                    found = Some(text.clone());
                },
                _ => {},
            }
        }
        i = i + 1;
    }
    found
}

/// Whether some member has a token named `name`.
pub fn any_member_has(members: &Vec<Member>, name: &str) -> (r: bool)
    ensures
        r == members_mention(views_of(members@), name@),
{
    let mut i: usize = 0;
    while i < members.len()
        invariant
            i <= members.len(),
            forall|j: int|
                0 <= j < i ==> !mentioned((#[trigger] views_of(members@)[j]).attrs, name@),
        decreases members.len() - i,
    {
        if has_attr(&members[i].attrs, name) {
            assert(mentioned(views_of(members@)[i as int].attrs, name@));
            return true;
        }
        i = i + 1;
    }
    false
}

/// Whether some member has a token named `name` of another shape than the
/// one asked for.
pub fn any_member_misshapes(members: &Vec<Member>, name: &str, bare: bool) -> (r: bool)
    ensures
        r == members_misshape(views_of(members@), name@, bare),
{
    let mut i: usize = 0;
    while i < members.len()
        invariant
            i <= members.len(),
            forall|j: int|
                0 <= j < i ==> !misshapen((#[trigger] views_of(members@)[j]).attrs, name@, bare),
        decreases members.len() - i,
    {
        if has_misshapen(&members[i].attrs, name, bare) {
            assert(misshapen(views_of(members@)[i as int].attrs, name@, bare));
            return true;
        }
        i = i + 1;
    }
    false
}

impl Body {
    /// The fields or the variants.
    pub fn members(&self) -> (r: &Vec<Member>)
        ensures
            views_of(r@) == self@.members(),
    {
        match self {
            Body::Struct(fields) => fields,
            Body::Enum(variants) => variants,
        }
    }

    /// Whether this is the body of an enum.
    pub fn is_enum(&self) -> (r: bool)
        ensures
            r == (self@ is Enum),
    {
        match self {
            Body::Struct(_) => false,
            Body::Enum(_) => true,
        }
    }
}

/// Whether the type of every member is free of sums with such a number of
/// variants.
pub fn all_members_free_of(members: &Vec<Member>, empty: bool) -> (r: bool)
    ensures
        r == members_free_of(views_of(members@), empty),
{
    let mut i: usize = 0;
    while i < members.len()
        invariant
            i <= members.len(),
            forall|j: int| 0 <= j < i ==> free_of((#[trigger] views_of(members@)[j]).ty, empty),
        decreases members.len() - i,
    {
        if !is_free_of(&members[i].ty, empty) {
            assert(!free_of(views_of(members@)[i as int].ty, empty));
            return false;
        }
        i = i + 1;
    }
    true
}

/// Whether a recognized token stands where it has no meaning.
pub fn is_misplaced(input: &TypeDeclaration) -> (r: bool)
    ensures
        r == misplaced(input@),
{
    let members = input.body.members();
    let sum = input.body.is_enum();
    has_attr(&input.attrs, PRIMARY) || has_attr(&input.attrs, SECONDARY) || any_member_has(
        members,
        ROOT_PATH,
    ) || any_member_has(members, TABLE_NAME) || any_member_has(members, SINGLETON) || (sum
        && any_member_has(members, PRIMARY)) || (sum && any_member_has(members, SECONDARY))
}

/// The role that the tokens of a field give it.
pub fn role_for(attrs: &Vec<Attribute>) -> (r: FieldRole)
    ensures
        r == role_of(views_of(attrs@)),
{
    if has_attr(attrs, PRIMARY) {
        FieldRole::PrimaryKey
    } else if has_attr(attrs, SECONDARY) {
        FieldRole::SecondaryKey
    } else {
        FieldRole::Plain
    }
}

/// The descriptors of the fields of a struct, in declared order.
pub fn describe_fields(fields: &Vec<Member>) -> (r: Vec<FieldDescriptor>)
    ensures
        r@.len() == fields@.len(),
        forall|i: int| 0 <= i < r@.len() ==> (#[trigger] r@[i])@ == field_of(fields@[i]@),
{
    let mut out: Vec<FieldDescriptor> = Vec::new();
    let mut i: usize = 0;
    while i < fields.len()
        invariant
            i <= fields.len(),
            out@.len() == i,
            forall|j: int| 0 <= j < i ==> (#[trigger] out@[j])@ == field_of(fields@[j]@),
        decreases fields.len() - i,
    {
        let field = &fields[i];
        out.push(
            FieldDescriptor {
                name: field.name.clone(),
                ty: field.ty.clone(),
                role: role_for(&field.attrs),
            },
        );
        i = i + 1;
    }
    out
}

/// The descriptors of the variants of an enum, in declared order.
pub fn describe_variants(variants: &Vec<Member>) -> (r: Vec<VariantDescriptor>)
    requires
        variants@.len() <= max_variants(),
    ensures
        r@.len() == variants@.len(),
        forall|i: int| 0 <= i < r@.len() ==> (#[trigger] r@[i])@ == variant_of(variants@[i]@, i),
{
    let mut out: Vec<VariantDescriptor> = Vec::new();
    let mut i: usize = 0;
    while i < variants.len()
        invariant
            i <= variants.len(),
            variants@.len() <= max_variants(),
            out@.len() == i,
            forall|j: int| 0 <= j < i ==> (#[trigger] out@[j])@ == variant_of(variants@[j]@, j),
        decreases variants.len() - i,
    {
        let variant = &variants[i];
        out.push(
            VariantDescriptor {
                name: variant.name.clone(),
                discriminant: i as u8,
                payload: variant.ty.clone(),
            },
        );
        i = i + 1;
    }
    out
}

/// Extracts the descriptor of a declaration.  The order of the members is
/// kept as declared.
pub fn extract(input: &TypeDeclaration) -> (r: Result<TypeDescriptor, GenerationError>)
    ensures
        yields(r, extraction(input@)),
        r matches Ok(descriptor) ==> descriptor@.well_formed(),
{
    proof {
        lemma_extraction_well_formed(input@);
    }
    if is_misplaced(input) {
        return Err(GenerationError::MisplacedAttribute);
    }
    let members = input.body.members();
    if any_member_misshapes(members, PRIMARY, true) || any_member_misshapes(
        members,
        SECONDARY,
        true,
    ) {
        return Err(GenerationError::MalformedAttribute);
    }
    let sum = input.body.is_enum();
    if (sum && members.len() == 0) || !all_members_free_of(members, true) {
        return Err(GenerationError::EmptySum);
    }
    if (sum && members.len() > 256) || !all_members_free_of(members, false) {
        return Err(GenerationError::TooManyVariants);
    }
    match &input.body {
        Body::Struct(fields) => {
            let described = describe_fields(fields);
            let out = TypeDescriptor {
                name: input.name.clone(),
                kind: Kind::Product,
                fields: described,
                variants: Vec::new(),
            };
            proof {
                let want = descriptor_of(input@);
                assert(out@.fields =~= want.fields);
                assert(out@.variants =~= want.variants);
            }
            Ok(out)
        },
        Body::Enum(variants) => {
            let described = describe_variants(variants);
            let out = TypeDescriptor {
                name: input.name.clone(),
                kind: Kind::Sum,
                fields: Vec::new(),
                variants: described,
            };
            proof {
                let want = descriptor_of(input@);
                assert(out@.fields =~= want.fields);
                assert(out@.variants =~= want.variants);
            }
            Ok(out)
        },
    }
}

/// The string that names the root path of a type with the tokens `attrs`.
pub fn resolve_root_literal(attrs: &Vec<Attribute>) -> (r: Result<String, GenerationError>)
    ensures
        yields(r, root_literal(views_of(attrs@))),
{
    if has_misshapen(attrs, ROOT_PATH, false) {
        return Err(GenerationError::MalformedAttribute);
    }
    match find_last_text(attrs, ROOT_PATH) {
        Some(text) => Ok(text),
        None => Ok(DEFAULT_ROOT_PATH.to_owned()),
    }
}

} // verus!
