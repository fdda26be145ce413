//! Storage-table metadata: the name of the table, which field is its
//! primary key, which fields are secondary keys, and whether it is a
//! singleton.

use vstd::prelude::*;
use crate::config::{
    find_last_text, has_attr, has_misshapen, last_text, mentioned, misshapen, yields, SINGLETON,
    TABLE_NAME,
};
use crate::declaration::{views_of, Attribute, AttributeModel, DeclarationModel, TypeDeclaration};
use crate::error::GenerationError;
use crate::plan::{plan, planned, Plan, PlanModel};
use crate::schema::{DescriptorModel, FieldDescriptor, FieldModel, FieldRole, TypeDescriptor};
use crate::value::{values_of, Value, ValueModel};

verus! {

/// The static metadata of a storage table.  A singleton table has no keys;
/// a table has at most one primary key.
#[derive(Clone, Debug, PartialEq, Eq)]
pub struct TableMetadata {
    pub table_name: String,
    /// The position of the field that is the primary key.
    pub primary_key: Option<usize>,
    /// The positions of the fields that are secondary keys, in declared
    /// order.
    pub secondary_keys: Vec<usize>,
    pub singleton: bool,
}

/// The mathematical model of a [`TableMetadata`].
pub struct MetadataModel {
    pub table_name: Seq<char>,
    pub primary_key: Option<usize>,
    pub secondary_keys: Seq<usize>,
    pub singleton: bool,
}

impl MetadataModel {
    /// The invariant of the metadata of a table over the fields `fields`: a
    /// singleton has no keys; the primary key, if any, is a field marked
    /// so; the secondary keys are the fields marked so, each once, in
    /// declared order.
    pub open spec fn well_formed(self, fields: Seq<FieldModel>) -> bool {
        &&& self.singleton ==> self.primary_key is None && self.secondary_keys.len() == 0
        &&& self.primary_key matches Some(at) ==> at < fields.len() && fields[at as int].role
            == FieldRole::PrimaryKey
        &&& forall|k: int|
            0 <= k < self.secondary_keys.len() ==> {
                &&& (#[trigger] self.secondary_keys[k]) < fields.len()
                &&& fields[self.secondary_keys[k] as int].role == FieldRole::SecondaryKey
            }
        &&& forall|k: int, l: int|
            0 <= k < l < self.secondary_keys.len() ==> self.secondary_keys[k]
                < self.secondary_keys[l]
    }
}

impl TableModel {
    /// The invariant of a table: a well-formed plan, and metadata that are
    /// well formed over the fields of its descriptor.
    pub open spec fn well_formed(self) -> bool {
        &&& self.plan.well_formed()
        &&& self.metadata.well_formed(self.plan.descriptor.fields)
    }
}

impl View for TableMetadata {
    type V = MetadataModel;

    open spec fn view(&self) -> MetadataModel {
        MetadataModel {
            table_name: self.table_name@,
            primary_key: self.primary_key,
            secondary_keys: self.secondary_keys@,
            singleton: self.singleton,
        }
    }
}

/// The table capability of a type: its metadata, and the rules that take
/// the key values out of a row.
#[derive(Clone, Debug, PartialEq, Eq)]
pub struct Table {
    pub plan: Plan,
    pub metadata: TableMetadata,
}

/// The mathematical model of a [`Table`].
pub struct TableModel {
    pub plan: PlanModel,
    pub metadata: MetadataModel,
}

impl View for Table {
    type V = TableModel;

    open spec fn view(&self) -> TableModel {
        TableModel { plan: self.plan@, metadata: self.metadata@ }
    }
}

/// The positions among the first `upto` fields of those with role `role`,
/// ascending.
pub open spec fn with_role(fields: Seq<FieldModel>, role: FieldRole, upto: nat) -> Seq<usize>
    decreases upto,
{
    if upto == 0 || upto > fields.len() {
        Seq::empty()
    } else {
        let before = with_role(fields, role, (upto - 1) as nat);
        if fields[upto - 1].role == role {
            before.push((upto - 1) as usize)
        } else {
            before
        }
    }
}

/// The metadata that the tokens of a type and the roles of its fields
/// give, or the first of these that applies: a table name that is no
/// string or a singleton marker with an argument; no table name; two
/// primary keys; a singleton with a key.  Of several table names the last
/// one counts.
pub open spec fn metadata_of(attrs: Seq<AttributeModel>, descriptor: DescriptorModel) -> Result<
    MetadataModel,
    GenerationError,
> {
    let primaries = with_role(descriptor.fields, FieldRole::PrimaryKey, descriptor.fields.len());
    let secondaries = with_role(
        descriptor.fields,
        FieldRole::SecondaryKey,
        descriptor.fields.len(),
    );
    let name = last_text(attrs, TABLE_NAME@, attrs.len());
    if misshapen(attrs, TABLE_NAME@, false) || misshapen(attrs, SINGLETON@, true) {
        Err(GenerationError::MalformedAttribute)
    } else if name is None {
        Err(GenerationError::MissingTableName)
    } else if primaries.len() >= 2 {
        Err(GenerationError::DuplicatePrimaryKey)
    } else if mentioned(attrs, SINGLETON@) && primaries.len() + secondaries.len() > 0 {
        Err(GenerationError::SingletonWithKeys)
    } else {
        Ok(
            MetadataModel {
                table_name: name->Some_0,
                primary_key: if primaries.len() == 1 {
                    Some(primaries[0])
                } else {
                    None
                },
                secondary_keys: secondaries,
                singleton: mentioned(attrs, SINGLETON@),
            },
        )
    }
}

/// The positions counted by `with_role` are those of fields with the role,
/// below the bound, ascending.
pub proof fn lemma_with_role_holds(fields: Seq<FieldModel>, role: FieldRole, upto: nat)
    requires
        upto <= fields.len(),
        fields.len() <= usize::MAX,
    ensures
        forall|k: int|
            0 <= k < with_role(fields, role, upto).len() ==> {
                &&& (#[trigger] with_role(fields, role, upto)[k]) < upto
                &&& fields[with_role(fields, role, upto)[k] as int].role == role
            },
        forall|k: int, l: int|
            0 <= k < l < with_role(fields, role, upto).len() ==> with_role(fields, role, upto)[k]
                < with_role(fields, role, upto)[l],
    decreases upto,
{
    if upto > 0 {
        lemma_with_role_holds(fields, role, (upto - 1) as nat);
    }
}

/// All metadata that come of a descriptor are well formed over its fields.
pub proof fn lemma_metadata_well_formed(attrs: Seq<AttributeModel>, descriptor: DescriptorModel)
    requires
        descriptor.fields.len() <= usize::MAX,
    ensures
        metadata_of(attrs, descriptor) matches Ok(metadata) ==> metadata.well_formed(
            descriptor.fields,
        ),
{
    let n = descriptor.fields.len();
    lemma_with_role_holds(descriptor.fields, FieldRole::PrimaryKey, n);
    lemma_with_role_holds(descriptor.fields, FieldRole::SecondaryKey, n);
}

/// What generating the table capability of a declaration gives.
pub open spec fn tabled(decl: DeclarationModel) -> Result<TableModel, GenerationError> {
    match planned(decl) {
        Err(e) => Err(e),
        Ok(plan) => match metadata_of(decl.attrs, plan.descriptor) {
            Err(e) => Err(e),
            Ok(metadata) => Ok(TableModel { plan, metadata }),
        },
    }
}

/// The value of the field at position `index` of a row.
pub open spec fn key_of(index: Option<usize>, row: ValueModel) -> Option<ValueModel> {
    match (index, row) {
        (Some(i), ValueModel::Product(fields)) => if i < fields.len() {
            Some(fields[i as int])
        } else {
            None
        },
        _ => None,
    }
}

/// The position of the `rank`-th secondary key.
pub open spec fn secondary_at(keys: Seq<usize>, rank: usize) -> Option<usize> {
    if rank < keys.len() {
        Some(keys[rank as int])
    } else {
        None
    }
}

/// The positions of the fields with role `role`, ascending.
pub fn positions_with_role(fields: &Vec<FieldDescriptor>, role: FieldRole) -> (r: Vec<usize>)
    ensures
        r@ == with_role(views_of(fields@), role, fields@.len()),
{
    let mut out: Vec<usize> = Vec::new();
    let mut i: usize = 0;
    while i < fields.len()
        invariant
            i <= fields.len(),
            out@ == with_role(views_of(fields@), role, i as nat),
        decreases fields.len() - i,
    {
        if fields[i].role.same(role) {
            out.push(i);
        }
        i = i + 1;
    }
    out
}

/// The metadata that the tokens of a type and the roles of its fields
/// give.
pub fn table_metadata(attrs: &Vec<Attribute>, descriptor: &TypeDescriptor) -> (r: Result<
    TableMetadata,
    GenerationError,
>)
    ensures
        yields(r, metadata_of(views_of(attrs@), descriptor@)),
        r matches Ok(metadata) ==> metadata@.well_formed(descriptor@.fields),
{
    assert(descriptor@.fields =~= views_of(descriptor.fields@));
    proof {
        assert(descriptor@.fields.len() == descriptor.fields.len());
        lemma_metadata_well_formed(views_of(attrs@), descriptor@);
    }
    if has_misshapen(attrs, TABLE_NAME, false) || has_misshapen(attrs, SINGLETON, true) {
        return Err(GenerationError::MalformedAttribute);
    }
    let name = match find_last_text(attrs, TABLE_NAME) {
        None => {
            return Err(GenerationError::MissingTableName);
        },
        Some(text) => text,
    };
    let primaries = positions_with_role(&descriptor.fields, FieldRole::PrimaryKey);
    let secondaries = positions_with_role(&descriptor.fields, FieldRole::SecondaryKey);
    if primaries.len() >= 2 {
        return Err(GenerationError::DuplicatePrimaryKey);
    }
    let singleton = has_attr(attrs, SINGLETON);
    if singleton && (primaries.len() > 0 || secondaries.len() > 0) {
        return Err(GenerationError::SingletonWithKeys);
    }
    let primary_key = if primaries.len() == 1 {
        Some(primaries[0])
    } else {
        None
    };
    Ok(TableMetadata { table_name: name, primary_key, secondary_keys: secondaries, singleton })
}

/// Generates the table capability of a declaration.
pub fn table(input: &TypeDeclaration) -> (r: Result<Table, GenerationError>)
    ensures
        yields(r, tabled(input@)),
        r matches Ok(table) ==> table@.well_formed(),
{
    match plan(input) {
        Err(e) => Err(e),
        Ok(plan) => match table_metadata(&input.attrs, &plan.descriptor) {
            Err(e) => Err(e),
            Ok(metadata) => Ok(Table { plan, metadata }),
        },
    }
}

/// The field at position `index` of `row`.
pub fn field_at<'a>(index: Option<usize>, row: &'a Value) -> (r: Option<&'a Value>)
    ensures
        match r {
            Some(v) => key_of(index, row@) == Some(v@),
            None => key_of(index, row@) is None,
        },
{
    match index {
        None => None,
        Some(i) => match row {
            Value::Product(fields) => {
                assert(row@ == ValueModel::Product(values_of(fields@)));
                if i < fields.len() {
                    assert(values_of(fields@)[i as int] == fields@[i as int]@);
                    Some(&fields[i])
                } else {
                    None
                }
            },
            _ => {
                assert(!(row@ is Product));
                None
            },
        },
    }
}

impl Table {
    /// The value of the primary key of `row`; `None` where the table has
    /// no primary key or the row has no such field.
    pub fn primary_key<'a>(&self, row: &'a Value) -> (r: Option<&'a Value>)
        ensures
            match r {
                Some(v) => key_of(self@.metadata.primary_key, row@) == Some(v@),
                None => key_of(self@.metadata.primary_key, row@) is None,
            },
    {
        field_at(self.metadata.primary_key, row)
    }

    /// The value of the `rank`-th secondary key of `row`, counted from
    /// zero in declared order.
    pub fn secondary_key<'a>(&self, row: &'a Value, rank: usize) -> (r: Option<&'a Value>)
        ensures
            match r {
                Some(v) => key_of(secondary_at(self@.metadata.secondary_keys, rank), row@) == Some(
                    v@,
                ),
                None => key_of(secondary_at(self@.metadata.secondary_keys, rank), row@) is None,
            },
    {
        if rank < self.metadata.secondary_keys.len() {
            field_at(Some(self.metadata.secondary_keys[rank]), row)
        } else {
            None
        }
    }
}

} // verus!
