use iostio_core_derive::config::{extract, resolve_root_literal};
use iostio_core_derive::declaration::{AttrArg, Attribute, Body, Member, TypeDeclaration};
use iostio_core_derive::error::GenerationError;
use iostio_core_derive::plan::plan_with;
use iostio_core_derive::root::{root_path, root_path_from, RootPath};
use iostio_core_derive::schema::{
    container_type, payload_type, primitive_type, FieldRole, IntKind, Kind, TypeRef,
};
use iostio_core_derive::value::{Integer, Value};
use iostio_core_derive::{
    derive_digest, derive_num_bytes, derive_read, derive_serialize_data, derive_table,
    derive_write,
};

fn bare(name: &str) -> Attribute {
    Attribute { name: Some(name.to_string()), arg: AttrArg::Bare }
}

fn text(name: &str, value: &str) -> Attribute {
    Attribute { name: Some(name.to_string()), arg: AttrArg::Text(value.to_string()) }
}

fn other(name: &str) -> Attribute {
    Attribute { name: Some(name.to_string()), arg: AttrArg::Other }
}

fn field(name: &str, ty: TypeRef, attrs: Vec<Attribute>) -> Member {
    Member { name: name.to_string(), ty, attrs }
}

fn account(attrs: Vec<Attribute>, owner: Vec<Attribute>, balance: Vec<Attribute>) -> TypeDeclaration {
    TypeDeclaration {
        name: "Account".to_string(),
        attrs,
        body: Body::Struct(vec![
            field("owner", TypeRef::Str, owner),
            field("balance", TypeRef::Int(IntKind::U64), balance),
            field("memo", TypeRef::Optional(Box::new(TypeRef::Str)), Vec::new()),
        ]),
    }
}

fn plain() -> TypeDeclaration {
    account(Vec::new(), Vec::new(), Vec::new())
}

fn with_type_attrs(attrs: Vec<Attribute>) -> TypeDeclaration {
    account(attrs, Vec::new(), Vec::new())
}

fn variants(count: usize) -> TypeDeclaration {
    TypeDeclaration {
        name: "Many".to_string(),
        attrs: Vec::new(),
        body: Body::Enum(
            (0..count).map(|i| field(&format!("V{}", i), TypeRef::Bool, Vec::new())).collect(),
        ),
    }
}

fn path(leading_colon: bool, segments: &[&str]) -> RootPath {
    RootPath { leading_colon, segments: segments.iter().map(|s| s.to_string()).collect() }
}

#[test]
fn default_root_path_applies_without_override() {
    assert_eq!(resolve_root_literal(&Vec::new()), Ok("::eosio_core".to_string()));
    assert_eq!(root_path(&plain()), Ok(path(true, &["eosio_core"])));
    assert_eq!(derive_write(&plain()).unwrap().plan.root, path(true, &["eosio_core"]));
}

#[test]
fn override_names_the_root_path() {
    let decl = with_type_attrs(vec![text("eosio_core_root_path", "crate::codec::base")]);
    assert_eq!(root_path(&decl), Ok(path(false, &["crate", "codec", "base"])));
    assert_eq!(
        derive_read(&decl).unwrap().plan.root,
        path(false, &["crate", "codec", "base"])
    );
    let single = with_type_attrs(vec![text("eosio_core_root_path", "eosio")]);
    assert_eq!(root_path(&single), Ok(path(false, &["eosio"])));
}

#[test]
fn last_override_wins() {
    let decl = with_type_attrs(vec![
        text("eosio_core_root_path", "::first"),
        bare("derive"),
        text("eosio_core_root_path", "::second::third"),
        text("doc", "::not::this"),
    ]);
    assert_eq!(resolve_root_literal(&decl.attrs), Ok("::second::third".to_string()));
    assert_eq!(root_path(&decl), Ok(path(true, &["second", "third"])));
}

#[test]
fn override_that_is_no_string_fails() {
    for attr in vec![bare("eosio_core_root_path"), other("eosio_core_root_path")] {
        let decl = with_type_attrs(vec![text("eosio_core_root_path", "::fine"), attr]);
        assert_eq!(root_path(&decl), Err(GenerationError::MalformedAttribute));
        assert_eq!(derive_write(&decl), Err(GenerationError::MalformedAttribute));
        assert_eq!(derive_read(&decl), Err(GenerationError::MalformedAttribute));
        assert_eq!(derive_num_bytes(&decl), Err(GenerationError::MalformedAttribute));
        assert_eq!(derive_digest(&decl), Err(GenerationError::MalformedAttribute));
        assert_eq!(derive_serialize_data(&decl), Err(GenerationError::MalformedAttribute));
        assert_eq!(derive_table(&decl), Err(GenerationError::MalformedAttribute));
    }
}

#[test]
fn override_that_is_no_path_fails() {
    for literal in vec!["", "not a path!", "a::", "::", "a::<b>::c", "a b", "1abc", "a::b::"] {
        let decl = with_type_attrs(vec![text("eosio_core_root_path", literal)]);
        assert_eq!(root_path(&decl), Err(GenerationError::MalformedAttribute));
        assert_eq!(derive_write(&decl), Err(GenerationError::MalformedAttribute));
    }
}

#[test]
fn paths_with_keywords_are_module_style() {
    let decl = with_type_attrs(vec![text("eosio_core_root_path", "crate::self::super")]);
    assert_eq!(root_path(&decl), Ok(path(false, &["crate", "self", "super"])));
    let spaced = with_type_attrs(vec![text("eosio_core_root_path", " :: a :: b ")]);
    assert_eq!(root_path(&spaced), Ok(path(true, &["a", "b"])));
}

#[test]
fn token_without_a_plain_name_leaves_the_default_root_path() {
    for arg in vec![AttrArg::Bare, AttrArg::Other, AttrArg::Text("::other".to_string())] {
        let decl = with_type_attrs(vec![Attribute { name: None, arg }]);
        assert_eq!(resolve_root_literal(&decl.attrs), Ok("::eosio_core".to_string()));
        assert_eq!(root_path(&decl), Ok(path(true, &["eosio_core"])));
        assert_eq!(derive_write(&decl).unwrap().plan.root, path(true, &["eosio_core"]));
        assert!(derive_read(&decl).is_ok());
        assert!(derive_num_bytes(&decl).is_ok());
        assert!(derive_digest(&decl).is_ok());
        assert!(derive_serialize_data(&decl).is_ok());
        assert_eq!(derive_table(&decl), Err(GenerationError::MissingTableName));
    }
    let beside = with_type_attrs(vec![
        text("eosio_core_root_path", "::mine"),
        Attribute { name: None, arg: AttrArg::Bare },
    ]);
    assert_eq!(root_path(&beside), Ok(path(true, &["mine"])));
}

#[test]
fn tokens_of_other_tools_are_ignored() {
    let decl = account(
        vec![other("derive"), text("doc", "An account."), other("serde")],
        vec![other("serde"), Attribute { name: None, arg: AttrArg::Other }],
        vec![text("doc", "In the smallest unit.")],
    );
    let plan = derive_write(&decl).unwrap().plan;
    assert_eq!(plan.root, path(true, &["eosio_core"]));
    assert_eq!(plan.descriptor.fields.len(), 3);
}

#[test]
fn outcome_of_parsing_decides_the_root() {
    assert_eq!(root_path_from(None), Err(GenerationError::MalformedAttribute));
    assert_eq!(root_path_from(Some(path(true, &["a"]))), Ok(path(true, &["a"])));
    assert_eq!(plan_with(&plain(), None), Err(GenerationError::MalformedAttribute));
    let plan = plan_with(&plain(), Some(path(false, &["x", "y"]))).unwrap();
    assert_eq!(plan.root, path(false, &["x", "y"]));
    assert_eq!(plan.descriptor.name, "Account");
    assert_eq!(
        plan_with(&variants(0), Some(path(false, &["x"]))),
        Err(GenerationError::EmptySum)
    );
    assert_eq!(plan_with(&variants(0), None), Err(GenerationError::MalformedAttribute));
}

#[test]
fn descriptor_keeps_the_declared_order() {
    let decl = account(Vec::new(), vec![bare("primary")], vec![bare("secondary")]);
    let descriptor = extract(&decl).unwrap();
    assert_eq!(descriptor.name, "Account");
    assert_eq!(descriptor.kind, Kind::Product);
    assert!(descriptor.variants.is_empty());
    let names: Vec<&str> = descriptor.fields.iter().map(|f| f.name.as_str()).collect();
    assert_eq!(names, vec!["owner", "balance", "memo"]);
    let roles: Vec<FieldRole> = descriptor.fields.iter().map(|f| f.role).collect();
    assert_eq!(roles, vec![FieldRole::PrimaryKey, FieldRole::SecondaryKey, FieldRole::Plain]);
    assert_eq!(descriptor.fields[0].ty, TypeRef::Str);
    assert_eq!(descriptor.fields[1].ty, TypeRef::Int(IntKind::U64));
    assert_eq!(
        descriptor.type_ref(),
        TypeRef::Product(vec![
            TypeRef::Str,
            TypeRef::Int(IntKind::U64),
            TypeRef::Optional(Box::new(TypeRef::Str)),
        ])
    );
    assert_eq!(derive_write(&decl).unwrap().plan.ty, descriptor.type_ref());
}

#[test]
fn variants_are_numbered_by_position() {
    let descriptor = extract(&variants(3)).unwrap();
    assert_eq!(descriptor.kind, Kind::Sum);
    assert!(descriptor.fields.is_empty());
    let numbered: Vec<(&str, u8)> =
        descriptor.variants.iter().map(|v| (v.name.as_str(), v.discriminant)).collect();
    assert_eq!(numbered, vec![("V0", 0), ("V1", 1), ("V2", 2)]);
    assert_eq!(
        descriptor.type_ref(),
        TypeRef::Sum(vec![TypeRef::Bool, TypeRef::Bool, TypeRef::Bool])
    );
    let most = extract(&variants(256)).unwrap();
    assert_eq!(most.variants[255].discriminant, 255);
}

#[test]
fn field_marked_both_ways_is_the_primary_key() {
    let decl = account(Vec::new(), vec![bare("secondary"), bare("primary")], Vec::new());
    assert_eq!(extract(&decl).unwrap().fields[0].role, FieldRole::PrimaryKey);
}

#[test]
fn sum_without_variants_fails() {
    assert_eq!(extract(&variants(0)), Err(GenerationError::EmptySum));
    assert_eq!(derive_write(&variants(0)), Err(GenerationError::EmptySum));
    assert_eq!(derive_read(&variants(0)), Err(GenerationError::EmptySum));
    assert_eq!(derive_num_bytes(&variants(0)), Err(GenerationError::EmptySum));
    assert_eq!(derive_digest(&variants(0)), Err(GenerationError::EmptySum));
    assert_eq!(derive_serialize_data(&variants(0)), Err(GenerationError::EmptySum));
    assert_eq!(derive_table(&variants(0)), Err(GenerationError::EmptySum));
    assert!(derive_write(&variants(1)).is_ok());
}

#[test]
fn sum_with_more_variants_than_a_byte_tells_apart_fails() {
    assert_eq!(derive_write(&variants(257)), Err(GenerationError::TooManyVariants));
    assert!(derive_write(&variants(256)).is_ok());
}

#[test]
fn token_in_a_place_without_meaning_fails() {
    let on_type = with_type_attrs(vec![bare("primary")]);
    assert_eq!(derive_write(&on_type), Err(GenerationError::MisplacedAttribute));
    let on_type = with_type_attrs(vec![bare("secondary")]);
    assert_eq!(derive_table(&on_type), Err(GenerationError::MisplacedAttribute));
    for name in vec!["eosio_core_root_path", "table_name", "singleton"] {
        let on_field = account(Vec::new(), Vec::new(), vec![text(name, "x")]);
        assert_eq!(derive_read(&on_field), Err(GenerationError::MisplacedAttribute));
    }
    for name in vec!["eosio_core_root_path", "table_name", "singleton", "primary", "secondary"] {
        let mut decl = variants(2);
        if let Body::Enum(members) = &mut decl.body {
            members[1].attrs.push(bare(name));
        }
        assert_eq!(derive_num_bytes(&decl), Err(GenerationError::MisplacedAttribute));
    }
    let mut fine = variants(2);
    if let Body::Enum(members) = &mut fine.body {
        members[1].attrs.push(bare("default"));
    }
    assert!(derive_num_bytes(&fine).is_ok());
}

#[test]
fn key_marker_with_an_argument_fails() {
    let decl = account(Vec::new(), vec![text("primary", "yes")], Vec::new());
    assert_eq!(derive_write(&decl), Err(GenerationError::MalformedAttribute));
    let decl = account(Vec::new(), Vec::new(), vec![other("secondary")]);
    assert_eq!(derive_table(&decl), Err(GenerationError::MalformedAttribute));
}

#[test]
fn table_metadata_of_a_keyed_table() {
    let decl = account(
        vec![text("table_name", "accounts")],
        vec![bare("primary")],
        vec![bare("secondary")],
    );
    let table = derive_table(&decl).unwrap();
    assert_eq!(table.metadata.table_name, "accounts");
    assert_eq!(table.metadata.primary_key, Some(0));
    assert_eq!(table.metadata.secondary_keys, vec![1]);
    assert!(!table.metadata.singleton);
    assert_eq!(table.plan.root, path(true, &["eosio_core"]));
    let row = Value::Product(vec![
        Value::text("alice"),
        Value::Int(Integer::U64(12)),
        Value::Optional(None),
    ]);
    assert_eq!(table.primary_key(&row), Some(&Value::text("alice")));
    assert_eq!(table.secondary_key(&row, 0), Some(&Value::Int(Integer::U64(12))));
    assert_eq!(table.secondary_key(&row, 1), None);
    assert_eq!(table.primary_key(&Value::Bool(true)), None);
    assert_eq!(table.primary_key(&Value::Product(Vec::new())), None);
}

#[test]
fn secondary_keys_keep_the_declared_order() {
    let decl = TypeDeclaration {
        name: "Row".to_string(),
        attrs: vec![text("table_name", "rows")],
        body: Body::Struct(vec![
            field("a", TypeRef::Bool, vec![bare("secondary")]),
            field("b", TypeRef::Bool, Vec::new()),
            field("c", TypeRef::Bool, vec![bare("primary")]),
            field("d", TypeRef::Bool, vec![bare("secondary")]),
        ]),
    };
    let table = derive_table(&decl).unwrap();
    assert_eq!(table.metadata.primary_key, Some(2));
    assert_eq!(table.metadata.secondary_keys, vec![0, 3]);
    let row = Value::Product(vec![
        Value::Bool(true),
        Value::Bool(false),
        Value::Bool(false),
        Value::Bool(true),
    ]);
    assert_eq!(table.primary_key(&row), Some(&Value::Bool(false)));
    assert_eq!(table.secondary_key(&row, 1), Some(&Value::Bool(true)));
}

#[test]
fn table_without_keys_and_singleton_table() {
    let keyless = derive_table(&with_type_attrs(vec![text("table_name", "plain")])).unwrap();
    assert_eq!(keyless.metadata.primary_key, None);
    assert!(keyless.metadata.secondary_keys.is_empty());
    assert!(!keyless.metadata.singleton);
    let single =
        derive_table(&with_type_attrs(vec![bare("singleton"), text("table_name", "config")]))
            .unwrap();
    assert!(single.metadata.singleton);
    assert_eq!(single.metadata.table_name, "config");
    assert_eq!(single.metadata.primary_key, None);
    assert!(single.metadata.secondary_keys.is_empty());
}

#[test]
fn table_without_a_name_fails() {
    assert_eq!(derive_table(&plain()), Err(GenerationError::MissingTableName));
    let decl = account(vec![bare("singleton")], Vec::new(), Vec::new());
    assert_eq!(derive_table(&decl), Err(GenerationError::MissingTableName));
    assert!(derive_write(&plain()).is_ok());
}

#[test]
fn table_name_of_another_shape_fails() {
    for attr in vec![bare("table_name"), other("table_name")] {
        assert_eq!(
            derive_table(&with_type_attrs(vec![attr])),
            Err(GenerationError::MalformedAttribute)
        );
    }
    let decl = with_type_attrs(vec![text("table_name", "t"), text("singleton", "yes")]);
    assert_eq!(derive_table(&decl), Err(GenerationError::MalformedAttribute));
    assert!(derive_write(&decl).is_ok());
}

#[test]
fn last_table_name_counts() {
    let decl = with_type_attrs(vec![text("table_name", "old"), text("table_name", "new")]);
    assert_eq!(derive_table(&decl).unwrap().metadata.table_name, "new");
}

#[test]
fn two_primary_keys_fail() {
    let decl = account(
        vec![text("table_name", "accounts")],
        vec![bare("primary")],
        vec![bare("primary")],
    );
    assert_eq!(derive_table(&decl), Err(GenerationError::DuplicatePrimaryKey));
    assert!(derive_write(&decl).is_ok());
}

#[test]
fn singleton_with_a_key_fails() {
    let with_primary = account(
        vec![text("table_name", "config"), bare("singleton")],
        vec![bare("primary")],
        Vec::new(),
    );
    assert_eq!(derive_table(&with_primary), Err(GenerationError::SingletonWithKeys));
    let with_secondary = account(
        vec![bare("singleton"), text("table_name", "config")],
        Vec::new(),
        vec![bare("secondary")],
    );
    assert_eq!(derive_table(&with_secondary), Err(GenerationError::SingletonWithKeys));
    let with_two = account(
        vec![bare("singleton"), text("table_name", "config")],
        vec![bare("primary")],
        vec![bare("primary")],
    );
    assert_eq!(derive_table(&with_two), Err(GenerationError::DuplicatePrimaryKey));
}

#[test]
fn table_of_a_sum_has_no_keys() {
    let mut decl = variants(2);
    decl.attrs.push(text("table_name", "choices"));
    let table = derive_table(&decl).unwrap();
    assert_eq!(table.metadata.primary_key, None);
    assert!(table.metadata.secondary_keys.is_empty());
}

#[test]
fn names_of_the_primitive_types() {
    assert_eq!(primitive_type("bool"), Some(TypeRef::Bool));
    assert_eq!(primitive_type("u8"), Some(TypeRef::Int(IntKind::U8)));
    assert_eq!(primitive_type("u16"), Some(TypeRef::Int(IntKind::U16)));
    assert_eq!(primitive_type("u32"), Some(TypeRef::Int(IntKind::U32)));
    assert_eq!(primitive_type("u64"), Some(TypeRef::Int(IntKind::U64)));
    assert_eq!(primitive_type("i8"), Some(TypeRef::Int(IntKind::I8)));
    assert_eq!(primitive_type("i16"), Some(TypeRef::Int(IntKind::I16)));
    assert_eq!(primitive_type("i32"), Some(TypeRef::Int(IntKind::I32)));
    assert_eq!(primitive_type("i64"), Some(TypeRef::Int(IntKind::I64)));
    assert_eq!(primitive_type("String"), Some(TypeRef::Str));
    assert_eq!(primitive_type("VarUint"), Some(TypeRef::VarUint));
    assert_eq!(primitive_type("Account"), None);
    assert_eq!(primitive_type(""), None);
}

#[test]
fn copies_are_equal() {
    let decl = account(vec![text("table_name", "accounts")], vec![bare("primary")], Vec::new());
    let table = derive_table(&decl).unwrap();
    assert_eq!(table.clone(), table);
    assert_eq!(table.plan.ty.clone(), table.plan.ty);
}

#[test]
fn names_of_the_containers() {
    assert_eq!(
        container_type("Vec", TypeRef::Bool),
        Some(TypeRef::List(Box::new(TypeRef::Bool)))
    );
    assert_eq!(
        container_type("Option", TypeRef::Str),
        Some(TypeRef::Optional(Box::new(TypeRef::Str)))
    );
    assert_eq!(container_type("Box", TypeRef::Str), None);
    assert_eq!(payload_type(Vec::new()), TypeRef::Product(Vec::new()));
    assert_eq!(payload_type(vec![TypeRef::Bool]), TypeRef::Bool);
    assert_eq!(
        payload_type(vec![TypeRef::Bool, TypeRef::Str]),
        TypeRef::Product(vec![TypeRef::Bool, TypeRef::Str])
    );
}

#[test]
fn sum_inside_a_member_type_is_held_to_the_same_bounds() {
    let wraps: Vec<fn(TypeRef) -> TypeRef> = vec![
        |t| t,
        |t| TypeRef::List(Box::new(t)),
        |t| TypeRef::Optional(Box::new(t)),
        |t| TypeRef::Product(vec![TypeRef::Bool, t]),
        |t| TypeRef::Sum(vec![TypeRef::Bool, TypeRef::List(Box::new(t))]),
    ];
    for wrap in wraps {
        let empty = account(Vec::new(), Vec::new(), Vec::new());
        let mut decl = empty.clone();
        if let Body::Struct(fields) = &mut decl.body {
            fields[2].ty = wrap(TypeRef::Sum(Vec::new()));
        }
        assert_eq!(derive_write(&decl), Err(GenerationError::EmptySum));
        let mut decl = empty.clone();
        if let Body::Struct(fields) = &mut decl.body {
            fields[2].ty = wrap(TypeRef::Sum(vec![TypeRef::Bool; 257]));
        }
        assert_eq!(derive_read(&decl), Err(GenerationError::TooManyVariants));
        let mut decl = empty.clone();
        if let Body::Struct(fields) = &mut decl.body {
            fields[2].ty = wrap(TypeRef::Sum(vec![TypeRef::Bool; 256]));
        }
        assert!(derive_read(&decl).is_ok());
        let mut decl = variants(2);
        if let Body::Enum(members) = &mut decl.body {
            members[1].ty = wrap(TypeRef::Sum(Vec::new()));
        }
        assert_eq!(derive_num_bytes(&decl), Err(GenerationError::EmptySum));
    }
}

#[test]
fn first_failure_in_the_order_of_the_rules() {
    let mut decl = variants(0);
    decl.attrs.push(bare("primary"));
    assert_eq!(derive_write(&decl), Err(GenerationError::MisplacedAttribute));
    decl.attrs.push(bare("eosio_core_root_path"));
    assert_eq!(derive_write(&decl), Err(GenerationError::MalformedAttribute));
    let mut both = account(Vec::new(), vec![text("primary", "x")], Vec::new());
    if let Body::Struct(fields) = &mut both.body {
        fields[2].ty = TypeRef::Sum(Vec::new());
    }
    assert_eq!(derive_write(&both), Err(GenerationError::MalformedAttribute));
    let mut sums = plain();
    if let Body::Struct(fields) = &mut sums.body {
        fields[0].ty = TypeRef::Sum(vec![TypeRef::Bool; 300]);
        fields[1].ty = TypeRef::Sum(Vec::new());
    }
    assert_eq!(derive_write(&sums), Err(GenerationError::EmptySum));
}
