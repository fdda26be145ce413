//! The wire format, stated over the mathematical models of types and
//! values: which values a type admits, the canonical bytes of a value,
//! their number, and what a buffer decodes to.

use vstd::prelude::*;
use crate::error::ReadError;
use crate::schema::TypeModel;
use crate::value::{Integer, ValueModel};
use crate::wire::{le_bytes, le_value, parse_varint, varint, varint_len};

verus! {

/// Whether `v` is a value of type `ty`.  The length of a string or of a
/// sequence has to fit in the 64 bits of its prefix.
pub open spec fn admits(ty: TypeModel, v: ValueModel) -> bool
    decreases v,
{
    match (ty, v) {
        (TypeModel::Bool, ValueModel::Bool(_)) => true,
        (TypeModel::Int(kind), ValueModel::Int(x)) => x.spec_kind() == kind,
        (TypeModel::VarUint, ValueModel::VarUint(_)) => true,
        (TypeModel::Str, ValueModel::Str(bytes)) => bytes.len() <= u64::MAX,
        (TypeModel::List(elem), ValueModel::List(items)) => {
            &&& items.len() <= u64::MAX
            &&& forall|i: int| 0 <= i < items.len() ==> admits(*elem, #[trigger] items[i])
        },
        (TypeModel::Optional(inner), ValueModel::Optional(content)) => match content {
            None => true,
            Some(x) => admits(*inner, *x),
        },
        (TypeModel::Product(types), ValueModel::Product(fields)) => {
            &&& types.len() == fields.len()
            &&& forall|i: int| 0 <= i < fields.len() ==> admits(types[i], #[trigger] fields[i])
        },
        (TypeModel::Sum(variants), ValueModel::Sum(index, payload)) => {
            &&& index < variants.len()
            &&& admits(variants[index as int], *payload)
        },
        _ => false,
    }
}

/// The byte of a boolean.
pub open spec fn bool_byte(b: bool) -> u8 {
    if b {
        1
    } else {
        0
    }
}

/// The canonical bytes of a value.
pub open spec fn encoding(v: ValueModel) -> Seq<u8>
    decreases v, 0nat,
{
    match v {
        ValueModel::Bool(b) => seq![bool_byte(b)],
        ValueModel::Int(x) => le_bytes(x.bits(), x.spec_kind().width()),
        ValueModel::VarUint(x) => varint(x as nat),
        ValueModel::Str(bytes) => varint(bytes.len()) + bytes,
        ValueModel::List(items) => varint(items.len()) + encoding_from(items, 0),
        ValueModel::Optional(content) => match content {
            None => seq![0u8],
            Some(x) => seq![1u8] + encoding(*x),
        },
        ValueModel::Product(fields) => encoding_from(fields, 0),
        ValueModel::Sum(index, payload) => seq![index] + encoding(*payload),
    }
}

/// The canonical bytes of the values of `values` from position `from` on,
/// one after the other.
pub open spec fn encoding_from(values: Seq<ValueModel>, from: nat) -> Seq<u8>
    decreases values, values.len() - from,
{
    if from >= values.len() {
        Seq::empty()
    } else {
        encoding(values[from as int]) + encoding_from(values, from + 1)
    }
}

/// The exact encoded length of a value: a constant for each fixed-width
/// item, prefix and contents for each variable-length one, one byte and the
/// payload for a sum, and the sum of the fields for a product.
pub open spec fn size(v: ValueModel) -> nat
    decreases v, 0nat,
{
    match v {
        ValueModel::Bool(_) => 1,
        ValueModel::Int(x) => x.spec_kind().width(),
        ValueModel::VarUint(x) => varint_len(x as nat),
        ValueModel::Str(bytes) => varint_len(bytes.len()) + bytes.len(),
        ValueModel::List(items) => varint_len(items.len()) + size_from(items, 0),
        ValueModel::Optional(content) => match content {
            None => 1,
            Some(x) => 1 + size(*x),
        },
        ValueModel::Product(fields) => size_from(fields, 0),
        ValueModel::Sum(_, payload) => 1 + size(*payload),
    }
}

/// The encoded lengths of the values of `values` from position `from` on,
/// added up.
pub open spec fn size_from(values: Seq<ValueModel>, from: nat) -> nat
    decreases values, values.len() - from,
{
    if from >= values.len() {
        0
    } else {
        size(values[from as int]) + size_from(values, from + 1)
    }
}

/// What the front of `s` decodes to as a value of type `ty`: the value and
/// the number of bytes it took, or the first error met.
///
/// A boolean or presence byte other than `1` reads as `false` or absent.
pub open spec fn parse(ty: TypeModel, s: Seq<u8>) -> Result<(ValueModel, nat), ReadError>
    decreases ty, 0nat,
{
    match ty {
        TypeModel::Bool => if s.len() < 1 {
            Err(ReadError::Underrun)
        } else {
            Ok((ValueModel::Bool(s[0] == 1), 1))
        },
        TypeModel::Int(kind) => if s.len() < kind.width() {
            Err(ReadError::Underrun)
        } else {
            Ok(
                (
                    ValueModel::Int(Integer::of_bits(kind, le_value(s.take(kind.width() as int)))),
                    kind.width(),
                ),
            )
        },
        TypeModel::VarUint => match parse_varint(s) {
            Ok((x, used)) => Ok((ValueModel::VarUint(x), used)),
            Err(e) => Err(e),
        },
        TypeModel::Str => match parse_varint(s) {
            Ok((count, used)) => if s.len() - used < count {
                Err(ReadError::Underrun)
            } else {
                Ok((ValueModel::Str(s.subrange(used as int, used + count)), used + count as nat))
            },
            Err(e) => Err(e),
        },
        TypeModel::List(elem) => match parse_varint(s) {
            Ok((count, used)) => match parse_items(*elem, count as nat, s.skip(used as int)) {
                Ok((items, more)) => Ok((ValueModel::List(items), used + more)),
                Err(e) => Err(e),
            },
            Err(e) => Err(e),
        },
        TypeModel::Optional(inner) => if s.len() < 1 {
            Err(ReadError::Underrun)
        } else if s[0] != 1 {
            Ok((ValueModel::Optional(None), 1))
        } else {
            match parse(*inner, s.skip(1)) {
                Ok((x, used)) => Ok((ValueModel::Optional(Some(Box::new(x))), 1 + used)),
                Err(e) => Err(e),
            }
        },
        TypeModel::Product(types) => match parse_fields(types, 0, s) {
            Ok((fields, used)) => Ok((ValueModel::Product(fields), used)),
            Err(e) => Err(e),
        },
        TypeModel::Sum(variants) => if s.len() < 1 {
            Err(ReadError::Underrun)
        } else if s[0] >= variants.len() {
            Err(ReadError::InvalidDiscriminant)
        } else {
            match parse(variants[s[0] as int], s.skip(1)) {
                Ok((x, used)) => Ok((ValueModel::Sum(s[0], Box::new(x)), 1 + used)),
                Err(e) => Err(e),
            }
        },
    }
}

/// Decodes `count` values of type `elem`, one after the other.
pub open spec fn parse_items(elem: TypeModel, count: nat, s: Seq<u8>) -> Result<
    (Seq<ValueModel>, nat),
    ReadError,
>
    decreases elem, count + 1,
{
    if count == 0 {
        Ok((Seq::empty(), 0))
    } else {
        match parse(elem, s) {
            Ok((first, used)) => match parse_items(elem, (count - 1) as nat, s.skip(used as int)) {
                Ok((others, more)) => Ok((seq![first] + others, used + more)),
                Err(e) => Err(e),
            },
            Err(e) => Err(e),
        }
    }
}

/// Decodes one value for each of the types of `types` from position `from`
/// on, one after the other.
pub open spec fn parse_fields(types: Seq<TypeModel>, from: nat, s: Seq<u8>) -> Result<
    (Seq<ValueModel>, nat),
    ReadError,
>
    decreases types, types.len() - from,
{
    if from >= types.len() {
        Ok((Seq::empty(), 0))
    } else {
        match parse(types[from as int], s) {
            Ok((first, used)) => match parse_fields(types, from + 1, s.skip(used as int)) {
                Ok((others, more)) => Ok((seq![first] + others, used + more)),
                Err(e) => Err(e),
            },
            Err(e) => Err(e),
        }
    }
}

} // verus!
