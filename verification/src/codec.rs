//! The executable codec: the functions that every generated capability
//! runs, each proved against the wire format.

use vstd::prelude::*;
use vstd::slice::{slice_subrange, slice_to_vec};
use crate::error::ReadError;
use crate::format::{
    admits, bool_byte, encoding, encoding_from, parse, parse_fields, parse_items, size, size_from,
};
use crate::schema::{models_of, IntKind, TypeModel, TypeRef};
use crate::value::{values_of, Integer, Value, ValueModel};
use crate::laws::lemma_size_agreement;
use crate::wire::{
    get_le, get_varint, lemma_le_value_bound, lemma_varint_len, put_bytes, put_le, put_varint,
    varint, varint_size,
};

verus! {

/// Whether `v` is a value of type `ty`.
pub fn value_admitted(ty: &TypeRef, v: &Value) -> (r: bool)
    ensures
        r == admits(ty@, v@),
    decreases v,
{
    match ty {
        TypeRef::Bool => match v {
            Value::Bool(_) => true,
            _ => false,
        },
        TypeRef::Int(kind) => match v {
            Value::Int(x) => x.kind().same(*kind),
            _ => false,
        },
        TypeRef::VarUint => match v {
            Value::VarUint(_) => true,
            _ => false,
        },
        TypeRef::Str => match v {
            Value::Str(bytes) => bytes.len() <= usize::MAX,
            _ => false,
        },
        TypeRef::List(elem) => match v {
            Value::List(items) => items.len() <= usize::MAX && items_admitted(elem, items),
            _ => false,
        },
        TypeRef::Optional(inner) => match v {
            Value::Optional(content) => match content {
                None => true,
                Some(x) => value_admitted(inner, x),
            },
            _ => false,
        },
        TypeRef::Product(types) => match v {
            Value::Product(fields) => {
                assert(v@ == ValueModel::Product(values_of(fields@)));
                assert(ty@ == TypeModel::Product(models_of(types@)));
                types.len() == fields.len() && fields_admitted(types, fields)
            },
            _ => false,
        },
        TypeRef::Sum(variants) => match v {
            Value::Sum(index, payload) => {
                let at: usize = *index as usize;
                assert(v@ == ValueModel::Sum(*index, Box::new(payload@)));
                assert(ty@ == TypeModel::Sum(models_of(variants@)));
                at < variants.len() && value_admitted(&variants[at], payload)
            },
            _ => false,
        },
    }
}

/// Whether every value of `items` is a value of type `elem`.
pub fn items_admitted(elem: &TypeRef, items: &Vec<Value>) -> (r: bool)
    ensures
        r == (forall|i: int|
            0 <= i < items@.len() ==> admits(elem@, #[trigger] values_of(items@)[i])),
    decreases items,
{
    let mut i: usize = 0;
    while i < items.len()
        invariant
            i <= items.len(),
            forall|j: int| 0 <= j < i ==> admits(elem@, #[trigger] values_of(items@)[j]),
        decreases items.len() - i,
    {
        if !value_admitted(elem, &items[i]) {
            assert(!admits(elem@, values_of(items@)[i as int]));
            return false;
        }
        i = i + 1;
    }
    true
}

/// Whether each value of `fields` is a value of the type at its position
/// in `types`.
pub fn fields_admitted(types: &Vec<TypeRef>, fields: &Vec<Value>) -> (r: bool)
    requires
        types@.len() == fields@.len(),
    ensures
        r == (forall|i: int|
            0 <= i < fields@.len() ==> admits(
                models_of(types@)[i],
                #[trigger] values_of(fields@)[i],
            )),
    decreases fields,
{
    let mut i: usize = 0;
    while i < fields.len()
        invariant
            i <= fields.len(),
            types@.len() == fields@.len(),
            forall|j: int|
                0 <= j < i ==> admits(models_of(types@)[j], #[trigger] values_of(fields@)[j]),
        decreases fields.len() - i,
    {
        if !value_admitted(&types[i], &fields[i]) {
            assert(!admits(models_of(types@)[i as int], values_of(fields@)[i as int]));
            return false;
        }
        i = i + 1;
    }
    true
}

/// Appends the canonical bytes of `v`.  The buffer must have room for
/// them below the largest length that a buffer can have.
pub fn encode(v: &Value, out: &mut Vec<u8>)
    requires
        old(out)@.len() + size(v@) <= usize::MAX,
    ensures
        final(out)@ == old(out)@ + encoding(v@),
    decreases v,
{
    let ghost start = out@;
    match v {
        Value::Bool(b) => {
            out.push(if *b { 1 } else { 0 });
            assert(out@ =~= start + seq![bool_byte(*b)]);
        },
        Value::Int(x) => {
            put_le(out, x.to_bits(), x.kind().byte_width());
        },
        Value::VarUint(x) => {
            put_varint(out, *x);
        },
        Value::Str(bytes) => {
            proof {
                lemma_varint_len(bytes@.len());
            }
            put_varint(out, bytes.len() as u64);
            put_bytes(out, bytes);
            assert(out@ =~= start + (varint(bytes@.len()) + bytes@));
        },
        Value::List(items) => {
            proof {
                lemma_varint_len(items@.len());
                assert(v@ == ValueModel::List(values_of(items@)));
                assert(values_of(items@).len() == items@.len());
            }
            put_varint(out, items.len() as u64);
            encode_all(items, out);
            assert(out@ =~= start + (varint(items@.len()) + encoding_from(values_of(items@), 0)));
        },
        Value::Optional(content) => match content {
            None => {
                out.push(0);
                assert(out@ =~= start + seq![0u8]);
            },
            Some(x) => {
                out.push(1);
                encode(x, out);
                assert(out@ =~= start + (seq![1u8] + encoding(x@)));
            },
        },
        Value::Product(fields) => {
            encode_all(fields, out);
        },
        Value::Sum(index, payload) => {
            out.push(*index);
            encode(payload, out);
            assert(out@ =~= start + (seq![*index] + encoding(payload@)));
        },
    }
}

/// Appends the canonical bytes of each value of `values`, in order.  The
/// buffer must have room for them.
pub fn encode_all(values: &Vec<Value>, out: &mut Vec<u8>)
    requires
        old(out)@.len() + size_from(values_of(values@), 0) <= usize::MAX,
    ensures
        final(out)@ == old(out)@ + encoding_from(values_of(values@), 0),
    decreases values,
{
    let ghost start = out@;
    let ghost models = values_of(values@);
    let mut i: usize = 0;
    assert(start + encoding_from(models, 0) =~= out@ + encoding_from(models, 0));
    while i < values.len()
        invariant
            i <= values.len(),
            models == values_of(values@),
            start + encoding_from(models, 0) == out@ + encoding_from(models, i as nat),
            out@.len() + size_from(models, i as nat) <= usize::MAX,
        decreases values.len() - i,
    {
        let ghost before = out@;
        proof {
            lemma_size_agreement(models[i as int]);
        }
        encode(&values[i], out);
        proof {
            let here = encoding(models[i as int]);
            let tail = encoding_from(models, (i + 1) as nat);
            assert(before + (here + tail) =~= (before + here) + tail);
        }
        i = i + 1;
    }
    assert(out@ + encoding_from(models, values.len() as nat) =~= out@);
}

/// The exact encoded length of `v`, or `None` where it does not fit in
/// `usize`.
pub fn encoded_size(v: &Value) -> (r: Option<usize>)
    ensures
        match r {
            Some(n) => n == size(v@),
            None => size(v@) > usize::MAX,
        },
    decreases v,
{
    match v {
        Value::Bool(_) => Some(1),
        Value::Int(x) => Some(x.kind().byte_width()),
        Value::VarUint(x) => Some(varint_size(*x)),
        Value::Str(bytes) => varint_size(bytes.len() as u64).checked_add(bytes.len()),
        Value::List(items) => match encoded_size_all(items) {
            None => None,
            Some(n) => varint_size(items.len() as u64).checked_add(n),
        },
        Value::Optional(content) => match content {
            None => Some(1),
            Some(x) => match encoded_size(x) {
                None => None,
                Some(n) => n.checked_add(1),
            },
        },
        Value::Product(fields) => encoded_size_all(fields),
        Value::Sum(_, payload) => match encoded_size(payload) {
            None => None,
            Some(n) => n.checked_add(1),
        },
    }
}

/// The encoded lengths of the values of `values` added up, or `None` where
/// the sum does not fit in `usize`.
pub fn encoded_size_all(values: &Vec<Value>) -> (r: Option<usize>)
    ensures
        match r {
            Some(n) => n == size_from(values_of(values@), 0),
            None => size_from(values_of(values@), 0) > usize::MAX,
        },
    decreases values,
{
    let ghost models = values_of(values@);
    let mut total: usize = 0;
    let mut i: usize = 0;
    while i < values.len()
        invariant
            i <= values.len(),
            models == values_of(values@),
            size_from(models, 0) == total + size_from(models, i as nat),
        decreases values.len() - i,
    {
        match encoded_size(&values[i]) {
            None => {
                return None;
            },
            Some(n) => match total.checked_add(n) {
                None => {
                    return None;
                },
                Some(sum) => {
                    total = sum;
                },
            },
        }
        i = i + 1;
    }
    Some(total)
}

/// Whether a read that started at `start` gave `r` and left the cursor at
/// `end` as `expected` asks: on success the decoded value and the cursor
/// moved past its bytes; on failure the same error, the cursor not moved
/// back.
pub open spec fn reads_as(
    expected: Result<(ValueModel, nat), ReadError>,
    start: usize,
    r: Result<Value, ReadError>,
    end: usize,
) -> bool {
    match expected {
        Ok((v, used)) => r is Ok && r->Ok_0@ == v && end == start + used,
        Err(e) => r == Err::<Value, ReadError>(e) && start <= end,
    }
}

/// As [`reads_as`], for a row of values.
pub open spec fn read_all_as(
    expected: Result<(Seq<ValueModel>, nat), ReadError>,
    start: usize,
    r: Result<Vec<Value>, ReadError>,
    end: usize,
) -> bool {
    match expected {
        Ok((values, used)) => r is Ok && values_of(r->Ok_0@) == values && end == start + used,
        Err(e) => r == Err::<Vec<Value>, ReadError>(e) && start <= end,
    }
}

/// The values decoded so far, then what the rest of the buffer gives.
pub open spec fn after_decoded(
    done: Seq<ValueModel>,
    used: nat,
    rest: Result<(Seq<ValueModel>, nat), ReadError>,
) -> Result<(Seq<ValueModel>, nat), ReadError> {
    match rest {
        Ok((more, n)) => Ok((done + more, used + n)),
        Err(e) => Err(e),
    }
}

/// Decodes a value of type `ty` at the cursor and moves the cursor past it.
pub fn decode(ty: &TypeRef, bytes: &[u8], pos: &mut usize) -> (r: Result<Value, ReadError>)
    requires
        *old(pos) <= bytes@.len(),
    ensures
        reads_as(parse(ty@, bytes@.skip(*old(pos) as int)), *old(pos), r, *final(pos)),
        *final(pos) <= bytes@.len(),
    decreases ty, 0nat,
{
    match ty {
        TypeRef::Bool => decode_bool(bytes, pos),
        TypeRef::Int(kind) => decode_int(*kind, bytes, pos),
        TypeRef::VarUint => decode_varuint(bytes, pos),
        TypeRef::Str => decode_str(bytes, pos),
        TypeRef::List(elem) => decode_list(elem, bytes, pos),
        TypeRef::Optional(inner) => decode_optional(inner, bytes, pos),
        TypeRef::Product(types) => match decode_fields(types, bytes, pos) {
            Err(e) => Err(e),
            Ok(fields) => Ok(Value::Product(fields)),
        },
        TypeRef::Sum(variants) => decode_sum(variants, bytes, pos),
    }
}

/// Decodes a boolean.
pub fn decode_bool(bytes: &[u8], pos: &mut usize) -> (r: Result<Value, ReadError>)
    requires
        *old(pos) <= bytes@.len(),
    ensures
        reads_as(parse(TypeModel::Bool, bytes@.skip(*old(pos) as int)), *old(pos), r, *final(pos)),
        *final(pos) <= bytes@.len(),
{
    let start: usize = *pos;
    if start >= bytes.len() {
        return Err(ReadError::Underrun);
    }
    let b: u8 = bytes[start];
    assert(bytes@.skip(start as int)[0] == b);
    *pos = start + 1;
    Ok(Value::Bool(b == 1))
}

/// Decodes a fixed-width integer of kind `kind`.
pub fn decode_int(kind: IntKind, bytes: &[u8], pos: &mut usize) -> (r: Result<Value, ReadError>)
    requires
        *old(pos) <= bytes@.len(),
    ensures
        reads_as(
            parse(TypeModel::Int(kind), bytes@.skip(*old(pos) as int)),
            *old(pos),
            r,
            *final(pos),
        ),
        *final(pos) <= bytes@.len(),
{
    let start: usize = *pos;
    let w: usize = kind.byte_width();
    if bytes.len() - start < w {
        return Err(ReadError::Underrun);
    }
    let raw: u64 = get_le(bytes, start, w);
    proof {
        lemma_le_value_bound(bytes@.subrange(start as int, start + w));
        assert(bytes@.skip(start as int).take(w as int) =~= bytes@.subrange(
            start as int,
            start + w,
        ));
    }
    *pos = start + w;
    Ok(Value::Int(Integer::from_bits(kind, raw)))
}

/// Decodes an unsigned integer in variable-length form.
pub fn decode_varuint(bytes: &[u8], pos: &mut usize) -> (r: Result<Value, ReadError>)
    requires
        *old(pos) <= bytes@.len(),
    ensures
        reads_as(
            parse(TypeModel::VarUint, bytes@.skip(*old(pos) as int)),
            *old(pos),
            r,
            *final(pos),
        ),
        *final(pos) <= bytes@.len(),
{
    match get_varint(bytes, pos) {
        Ok(x) => Ok(Value::VarUint(x)),
        Err(e) => Err(e),
    }
}

/// Decodes a string: its byte count, then that many bytes.
pub fn decode_str(bytes: &[u8], pos: &mut usize) -> (r: Result<Value, ReadError>)
    requires
        *old(pos) <= bytes@.len(),
    ensures
        reads_as(parse(TypeModel::Str, bytes@.skip(*old(pos) as int)), *old(pos), r, *final(pos)),
        *final(pos) <= bytes@.len(),
{
    let ghost start = *pos;
    let ghost s = bytes@.skip(start as int);
    match get_varint(bytes, pos) {
        Err(e) => Err(e),
        Ok(count) => {
            let at: usize = *pos;
            if count > (bytes.len() - at) as u64 {
                return Err(ReadError::Underrun);
            }
            let n: usize = count as usize;
            let content = slice_to_vec(slice_subrange(bytes, at, at + n));
            assert(content@ =~= s.subrange(at - start, at - start + n));
            *pos = at + n;
            Ok(Value::Str(content))
        },
    }
}

/// Decodes a sequence: its element count, then that many elements of type
/// `elem`.
pub fn decode_list(elem: &TypeRef, bytes: &[u8], pos: &mut usize) -> (r: Result<
    Value,
    ReadError,
>)
    requires
        *old(pos) <= bytes@.len(),
    ensures
        reads_as(
            parse(TypeModel::List(Box::new(elem@)), bytes@.skip(*old(pos) as int)),
            *old(pos),
            r,
            *final(pos),
        ),
        *final(pos) <= bytes@.len(),
    decreases elem, 2nat,
{
    let ghost start = *pos;
    let ghost s = bytes@.skip(start as int);
    match get_varint(bytes, pos) {
        Err(e) => Err(e),
        Ok(count) => {
            assert(s.skip(*pos - start) =~= bytes@.skip(*pos as int));
            match decode_items(elem, count, bytes, pos) {
                Err(e) => Err(e),
                Ok(items) => Ok(Value::List(items)),
            }
        },
    }
}

/// Decodes an optional value: a presence byte, then the value of type
/// `inner` if the byte is `1`.
pub fn decode_optional(inner: &TypeRef, bytes: &[u8], pos: &mut usize) -> (r: Result<
    Value,
    ReadError,
>)
    requires
        *old(pos) <= bytes@.len(),
    ensures
        reads_as(
            parse(TypeModel::Optional(Box::new(inner@)), bytes@.skip(*old(pos) as int)),
            *old(pos),
            r,
            *final(pos),
        ),
        *final(pos) <= bytes@.len(),
    decreases inner, 1nat,
{
    let start: usize = *pos;
    let ghost s = bytes@.skip(start as int);
    if start >= bytes.len() {
        return Err(ReadError::Underrun);
    }
    let b: u8 = bytes[start];
    assert(s[0] == b);
    *pos = start + 1;
    if b != 1 {
        return Ok(Value::Optional(None));
    }
    assert(s.skip(1) =~= bytes@.skip(start + 1));
    match decode(inner, bytes, pos) {
        Err(e) => Err(e),
        Ok(x) => Ok(Value::Optional(Some(Box::new(x)))),
    }
}

/// Decodes a value of a sum: the discriminant byte, then the payload of the
/// variant at that position in `variants`.
pub fn decode_sum(variants: &Vec<TypeRef>, bytes: &[u8], pos: &mut usize) -> (r: Result<
    Value,
    ReadError,
>)
    requires
        *old(pos) <= bytes@.len(),
    ensures
        reads_as(
            parse(TypeModel::Sum(models_of(variants@)), bytes@.skip(*old(pos) as int)),
            *old(pos),
            r,
            *final(pos),
        ),
        *final(pos) <= bytes@.len(),
    decreases variants, 1nat,
{
    let start: usize = *pos;
    let ghost s = bytes@.skip(start as int);
    if start >= bytes.len() {
        return Err(ReadError::Underrun);
    }
    let index: u8 = bytes[start];
    assert(s[0] == index);
    if index as usize >= variants.len() {
        return Err(ReadError::InvalidDiscriminant);
    }
    *pos = start + 1;
    assert(s.skip(1) =~= bytes@.skip(start + 1));
    assert(models_of(variants@)[index as int] == variants@[index as int]@);
    match decode(&variants[index as usize], bytes, pos) {
        Err(e) => Err(e),
        Ok(x) => Ok(Value::Sum(index, Box::new(x))),
    }
}

/// Decodes `count` values of type `elem`, one after the other.
pub fn decode_items(elem: &TypeRef, count: u64, bytes: &[u8], pos: &mut usize) -> (r: Result<
    Vec<Value>,
    ReadError,
>)
    requires
        *old(pos) <= bytes@.len(),
    ensures
        read_all_as(
            parse_items(elem@, count as nat, bytes@.skip(*old(pos) as int)),
            *old(pos),
            r,
            *final(pos),
        ),
        *final(pos) <= bytes@.len(),
    decreases elem, 1nat,
{
    let ghost start = *pos;
    let ghost input = bytes@.skip(start as int);
    let mut items: Vec<Value> = Vec::new();
    let mut i: u64 = 0;
    proof {
        match parse_items(elem@, count as nat, input) {
            Ok((more, n)) => {
                assert(values_of(items@) + more =~= more);
            },
            Err(_) => {},
        }
    }
    while i < count
        invariant
            i <= count,
            start == *old(pos),
            start <= *pos <= bytes@.len(),
            input == bytes@.skip(start as int),
            parse_items(elem@, count as nat, input) == after_decoded(
                values_of(items@),
                (*pos - start) as nat,
                parse_items(elem@, (count - i) as nat, bytes@.skip(*pos as int)),
            ),
        decreases count - i,
    {
        let ghost here = *pos;
        let ghost done = values_of(items@);
        match decode(elem, bytes, pos) {
            Err(e) => {
                return Err(e);
            },
            Ok(v) => {
                proof {
                    let s = bytes@.skip(here as int);
                    let used = (*pos - here) as nat;
                    assert(s.skip(used as int) =~= bytes@.skip(*pos as int));
                    let rest = parse_items(
                        elem@,
                        (count - i - 1) as nat,
                        bytes@.skip(*pos as int),
                    );
                    match rest {
                        Ok((others, more)) => {
                            assert(done + (seq![v@] + others) =~= done.push(v@) + others);
                        },
                        Err(_) => {},
                    }
                    assert(values_of(items@.push(v)) =~= done.push(v@));
                }
                items.push(v);
            },
        }
        i = i + 1;
    }
    assert(values_of(items@) + Seq::<ValueModel>::empty() =~= values_of(items@));
    Ok(items)
}

/// Decodes one value for each type of `types`, one after the other.
pub fn decode_fields(types: &Vec<TypeRef>, bytes: &[u8], pos: &mut usize) -> (r: Result<
    Vec<Value>,
    ReadError,
>)
    requires
        *old(pos) <= bytes@.len(),
    ensures
        read_all_as(
            parse_fields(models_of(types@), 0, bytes@.skip(*old(pos) as int)),
            *old(pos),
            r,
            *final(pos),
        ),
        *final(pos) <= bytes@.len(),
    decreases types, 1nat,
{
    let ghost start = *pos;
    let ghost input = bytes@.skip(start as int);
    let ghost models = models_of(types@);
    let mut fields: Vec<Value> = Vec::new();
    let mut i: usize = 0;
    proof {
        match parse_fields(models, 0, input) {
            Ok((more, n)) => {
                assert(values_of(fields@) + more =~= more);
            },
            Err(_) => {},
        }
    }
    while i < types.len()
        invariant
            i <= types.len(),
            start == *old(pos),
            start <= *pos <= bytes@.len(),
            input == bytes@.skip(start as int),
            models == models_of(types@),
            parse_fields(models, 0, input) == after_decoded(
                values_of(fields@),
                (*pos - start) as nat,
                parse_fields(models, i as nat, bytes@.skip(*pos as int)),
            ),
        decreases types.len() - i,
    {
        let ghost here = *pos;
        let ghost done = values_of(fields@);
        match decode(&types[i], bytes, pos) {
            Err(e) => {
                return Err(e);
            },
            Ok(v) => {
                proof {
                    let s = bytes@.skip(here as int);
                    let used = (*pos - here) as nat;
                    assert(s.skip(used as int) =~= bytes@.skip(*pos as int));
                    let rest = parse_fields(models, (i + 1) as nat, bytes@.skip(*pos as int));
                    match rest {
                        Ok((others, more)) => {
                            assert(done + (seq![v@] + others) =~= done.push(v@) + others);
                        },
                        Err(_) => {},
                    }
                    assert(values_of(fields@.push(v)) =~= done.push(v@));
                }
                fields.push(v);
            },
        }
        i = i + 1;
    }
    assert(values_of(fields@) + Seq::<ValueModel>::empty() =~= values_of(fields@));
    Ok(fields)
}

} // verus!
