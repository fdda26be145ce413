//! What holds of the wire format for every type and every value.

use vstd::prelude::*;
use crate::config::{mentioned, role_of, PRIMARY, SECONDARY, SINGLETON};
use crate::declaration::DeclarationModel;
use crate::error::ReadError;
use crate::format::{
    admits, encoding, encoding_from, parse, parse_fields, parse_items, size, size_from,
};
use crate::generated::hashes_to;
use crate::plan::planned;
use crate::schema::{FieldModel, FieldRole, TypeModel};
use crate::table::{tabled, with_role};
use crate::value::ValueModel;
use crate::wire::{
    lemma_le_bytes_len, lemma_le_value_of_bytes, lemma_parse_varint_of_encoding,
    lemma_parse_varint_truncated, lemma_varint_groups_used, lemma_varint_len, le_bytes,
    overwritten, parse_varint, remaining, varint, varint_len,
};

verus! {

/// Size agreement: the size of a value is the length of its encoding.
pub proof fn lemma_size_agreement(v: ValueModel)
    ensures
        size(v) == encoding(v).len(),
    decreases v, 0nat,
{
    match v {
        ValueModel::Bool(_) => {},
        ValueModel::Int(x) => {
            lemma_le_bytes_len(x.bits(), x.spec_kind().width());
        },
        ValueModel::VarUint(x) => {
            lemma_varint_len(x as nat);
        },
        ValueModel::Str(bytes) => {
            lemma_varint_len(bytes.len());
        },
        ValueModel::List(items) => {
            lemma_varint_len(items.len());
            lemma_size_agreement_from(items, 0);
        },
        ValueModel::Optional(content) => match content {
            None => {},
            Some(x) => {
                lemma_size_agreement(*x);
            },
        },
        ValueModel::Product(fields) => {
            lemma_size_agreement_from(fields, 0);
        },
        ValueModel::Sum(_, payload) => {
            lemma_size_agreement(*payload);
        },
    }
}

/// Size agreement for a row of values.
pub proof fn lemma_size_agreement_from(values: Seq<ValueModel>, from: nat)
    ensures
        size_from(values, from) == encoding_from(values, from).len(),
    decreases values, values.len() - from,
{
    if from < values.len() {
        lemma_size_agreement(values[from as int]);
        lemma_size_agreement_from(values, from + 1);
    }
}

/// Round trip: decoding the encoding of a value of the type gives the value
/// back and takes exactly its bytes, whatever follows them in the buffer.
pub proof fn lemma_round_trip(ty: TypeModel, v: ValueModel, rest: Seq<u8>)
    requires
        admits(ty, v),
    ensures
        parse(ty, encoding(v) + rest) == Ok::<(ValueModel, nat), ReadError>((v, size(v))),
    decreases v, 0nat,
{
    let s = encoding(v) + rest;
    lemma_size_agreement(v);
    match v {
        ValueModel::Bool(b) => {},
        ValueModel::Int(x) => {
            let w = x.spec_kind().width();
            lemma_le_bytes_len(x.bits(), w);
            assert(s.take(w as int) =~= le_bytes(x.bits(), w));
            x.lemma_bits_fit();
            lemma_le_value_of_bytes(x.bits(), w);
            x.lemma_of_bits_of_integer();
        },
        ValueModel::VarUint(x) => {
            lemma_parse_varint_of_encoding(x, rest);
        },
        ValueModel::Str(bytes) => {
            let count = bytes.len() as u64;
            let used = varint_len(bytes.len());
            lemma_varint_len(bytes.len());
            assert(s =~= varint(bytes.len()) + (bytes + rest));
            lemma_parse_varint_of_encoding(count, bytes + rest);
            assert(s.subrange(used as int, used + count) =~= bytes);
        },
        ValueModel::List(items) => {
            let count = items.len() as u64;
            let used = varint_len(items.len());
            lemma_varint_len(items.len());
            let tail = encoding_from(items, 0) + rest;
            assert(s =~= varint(items.len()) + tail);
            lemma_parse_varint_of_encoding(count, tail);
            assert(s.skip(used as int) =~= tail);
            let elem = ty->List_0;
            lemma_round_trip_items(*elem, items, 0, rest);
            assert(items.skip(0) =~= items);
        },
        ValueModel::Optional(content) => match content {
            None => {},
            Some(x) => {
                let inner = ty->Optional_0;
                assert(s.skip(1) =~= encoding(*x) + rest);
                lemma_round_trip(*inner, *x, rest);
            },
        },
        ValueModel::Product(fields) => {
            let types = ty->Product_0;
            lemma_round_trip_fields(types, fields, 0, rest);
            assert(fields.skip(0) =~= fields);
        },
        ValueModel::Sum(index, payload) => {
            let variants = ty->Sum_0;
            assert(s.skip(1) =~= encoding(*payload) + rest);
            lemma_round_trip(variants[index as int], *payload, rest);
        },
    }
}

/// One value, one encoding: two values of one type with the same canonical
/// bytes are the same value.
pub proof fn lemma_encoding_injective(ty: TypeModel, a: ValueModel, b: ValueModel)
    requires
        admits(ty, a),
        admits(ty, b),
        encoding(a) == encoding(b),
    ensures
        a == b,
{
    lemma_round_trip(ty, a, Seq::empty());
    lemma_round_trip(ty, b, Seq::empty());
}

/// Round trip through a buffer: what is written over the region at a
/// cursor reads back from that cursor as the value, and takes its size.
pub proof fn lemma_write_then_read(ty: TypeModel, v: ValueModel, buffer: Seq<u8>, at: nat)
    requires
        admits(ty, v),
    ensures
        parse(ty, remaining(overwritten(buffer, at, encoding(v)), at as int)) == Ok::<
            (ValueModel, nat),
            ReadError,
        >((v, size(v))),
{
    let data = encoding(v);
    let after = overwritten(buffer, at, data);
    let rest = after.skip((at + data.len()) as int);
    assert(remaining(after, at as int) =~= data + rest);
    lemma_round_trip(ty, v, rest);
}

/// Round trip for the elements of a sequence from position `from` on.
pub proof fn lemma_round_trip_items(
    elem: TypeModel,
    items: Seq<ValueModel>,
    from: nat,
    rest: Seq<u8>,
)
    requires
        from <= items.len(),
        forall|i: int| 0 <= i < items.len() ==> admits(elem, #[trigger] items[i]),
    ensures
        parse_items(elem, (items.len() - from) as nat, encoding_from(items, from) + rest) == Ok::<
            (Seq<ValueModel>, nat),
            ReadError,
        >((items.skip(from as int), size_from(items, from))),
    decreases items, items.len() - from,
{
    if from < items.len() {
        let first = items[from as int];
        let tail = encoding_from(items, from + 1) + rest;
        let s = encoding_from(items, from) + rest;
        assert(s =~= encoding(first) + tail);
        lemma_round_trip(elem, first, tail);
        lemma_size_agreement(first);
        assert(s.skip(size(first) as int) =~= tail);
        lemma_round_trip_items(elem, items, from + 1, rest);
        assert(seq![first] + items.skip(from as int + 1) =~= items.skip(from as int));
    } else {
        assert(items.skip(from as int) =~= Seq::<ValueModel>::empty());
    }
}

/// Round trip for the fields of a product from position `from` on.
pub proof fn lemma_round_trip_fields(
    types: Seq<TypeModel>,
    fields: Seq<ValueModel>,
    from: nat,
    rest: Seq<u8>,
)
    requires
        from <= fields.len(),
        types.len() == fields.len(),
        forall|i: int| 0 <= i < fields.len() ==> admits(types[i], #[trigger] fields[i]),
    ensures
        parse_fields(types, from, encoding_from(fields, from) + rest) == Ok::<
            (Seq<ValueModel>, nat),
            ReadError,
        >((fields.skip(from as int), size_from(fields, from))),
    decreases fields, fields.len() - from,
{
    if from < fields.len() {
        let first = fields[from as int];
        let tail = encoding_from(fields, from + 1) + rest;
        let s = encoding_from(fields, from) + rest;
        assert(s =~= encoding(first) + tail);
        lemma_round_trip(types[from as int], first, tail);
        lemma_size_agreement(first);
        assert(s.skip(size(first) as int) =~= tail);
        lemma_round_trip_fields(types, fields, from + 1, rest);
        assert(seq![first] + fields.skip(from as int + 1) =~= fields.skip(from as int));
    } else {
        assert(fields.skip(from as int) =~= Seq::<ValueModel>::empty());
    }
}

/// Underrun detection: decoding any proper prefix of the encoding of a value
/// of the type reports an underrun.
pub proof fn lemma_truncation(ty: TypeModel, v: ValueModel, n: nat)
    requires
        admits(ty, v),
        n < size(v),
    ensures
        parse(ty, encoding(v).take(n as int)) == Err::<(ValueModel, nat), ReadError>(
            ReadError::Underrun,
        ),
        remaining(encoding(v).take(n as int), 0) == encoding(v).take(n as int),
    decreases v, 0nat,
{
    assert(remaining(encoding(v).take(n as int), 0) =~= encoding(v).take(n as int));
    let full = encoding(v);
    let s = full.take(n as int);
    lemma_size_agreement(v);
    match v {
        ValueModel::Bool(b) => {},
        ValueModel::Int(x) => {},
        ValueModel::VarUint(x) => {
            lemma_parse_varint_truncated(x, n);
        },
        ValueModel::Str(bytes) => {
            let count = bytes.len() as u64;
            let used = varint_len(bytes.len());
            lemma_varint_len(bytes.len());
            if n < used {
                assert(s =~= varint(bytes.len()).take(n as int));
                lemma_parse_varint_truncated(count, n);
            } else {
                let kept = bytes.take(n - used);
                assert(s =~= varint(bytes.len()) + kept);
                lemma_parse_varint_of_encoding(count, kept);
            }
        },
        ValueModel::List(items) => {
            let count = items.len() as u64;
            let used = varint_len(items.len());
            lemma_varint_len(items.len());
            if n < used {
                assert(s =~= varint(items.len()).take(n as int));
                lemma_parse_varint_truncated(count, n);
            } else {
                let kept = encoding_from(items, 0).take(n - used);
                assert(s =~= varint(items.len()) + kept);
                lemma_parse_varint_of_encoding(count, kept);
                assert(s.skip(used as int) =~= kept);
                lemma_size_agreement_from(items, 0);
                let elem = ty->List_0;
                lemma_truncation_items(*elem, items, 0, (n - used) as nat);
            }
        },
        ValueModel::Optional(content) => match content {
            None => {},
            Some(x) => {
                if n >= 1 {
                    let inner = ty->Optional_0;
                    lemma_size_agreement(*x);
                    assert(s.skip(1) =~= encoding(*x).take(n - 1));
                    lemma_truncation(*inner, *x, (n - 1) as nat);
                }
            },
        },
        ValueModel::Product(fields) => {
            let types = ty->Product_0;
            lemma_truncation_fields(types, fields, 0, n);
        },
        ValueModel::Sum(index, payload) => {
            if n >= 1 {
                let variants = ty->Sum_0;
                lemma_size_agreement(*payload);
                assert(s.skip(1) =~= encoding(*payload).take(n - 1));
                lemma_truncation(variants[index as int], *payload, (n - 1) as nat);
            }
        },
    }
}

/// Underrun detection for the elements of a sequence from position `from`
/// on.
pub proof fn lemma_truncation_items(elem: TypeModel, items: Seq<ValueModel>, from: nat, n: nat)
    requires
        from <= items.len(),
        forall|i: int| 0 <= i < items.len() ==> admits(elem, #[trigger] items[i]),
        n < size_from(items, from),
    ensures
        parse_items(elem, (items.len() - from) as nat, encoding_from(items, from).take(n as int))
            == Err::<(Seq<ValueModel>, nat), ReadError>(ReadError::Underrun),
    decreases items, items.len() - from,
{
    let first = items[from as int];
    let s = encoding_from(items, from).take(n as int);
    lemma_size_agreement(first);
    lemma_size_agreement_from(items, from + 1);
    if n < size(first) {
        assert(s =~= encoding(first).take(n as int));
        lemma_truncation(elem, first, n);
    } else {
        let kept = encoding_from(items, from + 1).take(n - size(first));
        assert(s =~= encoding(first) + kept);
        lemma_round_trip(elem, first, kept);
        assert(s.skip(size(first) as int) =~= kept);
        lemma_truncation_items(elem, items, from + 1, (n - size(first)) as nat);
    }
}

/// Underrun detection for the fields of a product from position `from` on.
pub proof fn lemma_truncation_fields(
    types: Seq<TypeModel>,
    fields: Seq<ValueModel>,
    from: nat,
    n: nat,
)
    requires
        from <= fields.len(),
        types.len() == fields.len(),
        forall|i: int| 0 <= i < fields.len() ==> admits(types[i], #[trigger] fields[i]),
        n < size_from(fields, from),
    ensures
        parse_fields(types, from, encoding_from(fields, from).take(n as int)) == Err::<
            (Seq<ValueModel>, nat),
            ReadError,
        >(ReadError::Underrun),
    decreases fields, fields.len() - from,
{
    let first = fields[from as int];
    let s = encoding_from(fields, from).take(n as int);
    lemma_size_agreement(first);
    lemma_size_agreement_from(fields, from + 1);
    if n < size(first) {
        assert(s =~= encoding(first).take(n as int));
        lemma_truncation(types[from as int], first, n);
    } else {
        let kept = encoding_from(fields, from + 1).take(n - size(first));
        assert(s =~= encoding(first) + kept);
        lemma_round_trip(types[from as int], first, kept);
        assert(s.skip(size(first) as int) =~= kept);
        lemma_truncation_fields(types, fields, from + 1, (n - size(first)) as nat);
    }
}

/// Unknown discriminants are rejected: a buffer whose first byte is not the
/// position of a variant does not decode as the sum type.
pub proof fn lemma_unknown_discriminant(variants: Seq<TypeModel>, s: Seq<u8>)
    requires
        s.len() >= 1,
        s[0] >= variants.len(),
    ensures
        parse(TypeModel::Sum(variants), s) == Err::<(ValueModel, nat), ReadError>(
            ReadError::InvalidDiscriminant,
        ),
{
}

/// No wrong data: whatever decodes as a value of a type is a value of that
/// type, and took no byte beyond the end of the buffer.
pub proof fn lemma_parse_sound(ty: TypeModel, s: Seq<u8>)
    ensures
        match parse(ty, s) {
            Ok((v, used)) => admits(ty, v) && used <= s.len(),
            Err(_) => true,
        },
    decreases ty, 0nat,
{
    match ty {
        TypeModel::Bool => {},
        TypeModel::Int(kind) => {},
        TypeModel::VarUint => {
            lemma_varint_groups_used(s, 10);
        },
        TypeModel::Str => {
            lemma_varint_groups_used(s, 10);
        },
        TypeModel::List(elem) => {
            lemma_varint_groups_used(s, 10);
            match parse_varint(s) {
                Ok((count, used)) => {
                    lemma_parse_items_sound(*elem, count as nat, s.skip(used as int));
                },
                Err(_) => {},
            }
        },
        TypeModel::Optional(inner) => {
            if s.len() >= 1 && s[0] == 1 {
                lemma_parse_sound(*inner, s.skip(1));
            }
        },
        TypeModel::Product(types) => {
            lemma_parse_fields_sound(types, 0, s);
        },
        TypeModel::Sum(variants) => {
            if s.len() >= 1 && s[0] < variants.len() {
                lemma_parse_sound(variants[s[0] as int], s.skip(1));
            }
        },
    }
}

/// No wrong data, for the elements of a sequence: as many values as were
/// asked for, each of the element type.
pub proof fn lemma_parse_items_sound(elem: TypeModel, count: nat, s: Seq<u8>)
    ensures
        match parse_items(elem, count, s) {
            Ok((items, used)) => {
                &&& items.len() == count
                &&& forall|i: int| 0 <= i < items.len() ==> admits(elem, #[trigger] items[i])
                &&& used <= s.len()
            },
            Err(_) => true,
        },
    decreases elem, count + 1,
{
    if count > 0 {
        lemma_parse_sound(elem, s);
        match parse(elem, s) {
            Ok((first, used)) => {
                lemma_parse_items_sound(elem, (count - 1) as nat, s.skip(used as int));
            },
            Err(_) => {},
        }
    }
}

/// No wrong data, for the fields of a product from position `from` on: one
/// value for each type, each of its type.
pub proof fn lemma_parse_fields_sound(types: Seq<TypeModel>, from: nat, s: Seq<u8>)
    requires
        from <= types.len(),
    ensures
        match parse_fields(types, from, s) {
            Ok((fields, used)) => {
                &&& fields.len() == types.len() - from
                &&& forall|i: int|
                    0 <= i < fields.len() ==> admits(types[from + i], #[trigger] fields[i])
                &&& used <= s.len()
            },
            Err(_) => true,
        },
    decreases types, types.len() - from,
{
    if from < types.len() {
        lemma_parse_sound(types[from as int], s);
        match parse(types[from as int], s) {
            Ok((first, used)) => {
                lemma_parse_fields_sound(types, from + 1, s.skip(used as int));
                match parse_fields(types, from + 1, s.skip(used as int)) {
                    Ok((others, more)) => {
                        let fields = seq![first] + others;
                        assert forall|i: int| 0 <= i < fields.len() implies admits(
                            types[from + i],
                            #[trigger] fields[i],
                        ) by {
                            if i > 0 {
                                assert(fields[i] == others[i - 1]);
                            }
                        }
                    },
                    Err(_) => {},
                }
            },
            Err(_) => {},
        }
    }
}

/// Whether `hash` gives one fingerprint for one input.
pub open spec fn single_valued<F: Fn(Vec<u8>) -> Vec<u8>>(hash: F) -> bool {
    forall|x: Vec<u8>, y: Vec<u8>, p: Vec<u8>, q: Vec<u8>|
        x@ == y@ && #[trigger] call_ensures(hash, (x,), p) && #[trigger] call_ensures(
            hash,
            (y,),
            q,
        ) ==> p@ == q@
}

/// Digest determinism: under a hash that gives one fingerprint for one
/// input, two values with the same canonical bytes have the same digest;
/// so has one value that is digested twice.
pub proof fn lemma_digest_determinism<F: Fn(Vec<u8>) -> Vec<u8>>(
    hash: F,
    a: ValueModel,
    b: ValueModel,
    first: Vec<u8>,
    second: Vec<u8>,
)
    requires
        single_valued(hash),
        encoding(a) == encoding(b),
        hashes_to(hash, encoding(a), first),
        hashes_to(hash, encoding(b), second),
    ensures
        first@ == second@,
{
    let x = choose|x: Vec<u8>| x@ == encoding(a) && call_ensures(hash, (x,), first);
    let y = choose|y: Vec<u8>| y@ == encoding(b) && call_ensures(hash, (y,), second);
    assert(call_ensures(hash, (x,), first) && call_ensures(hash, (y,), second));
}

/// The bytes of a row of values from position `from` on are those up to
/// position `to`, then those from `to` on.
pub proof fn lemma_encoding_split(values: Seq<ValueModel>, from: nat, to: nat)
    requires
        from <= to <= values.len(),
    ensures
        encoding_from(values, from) == encoding_from(values.take(to as int), from) + encoding_from(
            values,
            to,
        ),
    decreases to - from,
{
    let head = values.take(to as int);
    if from < to {
        lemma_encoding_split(values, from + 1, to);
        assert(encoding_from(values, from) =~= (encoding(head[from as int]) + encoding_from(
            head,
            from + 1,
        )) + encoding_from(values, to));
    } else {
        assert(encoding_from(values, from) =~= encoding_from(head, from) + encoding_from(
            values,
            to,
        ));
    }
}

/// Two rows that hold the same values from position `from` on have the same
/// bytes from there on.
pub proof fn lemma_encoding_agrees(a: Seq<ValueModel>, b: Seq<ValueModel>, from: nat)
    requires
        a.len() == b.len(),
        forall|k: int| from <= k < a.len() ==> a[k] == b[k],
    ensures
        encoding_from(a, from) == encoding_from(b, from),
    decreases a.len() - from,
{
    if from < a.len() {
        lemma_encoding_agrees(a, b, from + 1);
    }
}

/// What stands between equal fronts and equal backs is equal.
pub proof fn lemma_cancel(front: Seq<u8>, x: Seq<u8>, y: Seq<u8>, back: Seq<u8>)
    requires
        front + x + back == front + y + back,
    ensures
        x == y,
{
    let left = front + x + back;
    let right = front + y + back;
    assert(left.len() == front.len() + x.len() + back.len());
    assert(right.len() == front.len() + y.len() + back.len());
    assert forall|k: int| 0 <= k < x.len() implies x[k] == y[k] by {
        assert(left[front.len() + k] == x[k]);
        assert(right[front.len() + k] == y[k]);
    }
    assert(x =~= y);
}

/// The row `fields` with the values at positions `i` and `j` exchanged.
pub open spec fn exchanged(fields: Seq<ValueModel>, i: int, j: int) -> Seq<ValueModel> {
    fields.update(i, fields[j]).update(j, fields[i])
}

/// The bytes of the fields that stand after position `i` and before
/// position `j`.
pub open spec fn between(fields: Seq<ValueModel>, i: int, j: int) -> Seq<u8> {
    encoding_from(fields.take(j), (i + 1) as nat)
}

/// Field-order sensitivity: the bytes of a product are those of its fields
/// in declared order, so exchanging two fields changes the bytes exactly
/// when the bytes of the two, with what stands between them, do not read
/// the same in both orders.
pub proof fn lemma_field_order(fields: Seq<ValueModel>, i: int, j: int)
    requires
        0 <= i < j < fields.len(),
    ensures
        (encoding(ValueModel::Product(exchanged(fields, i, j))) != encoding(
            ValueModel::Product(fields),
        )) <==> (encoding(fields[j]) + between(fields, i, j) + encoding(fields[i]) != encoding(
            fields[i],
        ) + between(fields, i, j) + encoding(fields[j])),
{
    let other = exchanged(fields, i, j);
    let front = encoding_from(fields.take(i), 0);
    let middle = between(fields, i, j);
    let back = encoding_from(fields, (j + 1) as nat);
    let here = encoding(fields[i]) + middle + encoding(fields[j]);
    let there = encoding(fields[j]) + middle + encoding(fields[i]);

    lemma_encoding_split(fields, 0, i as nat);
    lemma_encoding_split(fields, (i + 1) as nat, j as nat);
    assert(encoding(ValueModel::Product(fields)) =~= front + here + back);

    lemma_encoding_split(other, 0, i as nat);
    lemma_encoding_split(other, (i + 1) as nat, j as nat);
    lemma_encoding_agrees(other.take(i), fields.take(i), 0);
    lemma_encoding_agrees(other.take(j), fields.take(j), (i + 1) as nat);
    lemma_encoding_agrees(other, fields, (j + 1) as nat);
    assert(encoding(ValueModel::Product(other)) =~= front + there + back);

    if front + there + back == front + here + back {
        lemma_cancel(front, there, here, back);
    }
}

/// Exchanging two fields whose bytes start differently changes the bytes of
/// the product.
pub proof fn lemma_exchange_changes_bytes(fields: Seq<ValueModel>, i: int, j: int)
    requires
        0 <= i < j < fields.len(),
        encoding(fields[i]).len() > 0,
        encoding(fields[j]).len() > 0,
        encoding(fields[i])[0] != encoding(fields[j])[0],
    ensures
        encoding(ValueModel::Product(exchanged(fields, i, j))) != encoding(
            ValueModel::Product(fields),
        ),
{
    lemma_field_order(fields, i, j);
    let middle = between(fields, i, j);
    let here = encoding(fields[i]) + middle + encoding(fields[j]);
    let there = encoding(fields[j]) + middle + encoding(fields[i]);
    assert(here[0] == encoding(fields[i])[0]);
    assert(there[0] == encoding(fields[j])[0]);
}

/// A field with role `role` at position `at` adds one to the positions
/// counted up to any later bound; and the count never shrinks.
pub proof fn lemma_with_role_counts(fields: Seq<FieldModel>, role: FieldRole, at: nat, upto: nat)
    requires
        at <= upto <= fields.len(),
    ensures
        with_role(fields, role, at).len() <= with_role(fields, role, upto).len(),
        at < upto && fields[at as int].role == role ==> with_role(fields, role, at).len() + 1
            <= with_role(fields, role, upto).len(),
    decreases upto,
{
    if at < upto {
        lemma_with_role_counts(fields, role, at, (upto - 1) as nat);
    }
}

/// Table metadata invariant: a declaration with two fields marked as
/// primary key, or with the singleton marker and a field marked as a key,
/// has no table.
pub proof fn lemma_table_metadata_invariant(decl: DeclarationModel, i: int, j: int)
    requires
        decl.body is Struct,
        0 <= i < decl.body.members().len(),
        0 <= j < decl.body.members().len(),
        ({
            let fields = decl.body.members();
            ||| (i != j && mentioned(fields[i].attrs, PRIMARY@) && mentioned(
                fields[j].attrs,
                PRIMARY@,
            ))
            ||| (mentioned(decl.attrs, SINGLETON@) && (mentioned(fields[i].attrs, PRIMARY@)
                || mentioned(fields[i].attrs, SECONDARY@)))
        }),
    ensures
        tabled(decl) is Err,
{
    let built = planned(decl);
    if built is Ok {
        let fields = built->Ok_0.descriptor.fields;
        let n = fields.len();
        let members = decl.body.members();
        assert(fields[i].role == role_of(members[i].attrs));
        assert(fields[j].role == role_of(members[j].attrs));
        let low = if i < j { i } else { j };
        let high = if i < j { j } else { i };
        if i != j && mentioned(members[i].attrs, PRIMARY@) && mentioned(
            members[j].attrs,
            PRIMARY@,
        ) {
            lemma_with_role_counts(fields, FieldRole::PrimaryKey, low as nat, high as nat);
            lemma_with_role_counts(fields, FieldRole::PrimaryKey, high as nat, n);
        } else {
            lemma_with_role_counts(fields, fields[i].role, i as nat, n);
        }
    }
}

} // verus!
