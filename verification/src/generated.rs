//! The capabilities that are generated for a type: size, serialization,
//! deserialization, digest and payload.

use vstd::prelude::*;
use vstd::slice::slice_subrange;
use crate::codec::{decode, encode, encoded_size, reads_as, value_admitted};
use crate::encoded::EncodedValue;
use crate::error::{EncodeError, ReadError};
use crate::format::{admits, encoding, parse, size};
use crate::laws::lemma_size_agreement;
use crate::plan::{Plan, PlanModel};
use crate::schema::{TypeModel, TypeRef};
use crate::value::{Value, ValueModel};
use crate::wire::{overwritten, put_at, remaining};

verus! {

/// Computes the exact encoded length of the values of one type.
#[derive(Clone, Debug, PartialEq, Eq)]
pub struct Sizer {
    pub plan: Plan,
}

/// Writes the canonical bytes of the values of one type.
#[derive(Clone, Debug, PartialEq, Eq)]
pub struct Serializer {
    pub plan: Plan,
}

/// Reads values of one type back from their canonical bytes.
#[derive(Clone, Debug, PartialEq, Eq)]
pub struct Deserializer {
    pub plan: Plan,
}

/// Fingerprints the values of one type over their canonical bytes.
#[derive(Clone, Debug, PartialEq, Eq)]
pub struct Digester {
    pub plan: Plan,
}

/// Gives the values of one type as standalone byte blobs, to be embedded in
/// a larger message that knows nothing of their shape.
#[derive(Clone, Debug, PartialEq, Eq)]
pub struct PayloadSerializer {
    pub plan: Plan,
}

impl View for Sizer {
    type V = PlanModel;

    open spec fn view(&self) -> PlanModel {
        self.plan@
    }
}

impl View for Serializer {
    type V = PlanModel;

    open spec fn view(&self) -> PlanModel {
        self.plan@
    }
}

impl View for Deserializer {
    type V = PlanModel;

    open spec fn view(&self) -> PlanModel {
        self.plan@
    }
}

impl View for Digester {
    type V = PlanModel;

    open spec fn view(&self) -> PlanModel {
        self.plan@
    }
}

impl View for PayloadSerializer {
    type V = PlanModel;

    open spec fn view(&self) -> PlanModel {
        self.plan@
    }
}

/// What sizing `v` as a value of type `ty` gives.
pub open spec fn sized(ty: TypeModel, v: ValueModel) -> Result<usize, EncodeError> {
    if !admits(ty, v) {
        Err(EncodeError::TypeMismatch)
    } else if size(v) > usize::MAX {
        Err(EncodeError::TooLarge)
    } else {
        Ok(size(v) as usize)
    }
}

/// Whether `fingerprint` is what `hash` may give for the bytes `input`.
pub open spec fn hashes_to<F: Fn(Vec<u8>) -> Vec<u8>>(
    hash: F,
    input: Seq<u8>,
    fingerprint: Vec<u8>,
) -> bool {
    exists|bytes: Vec<u8>| bytes@ == input && call_ensures(hash, (bytes,), fingerprint)
}

/// What writing `v` as a value of type `ty` at the cursor `pos` gives: a
/// value of another type is a mismatch; one whose bytes would reach beyond
/// the largest offset is too large.
pub open spec fn written(ty: TypeModel, v: ValueModel, pos: usize) -> Result<(), EncodeError> {
    if !admits(ty, v) {
        Err(EncodeError::TypeMismatch)
    } else if pos + size(v) > usize::MAX {
        Err(EncodeError::TooLarge)
    } else {
        Ok(())
    }
}

/// The canonical bytes of `value` as a value of type `ty`: its encoding
/// where sizing it succeeds, else the error that sizing it gives.
pub fn canonical_bytes(ty: &TypeRef, value: &Value) -> (r: Result<Vec<u8>, EncodeError>)
    ensures
        match sized(ty@, value@) {
            Ok(n) => r is Ok && r->Ok_0@ == encoding(value@) && r->Ok_0@.len() == n,
            Err(e) => r is Err && r->Err_0 == e,
        },
{
    if !value_admitted(ty, value) {
        return Err(EncodeError::TypeMismatch);
    }
    match encoded_size(value) {
        None => Err(EncodeError::TooLarge),
        Some(n) => {
            let mut encoded: Vec<u8> = Vec::new();
            encode(value, &mut encoded);
            proof {
                lemma_size_agreement(value@);
                assert(encoded@ =~= encoding(value@));
            }
            Ok(encoded)
        },
    }
}

impl Sizer {
    /// The exact encoded length of `value`.
    pub fn num_bytes(&self, value: &Value) -> (r: Result<usize, EncodeError>)
        ensures
            r == sized(self@.ty, value@),
    {
        if !value_admitted(&self.plan.ty, value) {
            return Err(EncodeError::TypeMismatch);
        }
        match encoded_size(value) {
            Some(n) => Ok(n),
            None => Err(EncodeError::TooLarge),
        }
    }
}

impl Serializer {
    /// Writes the canonical bytes of `value` into `bytes` at the cursor
    /// `pos` and moves the cursor past them.  The buffer grows as needed.
    /// A value that is not of the type, or whose bytes would reach beyond
    /// the largest offset, leaves buffer and cursor untouched.
    pub fn write(&self, value: &Value, bytes: &mut Vec<u8>, pos: &mut usize) -> (r: Result<
        (),
        EncodeError,
    >)
        ensures
            r == written(self@.ty, value@, *old(pos)),
            r is Ok ==> {
                &&& final(bytes)@ == overwritten(old(bytes)@, *old(pos) as nat, encoding(value@))
                &&& *final(pos) == *old(pos) + size(value@)
            },
            r is Err ==> {
                &&& final(bytes)@ == old(bytes)@
                &&& *final(pos) == *old(pos)
            },
    {
        match canonical_bytes(&self.plan.ty, value) {
            Err(e) => Err(e),
            Ok(encoded) => match (*pos).checked_add(encoded.len()) {
                None => Err(EncodeError::TooLarge),
                Some(_) => {
                    let end = put_at(bytes, *pos, &encoded);
                    *pos = end;
                    Ok(())
                },
            },
        }
    }

    /// The canonical bytes of `value` as an encoded value.
    pub fn serialize(&self, value: &Value) -> (r: Result<EncodedValue, EncodeError>)
        ensures
            match sized(self@.ty, value@) {
                Ok(_) => r is Ok && r->Ok_0@ == encoding(value@),
                Err(e) => r is Err && r->Err_0 == e,
            },
    {
        match canonical_bytes(&self.plan.ty, value) {
            Err(e) => Err(e),
            Ok(encoded) => Ok(EncodedValue::new(encoded)),
        }
    }
}

impl Deserializer {
    /// Reads a value of the type from `bytes` at the cursor `pos` and moves
    /// the cursor past it.  Never reads past the end of the buffer.  After
    /// an error the cursor is not rolled back: it may stand anywhere from
    /// where it was on.
    pub fn read(&self, bytes: &[u8], pos: &mut usize) -> (r: Result<Value, ReadError>)
        ensures
            reads_as(
                parse(self@.ty, remaining(bytes@, *old(pos) as int)),
                *old(pos),
                r,
                *final(pos),
            ),
            *old(pos) <= bytes@.len() ==> *final(pos) <= bytes@.len(),
    {
        if *pos > bytes.len() {
            let nothing = slice_subrange(bytes, 0, 0);
            let mut at: usize = 0;
            assert(nothing@.skip(0) =~= remaining(bytes@, *pos as int));
            decode(&self.plan.ty, nothing, &mut at)
        } else {
            decode(&self.plan.ty, bytes, pos)
        }
    }
}

impl Digester {
    /// The digest of `value`: `hash` applied to its canonical bytes.
    pub fn digest<F: Fn(Vec<u8>) -> Vec<u8>>(&self, value: &Value, hash: F) -> (r: Result<
        Vec<u8>,
        EncodeError,
    >)
        requires
            forall|input: Vec<u8>| call_requires(hash, (input,)),
        ensures
            match sized(self@.ty, value@) {
                Ok(_) => r is Ok && hashes_to(hash, encoding(value@), r->Ok_0),
                Err(e) => r is Err && r->Err_0 == e,
            },
    {
        match canonical_bytes(&self.plan.ty, value) {
            Err(e) => Err(e),
            Ok(encoded) => {
                let ghost input = encoded;
                let fingerprint = hash(encoded);
                assert(input@ == encoding(value@) && call_ensures(hash, (input,), fingerprint));
                Ok(fingerprint)
            },
        }
    }
}

/// The digest of bytes that are encoded already: `hash` applied to them.
pub fn digest_encoded<F: Fn(Vec<u8>) -> Vec<u8>>(encoded: &EncodedValue, hash: F) -> (r: Vec<u8>)
    requires
        forall|input: Vec<u8>| call_requires(hash, (input,)),
    ensures
        hashes_to(hash, encoded@, r),
{
    let input = encoded.as_bytes().clone();
    assert(input@ =~= encoded@);
    let ghost given = input;
    let fingerprint = hash(input);
    assert(given@ == encoded@ && call_ensures(hash, (given,), fingerprint));
    fingerprint
}

impl PayloadSerializer {
    /// The canonical bytes of `value` as a blob of their own.
    pub fn to_serialize_data(&self, value: &Value) -> (r: Result<Vec<u8>, EncodeError>)
        ensures
            match sized(self@.ty, value@) {
                Ok(_) => r is Ok && r->Ok_0@ == encoding(value@),
                Err(e) => r is Err && r->Err_0 == e,
            },
    {
        canonical_bytes(&self.plan.ty, value)
    }
}

} // verus!
