//! Binary codec generation for on-chain data structures.
//!
//! From the declared shape of a data type the library builds the six
//! capabilities of that type: exact encoded size, serialization into a byte
//! buffer, deserialization from one, a content digest over the canonical
//! bytes, the standalone payload form, and storage-table metadata.

use vstd::prelude::*;

pub mod codec;
pub mod config;
pub mod declaration;
pub mod encoded;
pub mod error;
pub mod format;
pub mod generated;
pub mod laws;
pub mod plan;
pub mod root;
pub mod schema;
pub mod table;
pub mod transport;
pub mod value;
pub mod wire;

use crate::config::yields;
use crate::declaration::TypeDeclaration;
use crate::error::GenerationError;
use crate::generated::{Deserializer, Digester, PayloadSerializer, Serializer, Sizer};
use crate::plan::{plan, planned};
use crate::table::{table, tabled, Table};

verus! {

/// Generates the digest capability of a type.
pub fn derive_digest(input: &TypeDeclaration) -> (r: Result<Digester, GenerationError>)
    ensures
        yields(r, planned(input@)),
        r matches Ok(generated) ==> generated@.well_formed(),
{
    match plan(input) {
        Ok(plan) => Ok(Digester { plan }),
        Err(e) => Err(e),
    }
}

/// Generates the payload capability of a type.
pub fn derive_serialize_data(input: &TypeDeclaration) -> (r: Result<
    PayloadSerializer,
    GenerationError,
>)
    ensures
        yields(r, planned(input@)),
        r matches Ok(generated) ==> generated@.well_formed(),
{
    match plan(input) {
        Ok(plan) => Ok(PayloadSerializer { plan }),
        Err(e) => Err(e),
    }
}

/// Generates the serialization capability of a type.
pub fn derive_write(input: &TypeDeclaration) -> (r: Result<Serializer, GenerationError>)
    ensures
        yields(r, planned(input@)),
        r matches Ok(generated) ==> generated@.well_formed(),
{
    match plan(input) {
        Ok(plan) => Ok(Serializer { plan }),
        Err(e) => Err(e),
    }
}

/// Generates the deserialization capability of a type.
pub fn derive_read(input: &TypeDeclaration) -> (r: Result<Deserializer, GenerationError>)
    ensures
        yields(r, planned(input@)),
        r matches Ok(generated) ==> generated@.well_formed(),
{
    match plan(input) {
        Ok(plan) => Ok(Deserializer { plan }),
        Err(e) => Err(e),
    }
}

/// Generates the size capability of a type.
pub fn derive_num_bytes(input: &TypeDeclaration) -> (r: Result<Sizer, GenerationError>)
    ensures
        yields(r, planned(input@)),
        r matches Ok(generated) ==> generated@.well_formed(),
{
    match plan(input) {
        Ok(plan) => Ok(Sizer { plan }),
        Err(e) => Err(e),
    }
}

/// Generates the table capability of a type: its storage metadata, checked
/// against the rules on key markers.
pub fn derive_table(input: &TypeDeclaration) -> (r: Result<Table, GenerationError>)
    ensures
        yields(r, tabled(input@)),
        r matches Ok(generated) ==> generated@.well_formed(),
{
    table(input)
}

} // verus!
