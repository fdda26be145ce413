//! Values of the types that a [`TypeRef`](crate::schema::TypeRef) can name.

use vstd::prelude::*;
use vstd::string::{StrSliceExecFns, StringSliceAdditionalSpecFns};
use crate::schema::IntKind;
use crate::wire::{pow256, lemma_pow256_table};

verus! {

/// A fixed-width integer together with its kind.
#[derive(Clone, Copy, Debug, PartialEq, Eq, Structural)]
pub enum Integer {
    U8(u8),
    U16(u16),
    U32(u32),
    U64(u64),
    I8(i8),
    I16(i16),
    I32(i32),
    I64(i64),
}

impl Integer {
    /// The kind of this integer.
    pub open spec fn spec_kind(self) -> IntKind {
        match self {
            Integer::U8(_) => IntKind::U8,
            Integer::U16(_) => IntKind::U16,
            Integer::U32(_) => IntKind::U32,
            Integer::U64(_) => IntKind::U64,
            Integer::I8(_) => IntKind::I8,
            Integer::I16(_) => IntKind::I16,
            Integer::I32(_) => IntKind::I32,
            Integer::I64(_) => IntKind::I64,
        }
    }

    /// The integer as an unsigned number of its width: itself where it is
    /// not negative, else its two's complement.
    pub open spec fn bits(self) -> nat {
        match self {
            Integer::U8(x) => x as nat,
            Integer::U16(x) => x as nat,
            Integer::U32(x) => x as nat,
            Integer::U64(x) => x as nat,
            Integer::I8(x) => if x >= 0 {
                x as nat
            } else {
                (x + 0x100) as nat
            },
            Integer::I16(x) => if x >= 0 {
                x as nat
            } else {
                (x + 0x1_0000) as nat
            },
            Integer::I32(x) => if x >= 0 {
                x as nat
            } else {
                (x + 0x1_0000_0000) as nat
            },
            Integer::I64(x) => if x >= 0 {
                x as nat
            } else {
                (x + 0x1_0000_0000_0000_0000) as nat
            },
        }
    }

    /// The integer of kind `kind` whose unsigned form is `raw`.
    pub open spec fn of_bits(kind: IntKind, raw: nat) -> Integer {
        match kind {
            IntKind::U8 => Integer::U8(raw as u8),
            IntKind::U16 => Integer::U16(raw as u16),
            IntKind::U32 => Integer::U32(raw as u32),
            IntKind::U64 => Integer::U64(raw as u64),
            IntKind::I8 => Integer::I8(
                if raw < 0x80 {
                    raw as i8
                } else {
                    (raw - 0x100) as i8
                },
            ),
            IntKind::I16 => Integer::I16(
                if raw < 0x8000 {
                    raw as i16
                } else {
                    (raw - 0x1_0000) as i16
                },
            ),
            IntKind::I32 => Integer::I32(
                if raw < 0x8000_0000 {
                    raw as i32
                } else {
                    (raw - 0x1_0000_0000) as i32
                },
            ),
            IntKind::I64 => Integer::I64(
                if raw < 0x8000_0000_0000_0000 {
                    raw as i64
                } else {
                    (raw - 0x1_0000_0000_0000_0000) as i64
                },
            ),
        }
    }

    /// The unsigned form of an integer fits in the bytes of its kind.
    pub proof fn lemma_bits_fit(self)
        ensures
            self.bits() < pow256(self.spec_kind().width()),
    {
        lemma_pow256_table();
    }

    /// An integer is the one of its kind with its unsigned form.
    pub proof fn lemma_of_bits_of_integer(self)
        ensures
            Integer::of_bits(self.spec_kind(), self.bits()) == self,
    {
    }

    /// The kind of this integer.
    #[verifier::when_used_as_spec(spec_kind)]
    pub fn kind(self) -> (r: IntKind)
        ensures
            r == self.spec_kind(),
    {
        match self {
            Integer::U8(_) => IntKind::U8,
            Integer::U16(_) => IntKind::U16,
            Integer::U32(_) => IntKind::U32,
            Integer::U64(_) => IntKind::U64,
            Integer::I8(_) => IntKind::I8,
            Integer::I16(_) => IntKind::I16,
            Integer::I32(_) => IntKind::I32,
            Integer::I64(_) => IntKind::I64,
        }
    }

    /// The unsigned form of this integer.
    pub fn to_bits(self) -> (r: u64)
        ensures
            r == self.bits(),
    {
        match self {
            Integer::U8(x) => x as u64,
            Integer::U16(x) => x as u64,
            Integer::U32(x) => x as u64,
            Integer::U64(x) => x,
            Integer::I8(x) => if x >= 0 {
                x as u64
            } else {
                (x as i64 + 0x100) as u64
            },
            Integer::I16(x) => if x >= 0 {
                x as u64
            } else {
                (x as i64 + 0x1_0000) as u64
            },
            Integer::I32(x) => if x >= 0 {
                x as u64
            } else {
                (x as i64 + 0x1_0000_0000) as u64
            },
            Integer::I64(x) => if x >= 0 {
                x as u64
            } else {
                (x - i64::MIN) as u64 + 0x8000_0000_0000_0000
            },
        }
    }

    /// The integer of kind `kind` whose unsigned form is `raw`.
    pub fn from_bits(kind: IntKind, raw: u64) -> (r: Integer)
        requires
            raw < pow256(kind.width()),
        ensures
            r == Integer::of_bits(kind, raw as nat),
    {
        proof {
            lemma_pow256_table();
        }
        match kind {
            IntKind::U8 => Integer::U8(raw as u8),
            IntKind::U16 => Integer::U16(raw as u16),
            IntKind::U32 => Integer::U32(raw as u32),
            IntKind::U64 => Integer::U64(raw),
            IntKind::I8 => Integer::I8(
                if raw < 0x80 {
                    raw as i8
                } else {
                    (raw as i64 - 0x100) as i8
                },
            ),
            IntKind::I16 => Integer::I16(
                if raw < 0x8000 {
                    raw as i16
                } else {
                    (raw as i64 - 0x1_0000) as i16
                },
            ),
            IntKind::I32 => Integer::I32(
                if raw < 0x8000_0000 {
                    raw as i32
                } else {
                    (raw as i64 - 0x1_0000_0000) as i32
                },
            ),
            IntKind::I64 => Integer::I64(
                if raw < 0x8000_0000_0000_0000 {
                    raw as i64
                } else {
                    (raw - 0x8000_0000_0000_0000) as i64 + i64::MIN
                },
            ),
        }
    }
}

/// A value of some type of the wire format.
#[derive(Debug, PartialEq, Eq)]
pub enum Value {
    Bool(bool),
    Int(Integer),
    /// An unsigned integer that is written in variable-length form.
    VarUint(u64),
    /// A string, as its UTF-8 bytes.
    Str(Vec<u8>),
    /// A sequence of values of one type.
    List(Vec<Value>),
    Optional(Option<Box<Value>>),
    /// The values of the fields of a product, in declared order.
    Product(Vec<Value>),
    /// One variant of a sum: its zero-based position among the declared
    /// variants, and its payload.
    Sum(u8, Box<Value>),
}

/// The mathematical model of a [`Value`].
pub enum ValueModel {
    Bool(bool),
    Int(Integer),
    VarUint(u64),
    Str(Seq<u8>),
    List(Seq<ValueModel>),
    Optional(Option<Box<ValueModel>>),
    Product(Seq<ValueModel>),
    Sum(u8, Box<ValueModel>),
}

impl Value {
    /// The string value with the UTF-8 bytes of `text`.
    pub fn text(text: &str) -> (r: Value)
        ensures
            r@ == ValueModel::Str(text.spec_bytes()),
    {
        Value::Str(text.as_bytes_vec())
    }

    /// The mathematical model of this value.
    pub open spec fn model(self) -> ValueModel
        decreases self,
    {
        match self {
            Value::Bool(b) => ValueModel::Bool(b),
            Value::Int(x) => ValueModel::Int(x),
            Value::VarUint(x) => ValueModel::VarUint(x),
            Value::Str(bytes) => ValueModel::Str(bytes@),
            Value::List(items) => ValueModel::List(values_of(items@)),
            Value::Optional(inner) => match inner {
                None => ValueModel::Optional(None),
                Some(x) => ValueModel::Optional(Some(Box::new((*x).model()))),
            },
            Value::Product(fields) => ValueModel::Product(values_of(fields@)),
            Value::Sum(index, payload) => ValueModel::Sum(index, Box::new((*payload).model())),
        }
    }
}

/// The models of a row of values, in order.
pub open spec fn values_of(values: Seq<Value>) -> Seq<ValueModel>
    decreases values,
{
    Seq::new(
        values.len(),
        |i: int|
            if 0 <= i < values.len() {
                values[i].model()
            } else {
                ValueModel::Bool(false)
            },
    )
}

impl View for Value {
    type V = ValueModel;

    open spec fn view(&self) -> ValueModel {
        self.model()
    }
}

/// Copies a row of values.
pub fn clone_values(values: &Vec<Value>) -> (r: Vec<Value>)
    ensures
        values_of(r@) == values_of(values@),
    decreases values,
{
    let mut out: Vec<Value> = Vec::new();
    let mut i: usize = 0;
    while i < values.len()
        invariant
            i <= values.len(),
            out@.len() == i,
            forall|j: int| 0 <= j < i ==> out@[j].model() == values@[j].model(),
        decreases values.len() - i,
    {
        let copy = values[i].clone();
        out.push(copy);
        i = i + 1;
    }
    assert(values_of(out@) =~= values_of(values@));
    out
}

impl Clone for Value {
    fn clone(&self) -> (r: Self)
        ensures
            r@ == self@,
        decreases self,
    {
        match self {
            Value::Bool(b) => Value::Bool(*b),
            Value::Int(x) => Value::Int(*x),
            Value::VarUint(x) => Value::VarUint(*x),
            Value::Str(bytes) => {
                let copy = bytes.clone();
                assert(copy@ =~= bytes@);
                Value::Str(copy)
            },
            Value::List(items) => Value::List(clone_values(items)),
            Value::Optional(inner) => match inner {
                None => Value::Optional(None),
                Some(x) => Value::Optional(Some(Box::new((&**x).clone()))),
            },
            Value::Product(fields) => Value::Product(clone_values(fields)),
            Value::Sum(index, payload) => Value::Sum(*index, Box::new((&**payload).clone())),
        }
    }
}

} // verus!
