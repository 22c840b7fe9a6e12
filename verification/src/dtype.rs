//! The element types that a tensor can have.

use vstd::prelude::*;

verus! {

/// The type of a tensor's elements.
#[derive(Clone, Copy, Debug, PartialEq, Eq, Structural)]
pub enum DType {
    U8,
    U32,
    I16,
    I32,
    I64,
    BF16,
    F16,
    F32,
    F64,
    F8E4M3,
    F6E2M3,
    F6E3M2,
    F4,
    F8E8M0,
}

impl DType {
    /// Whether the elements are integers.
    pub open spec fn is_int(self) -> bool {
        self == DType::U8 || self == DType::U32 || self == DType::I16 || self == DType::I32 || self
            == DType::I64
    }

    /// Whether the backend only stores elements of this type and computes nothing with them.
    pub open spec fn is_stored_only(self) -> bool {
        self == DType::F6E2M3 || self == DType::F6E3M2 || self == DType::F4 || self
            == DType::F8E8M0
    }

    /// Whether the row losses compute with elements of this type.
    pub open spec fn is_row_float(self) -> bool {
        self == DType::BF16 || self == DType::F16 || self == DType::F32 || self == DType::F64
    }

    /// Whether class labels may have this type.
    pub open spec fn is_label(self) -> bool {
        self == DType::U8 || self == DType::U32 || self == DType::I64
    }

    /// The name of the type.
    pub open spec fn text(self) -> Seq<char> {
        match self {
            DType::U8 => "U8"@,
            DType::U32 => "U32"@,
            DType::I16 => "I16"@,
            DType::I32 => "I32"@,
            DType::I64 => "I64"@,
            DType::BF16 => "BF16"@,
            DType::F16 => "F16"@,
            DType::F32 => "F32"@,
            DType::F64 => "F64"@,
            DType::F8E4M3 => "F8E4M3"@,
            DType::F6E2M3 => "F6E2M3"@,
            DType::F6E3M2 => "F6E3M2"@,
            DType::F4 => "F4"@,
            DType::F8E8M0 => "F8E8M0"@,
        }
    }

    /// The name of the type, as it stands in messages.
    pub fn name(self) -> (r: &'static str)
        ensures
            r@ == self.text(),
    {
        match self {
            DType::U8 => "U8",
            DType::U32 => "U32",
            DType::I16 => "I16",
            DType::I32 => "I32",
            DType::I64 => "I64",
            DType::BF16 => "BF16",
            DType::F16 => "F16",
            DType::F32 => "F32",
            DType::F64 => "F64",
            DType::F8E4M3 => "F8E4M3",
            DType::F6E2M3 => "F6E2M3",
            DType::F6E3M2 => "F6E3M2",
            DType::F4 => "F4",
            DType::F8E8M0 => "F8E8M0",
        }
    }

    /// The number of bytes that one element takes; 0 for the types of six and four bits.
    pub open spec fn bytes(self) -> nat {
        match self {
            DType::U8 | DType::F8E4M3 | DType::F8E8M0 => 1,
            DType::I16 | DType::BF16 | DType::F16 => 2,
            DType::U32 | DType::I32 | DType::F32 => 4,
            DType::I64 | DType::F64 => 8,
            DType::F6E2M3 | DType::F6E3M2 | DType::F4 => 0,
        }
    }

    /// The number of bytes that one element takes.
    pub fn size_in_bytes(self) -> (r: usize)
        ensures
            r == self.bytes(),
    {
        match self {
            DType::U8 | DType::F8E4M3 | DType::F8E8M0 => 1,
            DType::I16 | DType::BF16 | DType::F16 => 2,
            DType::U32 | DType::I32 | DType::F32 => 4,
            DType::I64 | DType::F64 => 8,
            DType::F6E2M3 | DType::F6E3M2 | DType::F4 => 0,
        }
    }
}

} // verus!
