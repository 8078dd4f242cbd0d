use vstd::prelude::*;

verus! {

/// One element of a message, tagged with its type.
///
/// A message also uses a `Type` as its type tag; the tag is the blank value of
/// the variant (zero, or the empty string). The two float variants hold the
/// IEEE 754 bit pattern of the number, which is what travels on the wire.
#[derive(Clone, Debug, PartialEq, Eq)]
pub enum Type {
    U8(u8),
    U16(u16),
    U32(u32),
    U64(u64),
    I8(i8),
    I16(i16),
    I32(i32),
    I64(i64),
    F32(u32),
    F64(u64),
    Str(String),
}

/// The nibble that stands for the string type: the highest one in use.
pub const STR_NIBBLE: u8 = 10;

/// The bytes that one element of the type with nibble `nibble` takes; 0 for
/// strings, whose elements vary in length.
pub open spec fn width_of(nibble: u8) -> nat {
    if nibble == 0 || nibble == 4 {
        1
    } else if nibble == 1 || nibble == 5 {
        2
    } else if nibble == 2 || nibble == 6 || nibble == 8 {
        4
    } else if nibble == 3 || nibble == 7 || nibble == 9 {
        8
    } else {
        0
    }
}

/// Whether the type with nibble `nibble` is one of the four signed integer
/// types.
pub open spec fn is_signed(nibble: u8) -> bool {
    4 <= nibble <= 7
}

impl Type {
    /// The type's place in the order u8, u16, u32, u64, i8, i16, i32, i64,
    /// f32, f64, str: the lower nibble of a header byte.
    pub open spec fn nibble(&self) -> u8 {
        match self {
            Type::U8(_) => 0,
            Type::U16(_) => 1,
            Type::U32(_) => 2,
            Type::U64(_) => 3,
            Type::I8(_) => 4,
            Type::I16(_) => 5,
            Type::I32(_) => 6,
            Type::I64(_) => 7,
            Type::F32(_) => 8,
            Type::F64(_) => 9,
            Type::Str(_) => 10,
        }
    }

    /// The bytes that one element of this type takes; 0 for strings.
    pub open spec fn width(&self) -> nat {
        width_of(self.nibble())
    }

    /// The number that a numeric element carries (for a float, its bit
    /// pattern); 0 for a string.
    pub open spec fn number(&self) -> int {
        match self {
            Type::U8(v) => *v as int,
            Type::U16(v) => *v as int,
            Type::U32(v) => *v as int,
            Type::U64(v) => *v as int,
            Type::I8(v) => *v as int,
            Type::I16(v) => *v as int,
            Type::I32(v) => *v as int,
            Type::I64(v) => *v as int,
            Type::F32(v) => *v as int,
            Type::F64(v) => *v as int,
            Type::Str(_) => 0,
        }
    }

    /// The characters that a string element carries; none for a number.
    pub open spec fn text(&self) -> Seq<char> {
        match self {
            Type::Str(s) => s@,
            _ => Seq::empty(),
        }
    }

    /// Whether this is the value that serves as a type tag: zero, or the
    /// empty string.
    pub open spec fn is_blank(&self) -> bool {
        self.number() == 0 && self.text().len() == 0
    }

    /// The bytes that one element of this type takes. Strings, whose
    /// elements vary in length, answer 0.
    #[inline]
    pub fn get_size(&self) -> (size: usize)
        ensures
            size == self.width(),
    {
        match self {
            Type::U8(_) | Type::I8(_) => 1,
            Type::U16(_) | Type::I16(_) => 2,
            Type::U32(_) | Type::I32(_) | Type::F32(_) => 4,
            Type::U64(_) | Type::I64(_) | Type::F64(_) => 8,
            Type::Str(_) => 0,
        }
    }
}

} // verus!
