use vstd::prelude::*;
use crate::error::Error;
use vstd::string::*;
use crate::text::same_text;

verus! {

/// The scalar types an attribute can be declared with.
#[derive(Clone, Copy, Debug, PartialEq, Eq, Structural)]
pub enum ScalarType {
    U8,
    U16,
    U32,
    U64,
    USize,
    Bool,
    U128,
    U256,
    Cursor,
    Address,
    DateTime,
    Felt252,
    Text,
}

/// How values of a scalar type are stored, filtered and decoded.
#[derive(Clone, Copy, Debug, PartialEq, Eq, Structural)]
pub enum Category {
    Boolean,
    Numeric,
    Text,
}

impl ScalarType {
    /// The scalar type that a type tag names, if any.
    pub open spec fn from_tag(tag: Seq<char>) -> Option<ScalarType> {
        if tag == "u8"@ {
            Some(ScalarType::U8)
        } else if tag == "u16"@ {
            Some(ScalarType::U16)
        } else if tag == "u32"@ {
            Some(ScalarType::U32)
        } else if tag == "u64"@ {
            Some(ScalarType::U64)
        } else if tag == "usize"@ {
            Some(ScalarType::USize)
        } else if tag == "bool"@ {
            Some(ScalarType::Bool)
        } else if tag == "u128"@ {
            Some(ScalarType::U128)
        } else if tag == "u256"@ {
            Some(ScalarType::U256)
        } else if tag == "Cursor"@ {
            Some(ScalarType::Cursor)
        } else if tag == "Address"@ {
            Some(ScalarType::Address)
        } else if tag == "DateTime"@ {
            Some(ScalarType::DateTime)
        } else if tag == "felt252"@ {
            Some(ScalarType::Felt252)
        } else if tag == "String"@ {
            Some(ScalarType::Text)
        } else {
            None
        }
    }

    /// The category of a scalar type. Integers wider than 64 bits are kept as
    /// text, and so are all the remaining types.
    pub open spec fn category(self) -> Category {
        match self {
            ScalarType::Bool => Category::Boolean,
            ScalarType::U8 | ScalarType::U16 | ScalarType::U32 | ScalarType::U64
            | ScalarType::USize => Category::Numeric,
            _ => Category::Text,
        }
    }

    /// Resolves a type tag. A tag that names no scalar type is an error, never a
    /// silent default.
    pub fn from_str(tag: &str) -> (r: Result<ScalarType, Error>)
        ensures
            match ScalarType::from_tag(tag@) {
                Some(t) => r == Ok::<ScalarType, Error>(t),
                None => r matches Err(Error::UnknownType { tag: t }) && t@ == tag@,
            },
    {
        if same_text(tag, "u8") {
            Ok(ScalarType::U8)
        } else if same_text(tag, "u16") {
            Ok(ScalarType::U16)
        } else if same_text(tag, "u32") {
            Ok(ScalarType::U32)
        } else if same_text(tag, "u64") {
            Ok(ScalarType::U64)
        } else if same_text(tag, "usize") {
            Ok(ScalarType::USize)
        } else if same_text(tag, "bool") {
            Ok(ScalarType::Bool)
        } else if same_text(tag, "u128") {
            Ok(ScalarType::U128)
        } else if same_text(tag, "u256") {
            Ok(ScalarType::U256)
        } else if same_text(tag, "Cursor") {
            Ok(ScalarType::Cursor)
        } else if same_text(tag, "Address") {
            Ok(ScalarType::Address)
        } else if same_text(tag, "DateTime") {
            Ok(ScalarType::DateTime)
        } else if same_text(tag, "felt252") {
            Ok(ScalarType::Felt252)
        } else if same_text(tag, "String") {
            Ok(ScalarType::Text)
        } else {
            Err(Error::UnknownType { tag: String::from_str(tag) })
        }
    }

    /// The category of this type.
    pub fn kind(&self) -> (c: Category)
        ensures
            c == self.category(),
    {
        match self {
            ScalarType::Bool => Category::Boolean,
            ScalarType::U8 | ScalarType::U16 | ScalarType::U32 | ScalarType::U64
            | ScalarType::USize => Category::Numeric,
            _ => Category::Text,
        }
    }

    /// Whether values of this type are stored and filtered as integers.
    pub fn is_numeric_type(&self) -> (b: bool)
        ensures
            b == (self.category() == Category::Numeric),
    {
        match self.kind() {
            Category::Numeric => true,
            _ => false,
        }
    }
}

} // verus!
