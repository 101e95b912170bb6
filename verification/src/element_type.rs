//! The closed scalar classification used by the rendering hardware, and the
//! classifier that maps a declared scalar type name into it.

use vstd::prelude::*;

verus! {

/// The closed set of scalar formats the rendering hardware understands.
/// A pure classification tag with no instance state.
#[derive(Debug, Clone, Copy, PartialEq, Eq, Structural)]
pub enum ElementType {
    UnsignedByte,
    Byte,
    UnsignedShort,
    Short,
    Float,
}

/// Byte width of one scalar of the given element type.
pub open spec fn width_of(t: ElementType) -> nat {
    match t {
        ElementType::UnsignedByte => 1,
        ElementType::Byte => 1,
        ElementType::UnsignedShort => 2,
        ElementType::Short => 2,
        ElementType::Float => 4,
    }
}

/// A generation-time failure. Generation halts on the first offending field;
/// no partial descriptor is ever produced.
#[derive(Debug, Clone, PartialEq, Eq)]
pub enum GenError {
    /// The named scalar type is outside the supported closed set.
    UnsupportedType(String),
    /// The named field is not declared as a fixed-length array.
    NonArrayField(String),
    /// The field at this declared position has no name.
    UnnamedField(usize),
}

/// The classification of a scalar type name: `Some` exactly on the five
/// supported names, `None` on everything else.
pub open spec fn classify_spec(name: Seq<char>) -> Option<ElementType> {
    if name == "u8"@ {
        Some(ElementType::UnsignedByte)
    } else if name == "i8"@ {
        Some(ElementType::Byte)
    } else if name == "u16"@ {
        Some(ElementType::UnsignedShort)
    } else if name == "i16"@ {
        Some(ElementType::Short)
    } else if name == "f32"@ {
        Some(ElementType::Float)
    } else {
        None
    }
}

/// String equality by contents.
pub(crate) fn str_eq(a: &str, b: &str) -> (r: bool)
    ensures
        r == (a@ == b@),
{
    let x: String = a.to_owned();
    let y: String = b.to_owned();
    x == y
}

impl ElementType {
    /// Byte width of one scalar of this element type.
    pub fn byte_width(&self) -> (w: u32)
        ensures
            w == width_of(*self),
    {
        match self {
            ElementType::UnsignedByte => 1,
            ElementType::Byte => 1,
            ElementType::UnsignedShort => 2,
            ElementType::Short => 2,
            ElementType::Float => 4,
        }
    }
}

/// Maps a scalar type name to its element type tag; any name outside the
/// closed supported set is a fatal generation error carrying that name.
pub fn classify(name: &str) -> (r: Result<ElementType, GenError>)
    ensures
        match r {
            Ok(t) => classify_spec(name@) == Some(t),
            Err(e) => classify_spec(name@) is None && (e matches GenError::UnsupportedType(m)
                && m@ == name@),
        },
{
    if str_eq(name, "u8") {
        Ok(ElementType::UnsignedByte)
    } else if str_eq(name, "i8") {
        Ok(ElementType::Byte)
    } else if str_eq(name, "u16") {
        Ok(ElementType::UnsignedShort)
    } else if str_eq(name, "i16") {
        Ok(ElementType::Short)
    } else if str_eq(name, "f32") {
        Ok(ElementType::Float)
    } else {
        Err(GenError::UnsupportedType(name.to_owned()))
    }
}

} // verus!
