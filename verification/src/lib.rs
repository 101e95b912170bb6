//! Verified generation of vertex-buffer layout descriptors.
//!
//! Given the declared fields of a fixed-size vertex record type — each a
//! named, fixed-length array of one hardware-supported scalar — this crate
//! validates the declarations, classifies each scalar into a closed element
//! type enumeration, computes every field's packed byte offset, and bakes the
//! results into an immutable descriptor table that answers the five layout
//! queries a rendering pipeline needs.

pub mod descriptor;
pub mod element_type;
pub mod field;
pub mod layout;
pub mod parse;

pub use descriptor::QueryError;
pub use descriptor::VertexDescriptor;
pub use element_type::ElementType;
pub use element_type::GenError;
pub use element_type::classify;
pub use field::FieldDecl;
pub use field::FieldDescriptor;
pub use field::TypeDecl;
pub use field::extract_fields;
pub use parse::parse_type_decl;
