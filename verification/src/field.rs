//! Field declarations as handed to generation, and the extractor that turns
//! them into the ordered attribute-field metadata of one record type.

use vstd::prelude::*;

use crate::element_type::ElementType;
use crate::element_type::GenError;
use crate::element_type::classify;
use crate::element_type::classify_spec;

verus! {

/// The declared type of one record field: a fixed-length array of a named
/// scalar type, or some other (non-array) type, kept only so a rejection can
/// name it.
#[derive(Debug, Clone, PartialEq, Eq)]
pub enum TypeDecl {
    Array { elem: String, len: u32 },
    Scalar(String),
}

/// One named-field declaration of a record, in declaration order.
#[derive(Debug, Clone, PartialEq, Eq)]
pub struct FieldDecl {
    pub name: Option<String>,
    pub ty: TypeDecl,
}

/// The extracted metadata of one accepted attribute field. Its declared
/// index is its position in the descriptor sequence.
#[derive(Debug, Clone, PartialEq, Eq)]
pub struct FieldDescriptor {
    pub name: String,
    pub element_count: u32,
    pub scalar_type: ElementType,
}

/// Whether one field declaration is accepted as an attribute field: it is
/// named, it is a fixed-length array, and its scalar type is supported.
pub open spec fn decl_ok(d: FieldDecl) -> bool {
    match d.ty {
        TypeDecl::Array { elem, .. } => d.name is Some && classify_spec(elem@) is Some,
        TypeDecl::Scalar(_) => false,
    }
}

/// The declared scalar (element) type name of a field declaration.
pub open spec fn decl_elem(d: FieldDecl) -> Seq<char> {
    match d.ty {
        TypeDecl::Array { elem, .. } => elem@,
        TypeDecl::Scalar(s) => s@,
    }
}

/// The descriptor extracted from an accepted declaration.
pub open spec fn decl_descriptor(d: FieldDecl) -> FieldDescriptor
    recommends
        decl_ok(d),
{
    match (d.name, d.ty) {
        (Some(n), TypeDecl::Array { elem, len }) => FieldDescriptor {
            name: n,
            element_count: len,
            scalar_type: match classify_spec(elem@) {
                Some(t) => t,
                None => arbitrary(),
            },
        },
        _ => arbitrary(),
    }
}

/// Whether `e` is the generation failure that the declaration `d`, standing
/// at declared position `idx`, provokes. False on accepted declarations.
/// A missing name is reported first, then a non-array type, then an
/// unsupported scalar.
pub open spec fn decl_error_matches(d: FieldDecl, idx: usize, e: GenError) -> bool {
    match d.name {
        None => e == GenError::UnnamedField(idx),
        Some(n) => match d.ty {
            TypeDecl::Scalar(_) => e matches GenError::NonArrayField(m) && m@ == n@,
            TypeDecl::Array { elem, .. } => classify_spec(elem@) is None && (e
                matches GenError::UnsupportedType(m) && m@ == elem@),
        },
    }
}

/// Extracts the ordered attribute-field descriptors from the record's field
/// declarations. Generation halts on the first offending field — unnamed,
/// non-array, or of an unsupported scalar type — and no descriptor sequence
/// is produced.
pub fn extract_fields(decls: &Vec<FieldDecl>) -> (r: Result<Vec<FieldDescriptor>, GenError>)
    ensures
        match r {
            Ok(fs) => {
                &&& fs@.len() == decls@.len()
                &&& forall|i: int| 0 <= i < decls@.len() ==> decl_ok(#[trigger] decls@[i])
                &&& forall|i: int|
                    0 <= i < decls@.len() ==> fs@[i] == decl_descriptor(#[trigger] decls@[i])
            },
            Err(e) => exists|i: int|
                {
                    &&& 0 <= i < decls@.len()
                    &&& decl_error_matches(#[trigger] decls@[i], i as usize, e)
                    &&& forall|j: int| 0 <= j < i ==> decl_ok(#[trigger] decls@[j])
                },
        },
{
    let mut fs: Vec<FieldDescriptor> = Vec::new();
    let n = decls.len();
    let mut i: usize = 0;
    while i < n
        invariant
            n == decls@.len(),
            i <= n,
            fs@.len() == i as int,
            forall|j: int| 0 <= j < i as int ==> decl_ok(#[trigger] decls@[j]),
            forall|j: int| 0 <= j < i as int ==> fs@[j] == decl_descriptor(#[trigger] decls@[j]),
        decreases n - i,
    {
        let d = &decls[i];
        match (&d.name, &d.ty) {
            (None, _) => {
                let e = GenError::UnnamedField(i);
                assert(decl_error_matches(decls@[i as int], i, e));
                return Err(e);
            },
            (Some(nm), TypeDecl::Scalar(_)) => {
                let e = GenError::NonArrayField(nm.clone());
                assert(decl_error_matches(decls@[i as int], i, e));
                return Err(e);
            },
            (Some(nm), TypeDecl::Array { elem, len }) => {
                match classify(elem.as_str()) {
                    Err(e) => {
                        assert(decl_error_matches(decls@[i as int], i, e));
                        return Err(e);
                    },
                    Ok(t) => {
                        fs.push(
                            FieldDescriptor {
                                name: nm.clone(),
                                element_count: *len,
                                scalar_type: t,
                            },
                        );
                    },
                }
            },
        }
        i = i + 1;
    }
    Ok(fs)
}

} // verus!
