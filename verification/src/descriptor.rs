//! The baked vertex descriptor: an immutable table of attribute-field
//! metadata and precomputed offsets, built once per record type, answering
//! the five layout queries a rendering pipeline needs.

use vstd::prelude::*;

use crate::element_type::ElementType;
use crate::element_type::GenError;
use crate::element_type::classify_spec;
use crate::element_type::str_eq;
use crate::element_type::width_of;
use crate::field::FieldDecl;
use crate::field::FieldDescriptor;
use crate::field::decl_descriptor;
use crate::field::decl_elem;
use crate::field::decl_error_matches;
use crate::field::decl_ok;
use crate::field::extract_fields;
use crate::layout::compute_offsets;
use crate::layout::decls_total_bytes;
use crate::layout::lemma_decls_bytes_match;
use crate::layout::lemma_offset_monotone;
use crate::layout::offset_of;
use crate::layout::total_bytes;

verus! {

/// A runtime query failure: the caller asked about a field the record does
/// not have.
#[derive(Debug, Clone, Copy, PartialEq, Eq, Structural)]
pub enum QueryError {
    InvalidIndex,
    InvalidFieldName,
}

/// The index of the first field at or past `i` whose name reads `name`.
pub open spec fn position_from(fs: Seq<FieldDescriptor>, name: Seq<char>, i: int) -> Option<int>
    decreases fs.len() - i,
{
    if i < 0 || i >= fs.len() {
        None
    } else if fs[i].name@ == name {
        Some(i)
    } else {
        position_from(fs, name, i + 1)
    }
}

/// The descriptor table of one vertex record type. Validation and offset
/// arithmetic happen once, in `generate`; the queries only read the result,
/// so each answer is a pure function of the table and the argument, and
/// repeated calls with identical inputs yield identical outputs.
pub struct VertexDescriptor {
    fields: Vec<FieldDescriptor>,
    offsets: Vec<u64>,
    stride: u64,
}

impl VertexDescriptor {
    /// The ordered attribute-field metadata baked into this descriptor.
    pub closed spec fn descriptors(self) -> Seq<FieldDescriptor> {
        self.fields@
    }

    /// How many attribute fields the record declares.
    pub open spec fn field_count(self) -> nat {
        self.descriptors().len()
    }

    /// The baked offsets and stride agree with the packed layout of the
    /// field sequence. Holds of every descriptor `generate` produces.
    #[verifier::type_invariant]
    pub closed spec fn wf(self) -> bool {
        &&& self.offsets@.len() == self.fields@.len()
        &&& forall|i: int|
            0 <= i < self.fields@.len() ==> #[trigger] self.offsets@[i] as int == offset_of(
                self.fields@,
                i,
            )
        &&& self.stride as int == total_bytes(self.fields@)
    }

    pub open spec fn element_size_spec(self, index: int) -> Result<u32, QueryError> {
        if 0 <= index < self.descriptors().len() {
            Ok(self.descriptors()[index].element_count)
        } else {
            Err(QueryError::InvalidIndex)
        }
    }

    pub open spec fn element_type_spec(self, index: int) -> Result<ElementType, QueryError> {
        if 0 <= index < self.descriptors().len() {
            Ok(self.descriptors()[index].scalar_type)
        } else {
            Err(QueryError::InvalidIndex)
        }
    }

    pub open spec fn element_pointer_spec(self, index: int) -> Result<u64, QueryError> {
        if 0 <= index < self.descriptors().len() {
            Ok(offset_of(self.descriptors(), index) as u64)
        } else {
            Err(QueryError::InvalidIndex)
        }
    }

    pub open spec fn element_stride_spec(self) -> u64 {
        total_bytes(self.descriptors()) as u64
    }

    pub open spec fn field_position_spec(self, name: Seq<char>) -> Result<usize, QueryError> {
        match position_from(self.descriptors(), name, 0) {
            Some(i) => Ok(i as usize),
            None => Err(QueryError::InvalidFieldName),
        }
    }

    /// Builds the descriptor table for one record type: validates every
    /// field declaration, classifies each scalar, and precomputes all
    /// offsets and the stride. Fails on the first offending field, before
    /// any table is produced. The byte-size bound is a machine limit: the
    /// stride must fit the offset word handed to the rendering hardware.
    pub fn generate(decls: Vec<FieldDecl>) -> (r: Result<VertexDescriptor, GenError>)
        requires
            decls_total_bytes(decls@) <= u64::MAX as int,
        ensures
            match r {
                Ok(vd) => {
                    &&& vd.descriptors().len() == decls@.len()
                    &&& forall|i: int| 0 <= i < decls@.len() ==> decl_ok(#[trigger] decls@[i])
                    &&& forall|i: int|
                        0 <= i < decls@.len() ==> vd.descriptors()[i] == decl_descriptor(
                            #[trigger] decls@[i],
                        )
                },
                Err(e) => exists|i: int|
                    {
                        &&& 0 <= i < decls@.len()
                        &&& decl_error_matches(#[trigger] decls@[i], i as usize, e)
                        &&& forall|j: int| 0 <= j < i ==> decl_ok(#[trigger] decls@[j])
                    },
            },
    {
        let fields = match extract_fields(&decls) {
            Ok(fs) => fs,
            Err(e) => {
                return Err(e);
            },
        };
        proof {
            lemma_decls_bytes_match(decls@, fields@, decls@.len() as int);
        }
        let (offsets, stride) = compute_offsets(&fields);
        Ok(VertexDescriptor { fields, offsets, stride })
    }

    /// Number of scalar elements in the field at `index`; any index outside
    /// the field range is an invalid-index error.
    pub fn element_size(&self, index: usize) -> (r: Result<u32, QueryError>)
        ensures
            r == self.element_size_spec(index as int),
    {
        if index < self.fields.len() {
            Ok(self.fields[index].element_count)
        } else {
            Err(QueryError::InvalidIndex)
        }
    }

    /// Element type tag of the field at `index`; any index outside the
    /// field range is an invalid-index error.
    pub fn element_type(&self, index: usize) -> (r: Result<ElementType, QueryError>)
        ensures
            r == self.element_type_spec(index as int),
    {
        if index < self.fields.len() {
            Ok(self.fields[index].scalar_type)
        } else {
            Err(QueryError::InvalidIndex)
        }
    }

    /// Fixed total byte size of one record instance. Takes no index and
    /// cannot fail.
    pub fn element_stride(&self) -> (r: u64)
        ensures
            r == self.element_stride_spec(),
    {
        proof {
            use_type_invariant(&*self);
        }
        self.stride
    }

    /// Precomputed packed byte offset of the field at `index`, meant to be
    /// read as an offset from a buffer's base address; any index outside
    /// the field range is an invalid-index error.
    pub fn element_pointer(&self, index: usize) -> (r: Result<u64, QueryError>)
        ensures
            r == self.element_pointer_spec(index as int),
    {
        proof {
            use_type_invariant(&*self);
        }
        if index < self.offsets.len() {
            proof {
                lemma_offset_monotone(self.fields@, 0, index as int);
                lemma_offset_monotone(self.fields@, index as int, self.fields@.len() as int);
            }
            Ok(self.offsets[index])
        } else {
            Err(QueryError::InvalidIndex)
        }
    }

    /// Declared position of the attribute field whose name reads `name`;
    /// any name no field bears is an invalid-field-name error.
    pub fn field_position(&self, name: &str) -> (r: Result<usize, QueryError>)
        ensures
            r == self.field_position_spec(name@),
    {
        let n = self.fields.len();
        let mut i: usize = 0;
        while i < n
            invariant
                n == self.fields@.len(),
                i <= n,
                position_from(self.fields@, name@, 0) == position_from(
                    self.fields@,
                    name@,
                    i as int,
                ),
            decreases n - i,
        {
            if str_eq(self.fields[i].name.as_str(), name) {
                return Ok(i);
            }
            i = i + 1;
        }
        Err(QueryError::InvalidFieldName)
    }
}

/// Pairwise-distinct attribute-field names, as every record type has.
pub open spec fn distinct_names(fs: Seq<FieldDescriptor>) -> bool {
    forall|i: int, j: int|
        0 <= i < j < fs.len() ==> #[trigger] fs[i].name@ != #[trigger] fs[j].name@
}

proof fn lemma_position_from_finds(fs: Seq<FieldDescriptor>, i: int, k: int)
    requires
        distinct_names(fs),
        0 <= k <= i < fs.len(),
    ensures
        position_from(fs, fs[i].name@, k) == Some(i),
    decreases i - k,
{
    if k < i {
        lemma_position_from_finds(fs, i, k + 1);
    }
}

proof fn lemma_position_from_none(fs: Seq<FieldDescriptor>, name: Seq<char>, k: int)
    requires
        forall|i: int| 0 <= i < fs.len() ==> #[trigger] fs[i].name@ != name,
        0 <= k,
    ensures
        position_from(fs, name, k) is None,
    decreases fs.len() - k,
{
    if k < fs.len() {
        lemma_position_from_none(fs, name, k + 1);
    }
}

/// Law: name lookup inverts declaration order. For a record whose attribute
/// fields bear pairwise-distinct names, looking up the name of the field
/// declared at position `i` answers exactly `i`.
pub proof fn lemma_field_position_inverse(d: VertexDescriptor, i: int)
    requires
        distinct_names(d.descriptors()),
        0 <= i < d.field_count(),
    ensures
        d.field_position_spec(d.descriptors()[i].name@) == Ok::<usize, QueryError>(i as usize),
{
    lemma_position_from_finds(d.descriptors(), i, 0);
}

/// Law: the first field sits at offset zero.
pub proof fn lemma_pointer_zero(d: VertexDescriptor)
    requires
        d.field_count() > 0,
    ensures
        d.element_pointer_spec(0) == Ok::<u64, QueryError>(0u64),
{
}

/// Law: fields are packed with no padding. Each field past the first sits
/// exactly one field's byte size after its predecessor: its pointer is the
/// predecessor's pointer plus the predecessor's element count times the
/// byte width of the predecessor's element type.
pub proof fn lemma_pointer_recurrence(d: VertexDescriptor, i: int)
    requires
        d.wf(),
        1 <= i < d.field_count(),
    ensures
        ({
            d.element_pointer_spec(i) matches Ok(p) && d.element_pointer_spec(i - 1) matches Ok(
                prev,
            ) && d.element_size_spec(i - 1) matches Ok(c) && d.element_type_spec(i - 1) matches Ok(
                t,
            ) && p as int == prev as int + c as int * (width_of(t) as int)
        }),
{
    lemma_offset_monotone(d.descriptors(), 0, i - 1);
    lemma_offset_monotone(d.descriptors(), i, d.descriptors().len() as int);
}

/// Law: the stride is the full packed byte size of one record instance —
/// the summed byte sizes of all its fields — and depends on no index.
pub proof fn lemma_stride_is_total_size(d: VertexDescriptor)
    requires
        d.wf(),
    ensures
        d.element_stride_spec() as int == total_bytes(d.descriptors()),
{
}

/// Law: the generated table classifies, it does not invent. When generation
/// accepts a declaration sequence, the element-type query answers, for each
/// field, exactly the closed-mapping classification of that field's
/// declared scalar type name.
pub proof fn lemma_element_type_is_classification(
    vd: VertexDescriptor,
    decls: Seq<FieldDecl>,
    i: int,
)
    requires
        vd.descriptors().len() == decls.len(),
        forall|j: int| 0 <= j < decls.len() ==> decl_ok(#[trigger] decls[j]),
        forall|j: int|
            0 <= j < decls.len() ==> vd.descriptors()[j] == decl_descriptor(#[trigger] decls[j]),
        0 <= i < decls.len(),
    ensures
        ({
            classify_spec(decl_elem(decls[i])) matches Some(t)
                && vd.element_type_spec(i) == Ok::<ElementType, QueryError>(t)
        }),
{
}

/// Law: every out-of-range index is answered with the invalid-index error
/// by all three indexed queries.
pub proof fn lemma_out_of_range_index(d: VertexDescriptor, index: int)
    requires
        !(0 <= index < d.field_count()),
    ensures
        d.element_size_spec(index) == Err::<u32, QueryError>(QueryError::InvalidIndex),
        d.element_type_spec(index) == Err::<ElementType, QueryError>(QueryError::InvalidIndex),
        d.element_pointer_spec(index) == Err::<u64, QueryError>(QueryError::InvalidIndex),
{
}

/// Law: a name that no attribute field bears is answered with the
/// invalid-field-name error.
pub proof fn lemma_unknown_name(d: VertexDescriptor, name: Seq<char>)
    requires
        forall|i: int| 0 <= i < d.field_count() ==> #[trigger] d.descriptors()[i].name@ != name,
    ensures
        d.field_position_spec(name) == Err::<usize, QueryError>(QueryError::InvalidFieldName),
{
    lemma_position_from_none(d.descriptors(), name, 0);
}

} // verus!
