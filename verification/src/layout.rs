//! Packed byte offsets: each field's offset is the summed byte size of all
//! fields before it in declaration order, with no alignment padding.

use vstd::prelude::*;

use crate::element_type::width_of;
use crate::field::FieldDecl;
use crate::field::FieldDescriptor;
use crate::field::decl_descriptor;
use crate::field::decl_ok;

verus! {

/// Total byte size of one field: its element count times its scalar width.
pub open spec fn field_bytes(f: FieldDescriptor) -> nat {
    f.element_count as nat * width_of(f.scalar_type)
}

/// Packed byte offset of field `i`: zero for the first field, and the
/// previous field's offset plus the previous field's byte size after that.
pub open spec fn offset_of(fs: Seq<FieldDescriptor>, i: int) -> int
    decreases i,
{
    if i <= 0 {
        0
    } else {
        offset_of(fs, i - 1) + field_bytes(fs[i - 1])
    }
}

/// Total packed byte size of the whole record: its stride.
pub open spec fn total_bytes(fs: Seq<FieldDescriptor>) -> int {
    offset_of(fs, fs.len() as int)
}

/// Byte size contributed by one declaration: its field's byte size where it
/// is accepted, zero where generation would reject it anyway.
pub open spec fn decl_bytes(d: FieldDecl) -> nat {
    if decl_ok(d) {
        field_bytes(decl_descriptor(d))
    } else {
        0
    }
}

/// Summed byte sizes of the first `i` declarations.
pub open spec fn decls_bytes(decls: Seq<FieldDecl>, i: int) -> int
    decreases i,
{
    if i <= 0 {
        0
    } else {
        decls_bytes(decls, i - 1) + decl_bytes(decls[i - 1])
    }
}

/// Summed byte sizes of all declarations: the stride the record would have.
pub open spec fn decls_total_bytes(decls: Seq<FieldDecl>) -> int {
    decls_bytes(decls, decls.len() as int)
}

/// Offsets never decrease along the field sequence.
pub proof fn lemma_offset_monotone(fs: Seq<FieldDescriptor>, i: int, j: int)
    requires
        i <= j,
    ensures
        offset_of(fs, i) <= offset_of(fs, j),
    decreases j - i,
{
    if i < j {
        lemma_offset_monotone(fs, i, j - 1);
    }
}

/// Offsets of descriptors extracted from accepted declarations agree with
/// the byte sums of the declarations themselves.
pub proof fn lemma_decls_bytes_match(decls: Seq<FieldDecl>, fs: Seq<FieldDescriptor>, i: int)
    requires
        fs.len() == decls.len(),
        forall|j: int| 0 <= j < decls.len() ==> decl_ok(#[trigger] decls[j]),
        forall|j: int| 0 <= j < decls.len() ==> fs[j] == decl_descriptor(#[trigger] decls[j]),
        i <= decls.len(),
    ensures
        offset_of(fs, i) == decls_bytes(decls, i),
    decreases i,
{
    if i > 0 {
        lemma_decls_bytes_match(decls, fs, i - 1);
    }
}

/// Computes every field's packed byte offset and the record's stride in one
/// forward pass over the descriptor sequence.
pub fn compute_offsets(fs: &Vec<FieldDescriptor>) -> (r: (Vec<u64>, u64))
    requires
        total_bytes(fs@) <= u64::MAX as int,
    ensures
        r.0@.len() == fs@.len(),
        forall|i: int| 0 <= i < fs@.len() ==> #[trigger] r.0@[i] as int == offset_of(fs@, i),
        r.1 as int == total_bytes(fs@),
{
    let mut offsets: Vec<u64> = Vec::new();
    let mut acc: u64 = 0;
    let n = fs.len();
    let mut i: usize = 0;
    while i < n
        invariant
            total_bytes(fs@) <= u64::MAX as int,
            n == fs@.len(),
            i <= n,
            offsets@.len() == i as int,
            forall|j: int| 0 <= j < i as int ==> #[trigger] offsets@[j] as int == offset_of(fs@, j),
            acc as int == offset_of(fs@, i as int),
        decreases n - i,
    {
        offsets.push(acc);
        let f = &fs[i];
        let w: u32 = f.scalar_type.byte_width();
        proof {
            assert(w <= 4);
            assert((f.element_count as int) * (w as int) <= 0xFFFF_FFFF * 4) by (nonlinear_arith)
                requires
                    f.element_count <= 0xFFFF_FFFFu32,
                    0 <= w <= 4,
            ;
            lemma_offset_monotone(fs@, i as int + 1, fs@.len() as int);
        }
        let bytes: u64 = (f.element_count as u64) * (w as u64);
        acc = acc + bytes;
        i = i + 1;
    }
    (offsets, acc)
}

} // verus!
