//! Textual field-type declarations. A declared type arrives as the token
//! text of the field's type, without spaces; a fixed-length array of one
//! scalar reads `[scalar;len]`. This parser turns that text into the
//! structured type declaration the extractor consumes.

use vstd::prelude::*;
use vstd::string::StrSliceExecFns;

use crate::field::TypeDecl;

verus! {

/// Whether `c` is a decimal digit.
pub open spec fn is_digit(c: char) -> bool {
    '0' <= c && c <= '9'
}

/// The index of the first ';' at or past `i`.
pub open spec fn first_semi_from(s: Seq<char>, i: int) -> Option<int>
    decreases s.len() - i,
{
    if i < 0 || i >= s.len() {
        None
    } else if s[i] == ';' {
        Some(i)
    } else {
        first_semi_from(s, i + 1)
    }
}

/// Nonempty and all decimal digits.
pub open spec fn digits_ok(ds: Seq<char>) -> bool {
    ds.len() > 0 && forall|j: int| 0 <= j < ds.len() ==> is_digit(#[trigger] ds[j])
}

/// The decimal value a digit sequence denotes.
pub open spec fn digits_val(ds: Seq<char>) -> int
    decreases ds.len(),
{
    if ds.len() == 0 {
        0
    } else {
        digits_val(ds.drop_last()) * 10 + (ds.last() as int - '0' as int)
    }
}

/// Whether `s` reads as a fixed-length array type `[scalar;len]` — brackets
/// around a nonempty scalar name, then the first ';', then a nonempty digit
/// run whose value fits the element-count word.
pub open spec fn array_type_shape(s: Seq<char>) -> bool {
    &&& s.len() >= 5
    &&& s[0] == '['
    &&& s[s.len() - 1] == ']'
    &&& match first_semi_from(s, 1) {
        Some(k) => {
            &&& 1 < k
            &&& k + 2 < s.len()
            &&& digits_ok(s.subrange(k + 1, s.len() - 1))
            &&& digits_val(s.subrange(k + 1, s.len() - 1)) <= u32::MAX as int
        },
        None => false,
    }
}

/// The scalar name between the opening bracket and the first ';'.
pub open spec fn array_elem_of(s: Seq<char>) -> Seq<char> {
    match first_semi_from(s, 1) {
        Some(k) => s.subrange(1, k),
        None => Seq::empty(),
    }
}

/// The declared array length: the value of the digit run after the first ';'.
pub open spec fn array_len_of(s: Seq<char>) -> int {
    match first_semi_from(s, 1) {
        Some(k) => digits_val(s.subrange(k + 1, s.len() - 1)),
        None => 0,
    }
}

/// A digit sequence denotes a non-negative value, and no prefix denotes
/// more than the whole.
proof fn lemma_digits_prefix_le(ds: Seq<char>, i: int)
    requires
        0 <= i <= ds.len(),
        forall|j: int| 0 <= j < ds.len() ==> is_digit(#[trigger] ds[j]),
    ensures
        0 <= digits_val(ds.take(i)) <= digits_val(ds),
    decreases ds.len() - i,
{
    if i == ds.len() {
        assert(ds.take(i) =~= ds);
        lemma_digits_nonneg(ds);
    } else {
        lemma_digits_prefix_le(ds, i + 1);
        assert(ds.take(i + 1).drop_last() =~= ds.take(i));
        lemma_digits_nonneg(ds.take(i));
    }
}

proof fn lemma_digits_nonneg(ds: Seq<char>)
    requires
        forall|j: int| 0 <= j < ds.len() ==> is_digit(#[trigger] ds[j]),
    ensures
        digits_val(ds) >= 0,
    decreases ds.len(),
{
    if ds.len() > 0 {
        assert(ds.drop_last() =~= ds.take(ds.len() - 1));
        lemma_digits_nonneg(ds.drop_last());
    }
}

/// Parses the textual declared type of one field, written without spaces.
/// Text of the array form becomes the structured array declaration; any
/// other text is a non-array declared type, kept whole so a rejection can
/// name it.
pub fn parse_type_decl(s: &str) -> (t: TypeDecl)
    ensures
        match t {
            TypeDecl::Array { elem, len } => array_type_shape(s@) && elem@ == array_elem_of(s@)
                && len as int == array_len_of(s@),
            TypeDecl::Scalar(x) => !array_type_shape(s@) && x@ == s@,
        },
{
    let n = s.unicode_len();
    if n < 5 || s.get_char(0) != '[' || s.get_char(n - 1) != ']' {
        return TypeDecl::Scalar(s.to_owned());
    }
    let mut k: usize = 1;
    while k < n && s.get_char(k) != ';'
        invariant
            1 <= k <= n,
            n == s@.len(),
            first_semi_from(s@, 1) == first_semi_from(s@, k as int),
        decreases n - k,
    {
        k = k + 1;
    }
    if k >= n {
        return TypeDecl::Scalar(s.to_owned());
    }
    if k == 1 || k >= n - 2 {
        return TypeDecl::Scalar(s.to_owned());
    }
    let mut val: u64 = 0;
    let mut j: usize = k + 1;
    while j < n - 1
        invariant
            n == s@.len(),
            5 <= n,
            1 < k < n - 2 < usize::MAX,
            k + 1 <= j <= n - 1,
            s@[0] == '[',
            s@[n - 1] == ']',
            first_semi_from(s@, 1) == Some(k as int),
            forall|j2: int| k + 1 <= j2 < j as int ==> is_digit(#[trigger] s@[j2]),
            val as int == digits_val(s@.subrange(k + 1, j as int)),
            val <= u32::MAX as u64,
        decreases n - 1 - j,
    {
        let c = s.get_char(j);
        if !(c >= '0' && c <= '9') {
            proof {
                assert(s@.subrange(k + 1, n - 1)[j - (k + 1)] == s@[j as int]);
            }
            return TypeDecl::Scalar(s.to_owned());
        }
        let d: u64 = (c as u64) - ('0' as u64);
        let next: u64 = val * 10 + d;
        proof {
            assert(s@.subrange(k + 1, j as int + 1).drop_last() =~= s@.subrange(k + 1, j as int));
            assert(s@.subrange(k + 1, j as int + 1).last() == s@[j as int]);
        }
        if next > u32::MAX as u64 {
            proof {
                if array_type_shape(s@) {
                    let ds = s@.subrange(k + 1, n - 1);
                    assert(s@.subrange(k + 1, j as int + 1) =~= ds.take(j - k));
                    lemma_digits_prefix_le(ds, j - k);
                }
            }
            return TypeDecl::Scalar(s.to_owned());
        }
        val = next;
        j = j + 1;
    }
    let elem = s.substring_char(1, k).to_owned();
    TypeDecl::Array { elem, len: val as u32 }
}

} // verus!
