//! Interchange-level casts between physical types.
//!
//! When a caller's requested target schema differs from the naturally
//! derived one, the encoder applies a cast: integer widenings and string
//! or binary representation changes are computed here directly, and
//! floating-point narrowing or widening is delegated to the interchange
//! library, working on raw bit patterns.

use vstd::prelude::*;

use crate::array::{opt_match, opt_rel};

verus! {

/// The IEEE single-precision bit pattern that casting the double with the
/// given bit pattern produces (round to nearest, ties to even, overflow
/// to infinity). For a not-a-number input the language does not pin the
/// payload bits of the resulting not-a-number across platforms; nothing
/// proved here depends on them.
pub uninterp spec fn f32_bits_of_f64_bits(bits: u64) -> u32;

/// The IEEE double-precision bit pattern that exactly widening the single
/// with the given bit pattern produces, with the same caveat as
/// [`f32_bits_of_f64_bits`] for not-a-number payloads.
pub uninterp spec fn f64_bits_of_f32_bits(bits: u32) -> u64;

/// Relies on arrow_cast::cast from Float64 to Float32: the cast is the
/// hardware double-to-single conversion, applied value by value, and
/// never fails or nulls a slot.
#[verifier::external_body]
fn cast_bits_64_to_32(values: Vec<u64>) -> (r: Vec<u32>)
    ensures
        r@.len() == values@.len(),
        forall|i: int| 0 <= i < r@.len() ==> r@[i] == f32_bits_of_f64_bits(values@[i]),
{
    let n = values.len();
    let buffer = arrow_buffer::Buffer::from_vec(values);
    let array = arrow_array::Float64Array::new(arrow_buffer::ScalarBuffer::new(buffer, 0, n), None);
    let out = arrow_cast::cast(&array, &arrow_schema::DataType::Float32).unwrap();
    let data = out.to_data();
    let bytes = data.buffers()[0].as_slice();
    let mut r = Vec::with_capacity(n);
    for i in 0..n {
        r.push(u32::from_ne_bytes([bytes[4 * i], bytes[4 * i + 1], bytes[4 * i + 2], bytes[4 * i
            + 3]]));
    }
    r
}

/// Relies on arrow_cast::cast from Float32 to Float64: the cast is the
/// exact single-to-double widening, applied value by value, and never
/// fails or nulls a slot.
#[verifier::external_body]
fn cast_bits_32_to_64(values: Vec<u32>) -> (r: Vec<u64>)
    ensures
        r@.len() == values@.len(),
        forall|i: int| 0 <= i < r@.len() ==> r@[i] == f64_bits_of_f32_bits(values@[i]),
{
    let n = values.len();
    let buffer = arrow_buffer::Buffer::from_vec(values);
    let array = arrow_array::Float32Array::new(arrow_buffer::ScalarBuffer::new(buffer, 0, n), None);
    let out = arrow_cast::cast(&array, &arrow_schema::DataType::Float64).unwrap();
    let data = out.to_data();
    let bytes = data.buffers()[0].as_slice();
    let mut r = Vec::with_capacity(n);
    for i in 0..n {
        let mut b = [0u8; 8];
        for j in 0..8 {
            b[j] = bytes[8 * i + j];
        }
        r.push(u64::from_ne_bytes(b));
    }
    r
}

/// Casts a double-precision column to single precision, slot by slot,
/// preserving nulls.
pub fn cast_f64_col_to_f32(v: &Vec<Option<u64>>) -> (r: Vec<Option<u32>>)
    ensures
        opt_rel(v@, r@, |x: u64, y: u32| y == f32_bits_of_f64_bits(x)),
{
    let n = v.len();
    let mut dense: Vec<u64> = Vec::new();
    let mut i: usize = 0;
    while i < n
        invariant
            n == v@.len(),
            0 <= i <= n,
            dense@.len() == i,
            forall|j: int|
                0 <= j < i ==> (match #[trigger] v@[j] {
                    Some(x) => dense@[j] == x,
                    None => true,
                }),
        decreases n - i,
    {
        match v[i] {
            Some(x) => dense.push(x),
            None => dense.push(0),
        }
        i = i + 1;
    }
    let cast = cast_bits_64_to_32(dense);
    let mut r: Vec<Option<u32>> = Vec::new();
    let mut i: usize = 0;
    while i < n
        invariant
            n == v@.len(),
            cast@.len() == n,
            0 <= i <= n,
            r@.len() == i,
            forall|j: int|
                0 <= j < n ==> (match #[trigger] v@[j] {
                    Some(x) => cast@[j] == f32_bits_of_f64_bits(x),
                    None => true,
                }),
            forall|j: int|
                0 <= j < i ==> opt_match(#[trigger] v@[j], r@[j], |x: u64, y: u32| y == f32_bits_of_f64_bits(x)),
        decreases n - i,
    {
        match v[i] {
            Some(_) => r.push(Some(cast[i])),
            None => r.push(None),
        }
        i = i + 1;
    }
    r
}

/// Casts a single-precision column to double precision, slot by slot,
/// preserving nulls.
pub fn cast_f32_col_to_f64(v: &Vec<Option<u32>>) -> (r: Vec<Option<u64>>)
    ensures
        opt_rel(v@, r@, |x: u32, y: u64| y == f64_bits_of_f32_bits(x)),
{
    let n = v.len();
    let mut dense: Vec<u32> = Vec::new();
    let mut i: usize = 0;
    while i < n
        invariant
            n == v@.len(),
            0 <= i <= n,
            dense@.len() == i,
            forall|j: int|
                0 <= j < i ==> (match #[trigger] v@[j] {
                    Some(x) => dense@[j] == x,
                    None => true,
                }),
        decreases n - i,
    {
        match v[i] {
            Some(x) => dense.push(x),
            None => dense.push(0),
        }
        i = i + 1;
    }
    let cast = cast_bits_32_to_64(dense);
    let mut r: Vec<Option<u64>> = Vec::new();
    let mut i: usize = 0;
    while i < n
        invariant
            n == v@.len(),
            cast@.len() == n,
            0 <= i <= n,
            r@.len() == i,
            forall|j: int|
                0 <= j < n ==> (match #[trigger] v@[j] {
                    Some(x) => cast@[j] == f64_bits_of_f32_bits(x),
                    None => true,
                }),
            forall|j: int|
                0 <= j < i ==> opt_match(#[trigger] v@[j], r@[j], |x: u32, y: u64| y == f64_bits_of_f32_bits(x)),
        decreases n - i,
    {
        match v[i] {
            Some(_) => r.push(Some(cast[i])),
            None => r.push(None),
        }
        i = i + 1;
    }
    r
}

} // verus!
