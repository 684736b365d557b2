//! Compaction: materializing only the visible rows of a batch.
//!
//! A batch may carry a visibility mask selecting rows that are logically
//! present but not yet dense. The interchange format has no such concept,
//! so the encoder requires compaction first: keep the visible rows in
//! order, preserving per-row validity, and rebuild list offsets and child
//! arrays so the result is dense.

use vstd::prelude::*;

use crate::array::{Array, InternalBatch, ListArray, StructArray};

verus! {

/// How many of the first `upto` rows the mask keeps.
pub open spec fn mask_count(keep: Seq<bool>, upto: int) -> int
    decreases upto,
{
    if upto <= 0 {
        0
    } else {
        mask_count(keep, upto - 1) + (if keep[upto - 1] {
            1int
        } else {
            0int
        })
    }
}

/// The kept-row count never exceeds the row count and never decreases.
pub proof fn lemma_mask_count_bounds(keep: Seq<bool>, upto: int)
    requires
        0 <= upto,
    ensures
        0 <= mask_count(keep, upto) <= upto,
    decreases upto,
{
    if upto > 0 {
        lemma_mask_count_bounds(keep, upto - 1);
    }
}

/// Over a run of slots that all share one mask value, the kept count
/// grows by the run length or not at all.
pub proof fn lemma_mask_count_run(keep: Seq<bool>, s: int, t: int, b: bool)
    requires
        0 <= s <= t,
        forall|j: int| s <= j < t ==> keep[j] == b,
    ensures
        mask_count(keep, t) == mask_count(keep, s) + (if b {
            t - s
        } else {
            0int
        }),
    decreases t - s,
{
    if t > s {
        lemma_mask_count_run(keep, s, t - 1, b);
    }
}

/// Equality of the cell at row `i` of `a` and row `j` of `b`: same
/// nullness and, for a value, the same value; list cells compare their
/// element runs, struct cells compare each child's cell.
pub open spec fn cell_eq(a: Array, i: int, b: Array, j: int) -> bool
    decreases a, 0int, 0int,
{
    match (a, b) {
        (Array::Bool(v), Array::Bool(w)) => v@[i] == w@[j],
        (Array::Int16(v), Array::Int16(w)) => v@[i] == w@[j],
        (Array::Int32(v), Array::Int32(w)) => v@[i] == w@[j],
        (Array::Int64(v), Array::Int64(w)) => v@[i] == w@[j],
        (Array::Int256(v), Array::Int256(w)) => v@[i] == w@[j],
        (Array::Float32(v), Array::Float32(w)) => v@[i] == w@[j],
        (Array::Float64(v), Array::Float64(w)) => v@[i] == w@[j],
        (Array::Date(v), Array::Date(w)) => v@[i] == w@[j],
        (Array::Time(v), Array::Time(w)) => v@[i] == w@[j],
        (Array::Timestamp(v), Array::Timestamp(w)) => v@[i] == w@[j],
        (Array::Timestamptz(v), Array::Timestamptz(w)) => v@[i] == w@[j],
        (Array::Interval(v), Array::Interval(w)) => v@[i] == w@[j],
        (Array::Serial(v), Array::Serial(w)) => v@[i] == w@[j],
        (Array::Decimal(v), Array::Decimal(w)) => v@[i] == w@[j],
        (Array::Utf8(v), Array::Utf8(w)) => crate::array::opt_match(
            v@[i],
            w@[j],
            |x: String, y: String| x@ == y@,
        ),
        (Array::Bytea(v), Array::Bytea(w)) => crate::array::opt_match(
            v@[i],
            w@[j],
            |x: Vec<u8>, y: Vec<u8>| x@ == y@,
        ),
        (Array::Jsonb(v), Array::Jsonb(w)) => crate::array::opt_match(
            v@[i],
            w@[j],
            |x: crate::jsonb::Jsonb, y: crate::jsonb::Jsonb| x@ == y@,
        ),
        (Array::List(l), Array::List(m)) => {
            &&& l.validity@[i] == m.validity@[j]
            &&& l.offsets@[i + 1] - l.offsets@[i] == m.offsets@[j + 1] - m.offsets@[j]
            &&& run_eq(
                *l.value,
                l.offsets@[i] as int,
                *m.value,
                m.offsets@[j] as int,
                l.offsets@[i + 1] - l.offsets@[i],
            )
        },
        (Array::Struct(s), Array::Struct(t)) => {
            &&& s.validity@[i] == t.validity@[j]
            &&& s.children@.len() == t.children@.len()
            &&& forall|c: int|
                0 <= c < s.children@.len() ==> cell_eq(
                    #[trigger] s.children@[c],
                    i,
                    t.children@[c],
                    j,
                )
        },
        _ => false,
    }
}

/// Equality of a run of `len` cells of `a` starting at `s1` with the run
/// of `b` starting at `s2`.
pub open spec fn run_eq(a: Array, s1: int, b: Array, s2: int, len: int) -> bool
    decreases a, 1int, len,
{
    if len <= 0 {
        true
    } else {
        run_eq(a, s1, b, s2, len - 1) && cell_eq(a, s1 + (len - 1), b, s2 + (len - 1))
    }
}

/// A run is equal when each of its cells is.
pub proof fn lemma_run_eq_intro(a: Array, s1: int, b: Array, s2: int, len: int)
    requires
        forall|k: int| 0 <= k < len ==> #[trigger] cell_eq(a, s1 + k, b, s2 + k),
    ensures
        run_eq(a, s1, b, s2, len),
    decreases len,
{
    if len > 0 {
        lemma_run_eq_intro(a, s1, b, s2, len - 1);
        assert(cell_eq(a, s1 + (len - 1), b, s2 + (len - 1)));
    }
}

/// Array-level structure that rows do not carry: the variant, and struct
/// field names, recursively.
pub open spec fn same_shape(a: Array, b: Array) -> bool
    decreases a,
{
    match (a, b) {
        (Array::Bool(_), Array::Bool(_)) => true,
        (Array::Int16(_), Array::Int16(_)) => true,
        (Array::Int32(_), Array::Int32(_)) => true,
        (Array::Int64(_), Array::Int64(_)) => true,
        (Array::Int256(_), Array::Int256(_)) => true,
        (Array::Float32(_), Array::Float32(_)) => true,
        (Array::Float64(_), Array::Float64(_)) => true,
        (Array::Date(_), Array::Date(_)) => true,
        (Array::Time(_), Array::Time(_)) => true,
        (Array::Timestamp(_), Array::Timestamp(_)) => true,
        (Array::Timestamptz(_), Array::Timestamptz(_)) => true,
        (Array::Interval(_), Array::Interval(_)) => true,
        (Array::Serial(_), Array::Serial(_)) => true,
        (Array::Decimal(_), Array::Decimal(_)) => true,
        (Array::Utf8(_), Array::Utf8(_)) => true,
        (Array::Bytea(_), Array::Bytea(_)) => true,
        (Array::Jsonb(_), Array::Jsonb(_)) => true,
        (Array::List(l), Array::List(m)) => same_shape(*l.value, *m.value),
        (Array::Struct(s), Array::Struct(t)) => {
            &&& s.children@.len() == t.children@.len()
            &&& s.field_names@.len() == t.field_names@.len()
            &&& forall|c: int|
                0 <= c < s.field_names@.len() ==> (#[trigger] s.field_names@[c])@
                    == t.field_names@[c]@
            &&& forall|c: int|
                0 <= c < s.children@.len() ==> same_shape(#[trigger] s.children@[c], t.children@[c])
        },
        _ => false,
    }
}

/// Whether `out` holds exactly the rows of `a` that `keep` keeps, in
/// order, with the same values and nullness.
pub open spec fn compacted_rel(a: Array, keep: Seq<bool>, out: Array) -> bool {
    &&& same_shape(a, out)
    &&& out.spec_len() == mask_count(keep, keep.len() as int)
    &&& forall|i: int|
        0 <= i < keep.len() && keep[i] ==> #[trigger] cell_eq(a, i, out, mask_count(keep, i))
}

/// A mask of all ones keeps every row.
pub proof fn lemma_mask_count_all(keep: Seq<bool>)
    requires
        forall|i: int| 0 <= i < keep.len() ==> keep[i],
    ensures
        mask_count(keep, keep.len() as int) == keep.len(),
{
    lemma_mask_count_run(keep, 0, keep.len() as int, true);
}

/// The kept count never decreases as the prefix grows.
pub proof fn lemma_mask_count_mono(keep: Seq<bool>, s: int, t: int)
    requires
        0 <= s <= t,
    ensures
        mask_count(keep, s) <= mask_count(keep, t),
    decreases t - s,
{
    if t > s {
        lemma_mask_count_mono(keep, s, t - 1);
    }
}

/// The first `upto` slots of `s`, keeping only those the mask keeps, in
/// order.
pub open spec fn mask_filter<T>(s: Seq<T>, keep: Seq<bool>, upto: int) -> Seq<T>
    decreases upto,
{
    if upto <= 0 {
        Seq::empty()
    } else {
        let rest = mask_filter(s, keep, upto - 1);
        if keep[upto - 1] {
            rest.push(s[upto - 1])
        } else {
            rest
        }
    }
}

/// The filtered prefix holds exactly the kept count of slots.
pub proof fn lemma_mask_filter_len<T>(s: Seq<T>, keep: Seq<bool>, upto: int)
    requires
        0 <= upto,
    ensures
        mask_filter(s, keep, upto).len() == mask_count(keep, upto),
    decreases upto,
{
    if upto > 0 {
        lemma_mask_filter_len(s, keep, upto - 1);
    }
}

/// A kept slot `j` lands at position `mask_count(keep, j)` of the
/// filtered sequence, unchanged.
pub proof fn lemma_mask_filter_index<T>(s: Seq<T>, keep: Seq<bool>, upto: int, j: int)
    requires
        0 <= j < upto,
        keep[j],
    ensures
        0 <= mask_count(keep, j) < mask_filter(s, keep, upto).len(),
        mask_filter(s, keep, upto)[mask_count(keep, j)] == s[j],
    decreases upto,
{
    lemma_mask_count_bounds(keep, j);
    lemma_mask_filter_len(s, keep, upto);
    lemma_mask_count_mono(keep, j + 1, upto);
    if j == upto - 1 {
    } else {
        lemma_mask_filter_index(s, keep, upto - 1, j);
    }
}

/// The per-slot views of an optional-value sequence.
pub open spec fn opt_views<T: View>(s: Seq<Option<T>>) -> Seq<Option<T::V>> {
    s.map_values(
        |o: Option<T>|
            match o {
                Some(x) => Some(x@),
                None => None,
            },
    )
}

/// Filters a validity vector by the mask.
fn filter_bools(v: &Vec<bool>, keep: &Vec<bool>) -> (r: Vec<bool>)
    requires
        v@.len() == keep@.len(),
    ensures
        r@ == mask_filter(v@, keep@, keep@.len() as int),
{
    let n = v.len();
    let mut r: Vec<bool> = Vec::new();
    let mut i: usize = 0;
    while i < n
        invariant
            n == v@.len(),
            n == keep@.len(),
            0 <= i <= n,
            r@ == mask_filter(v@, keep@, i as int),
        decreases n - i,
    {
        if keep[i] {
            r.push(v[i]);
        }
        i = i + 1;
    }
    r
}

/// Filters an optional-value column of copyable values by the mask.
fn filter_copy<T: Copy>(v: &Vec<Option<T>>, keep: &Vec<bool>) -> (r: Vec<Option<T>>)
    requires
        v@.len() == keep@.len(),
    ensures
        r@ == mask_filter(v@, keep@, keep@.len() as int),
{
    let n = v.len();
    let mut r: Vec<Option<T>> = Vec::new();
    let mut i: usize = 0;
    while i < n
        invariant
            n == v@.len(),
            n == keep@.len(),
            0 <= i <= n,
            r@ == mask_filter(v@, keep@, i as int),
        decreases n - i,
    {
        if keep[i] {
            r.push(v[i]);
        }
        i = i + 1;
    }
    r
}

/// Filters a string column by the mask, preserving each kept string's
/// characters.
fn filter_strings(v: &Vec<Option<String>>, keep: &Vec<bool>) -> (r: Vec<Option<String>>)
    requires
        v@.len() == keep@.len(),
    ensures
        opt_views(r@) == mask_filter(opt_views(v@), keep@, keep@.len() as int),
{
    let n = v.len();
    let mut r: Vec<Option<String>> = Vec::new();
    let mut i: usize = 0;
    while i < n
        invariant
            n == v@.len(),
            n == keep@.len(),
            0 <= i <= n,
            opt_views(r@) == mask_filter(opt_views(v@), keep@, i as int),
        decreases n - i,
    {
        let ghost prev = r@;
        if keep[i] {
            match &v[i] {
                Some(s) => r.push(Some(s.clone())),
                None => r.push(None),
            }
            proof {
                assert(opt_views(r@) =~= mask_filter(opt_views(v@), keep@, i as int).push(
                    opt_views(v@)[i as int],
                ));
            }
        }
        i = i + 1;
    }
    r
}

/// Filters a binary column by the mask, preserving each kept value's
/// bytes.
fn filter_bytes(v: &Vec<Option<Vec<u8>>>, keep: &Vec<bool>) -> (r: Vec<Option<Vec<u8>>>)
    requires
        v@.len() == keep@.len(),
    ensures
        opt_views(r@) == mask_filter(opt_views(v@), keep@, keep@.len() as int),
{
    let n = v.len();
    let mut r: Vec<Option<Vec<u8>>> = Vec::new();
    let mut i: usize = 0;
    while i < n
        invariant
            n == v@.len(),
            n == keep@.len(),
            0 <= i <= n,
            opt_views(r@) == mask_filter(opt_views(v@), keep@, i as int),
        decreases n - i,
    {
        if keep[i] {
            match &v[i] {
                Some(b) => {
                    let mut nb: Vec<u8> = Vec::new();
                    let m = b.len();
                    let mut k: usize = 0;
                    while k < m
                        invariant
                            m == b@.len(),
                            0 <= k <= m,
                            nb@ =~= b@.subrange(0, k as int),
                        decreases m - k,
                    {
                        nb.push(b[k]);
                        k = k + 1;
                    }
                    proof {
                        assert(nb@ =~= b@);
                    }
                    r.push(Some(nb));
                },
                None => r.push(None),
            }
            proof {
                assert(opt_views(r@) =~= mask_filter(opt_views(v@), keep@, i as int).push(
                    opt_views(v@)[i as int],
                ));
            }
        }
        i = i + 1;
    }
    r
}

/// Filters a JSON column by the mask, preserving each kept value's
/// canonical text.
fn filter_jsonbs(v: &Vec<Option<crate::jsonb::Jsonb>>, keep: &Vec<bool>) -> (r: Vec<
    Option<crate::jsonb::Jsonb>,
>)
    requires
        v@.len() == keep@.len(),
    ensures
        opt_views(r@) == mask_filter(opt_views(v@), keep@, keep@.len() as int),
{
    let n = v.len();
    let mut r: Vec<Option<crate::jsonb::Jsonb>> = Vec::new();
    let mut i: usize = 0;
    while i < n
        invariant
            n == v@.len(),
            n == keep@.len(),
            0 <= i <= n,
            opt_views(r@) == mask_filter(opt_views(v@), keep@, i as int),
        decreases n - i,
    {
        if keep[i] {
            match &v[i] {
                Some(jv) => r.push(Some(jv.clone())),
                None => r.push(None),
            }
            proof {
                assert(opt_views(r@) =~= mask_filter(opt_views(v@), keep@, i as int).push(
                    opt_views(v@)[i as int],
                ));
            }
        }
        i = i + 1;
    }
    r
}

/// Every element of a filtered sequence comes from the source.
pub proof fn lemma_mask_filter_contains<T>(s: Seq<T>, keep: Seq<bool>, upto: int, idx: int)
    requires
        0 <= upto <= s.len(),
        0 <= idx < mask_filter(s, keep, upto).len(),
    ensures
        exists|j: int| 0 <= j < upto && s[j] == mask_filter(s, keep, upto)[idx],
    decreases upto,
{
    if upto > 0 {
        let rest = mask_filter(s, keep, upto - 1);
        if keep[upto - 1] && idx == rest.len() {
            assert(s[upto - 1] == mask_filter(s, keep, upto)[idx]);
        } else {
            lemma_mask_filter_contains(s, keep, upto - 1, idx);
        }
    }
}

/// The per-element mask of a list's child: element slots of row `r` carry
/// the row's mask value, rows taken in order.
pub open spec fn elem_mask(offsets: Seq<u32>, keep: Seq<bool>, rows: int) -> Seq<bool>
    decreases rows,
{
    if rows <= 0 {
        Seq::empty()
    } else {
        elem_mask(offsets, keep, rows - 1) + Seq::new(
            (offsets[rows] - offsets[rows - 1]) as nat,
            |k: int| keep[rows - 1],
        )
    }
}

/// Number of child elements that the kept rows among the first `rows`
/// contribute.
pub open spec fn kept_elems(offsets: Seq<u32>, keep: Seq<bool>, rows: int) -> int
    decreases rows,
{
    if rows <= 0 {
        0
    } else {
        kept_elems(offsets, keep, rows - 1) + (if keep[rows - 1] {
            offsets[rows] - offsets[rows - 1]
        } else {
            0int
        })
    }
}

/// Monotone offsets starting at zero.
pub open spec fn offsets_wf(offsets: Seq<u32>, rows: int) -> bool {
    &&& offsets.len() >= rows + 1
    &&& offsets[0] == 0
    &&& forall|i: int| 0 <= i < rows ==> #[trigger] offsets[i] <= offsets[i + 1]
}

/// The element mask covers exactly the child elements of the first
/// `rows` rows.
pub proof fn lemma_elem_mask_len(offsets: Seq<u32>, keep: Seq<bool>, rows: int)
    requires
        0 <= rows,
        offsets_wf(offsets, rows),
    ensures
        elem_mask(offsets, keep, rows).len() == offsets[rows],
    decreases rows,
{
    if rows > 0 {
        lemma_elem_mask_len(offsets, keep, rows - 1);
    }
}

/// Inside row `r0`, every element-mask slot carries the row's mask value.
pub proof fn lemma_elem_mask_at(
    offsets: Seq<u32>,
    keep: Seq<bool>,
    rows: int,
    r0: int,
    k: int,
)
    requires
        offsets_wf(offsets, rows),
        0 <= r0 < rows,
        offsets[r0] <= k < offsets[r0 + 1],
    ensures
        0 <= k < elem_mask(offsets, keep, rows).len(),
        elem_mask(offsets, keep, rows)[k] == keep[r0],
    decreases rows,
{
    lemma_elem_mask_len(offsets, keep, rows);
    if r0 == rows - 1 {
        lemma_elem_mask_len(offsets, keep, rows - 1);
        assert(offsets_wf(offsets, rows - 1));
    } else {
        assert(offsets_wf(offsets, rows - 1));
        lemma_elem_mask_at(offsets, keep, rows - 1, r0, k);
        lemma_elem_mask_len(offsets, keep, rows - 1);
    }
}

/// Counting kept element slots up to a row boundary counts exactly the
/// elements of the kept rows before it.
pub proof fn lemma_kept_elems_is_count(offsets: Seq<u32>, keep: Seq<bool>, rows: int, r: int)
    requires
        offsets_wf(offsets, rows),
        keep.len() == rows,
        0 <= r <= rows,
    ensures
        mask_count(elem_mask(offsets, keep, rows), offsets[r] as int) == kept_elems(
            offsets,
            keep,
            r,
        ),
    decreases r,
{
    if r > 0 {
        lemma_kept_elems_is_count(offsets, keep, rows, r - 1);
        assert forall|j: int| offsets[r - 1] <= j < offsets[r] implies elem_mask(
            offsets,
            keep,
            rows,
        )[j] == keep[r - 1] by {
            lemma_elem_mask_at(offsets, keep, rows, r - 1, j);
        };
        lemma_mask_count_run(
            elem_mask(offsets, keep, rows),
            offsets[r - 1] as int,
            offsets[r] as int,
            keep[r - 1],
        );
    }
}

/// The integer values of an offsets vector.
pub open spec fn u32s_to_ints(s: Seq<u32>) -> Seq<int> {
    s.map_values(|x: u32| x as int)
}

/// Running interchange offsets of the kept rows: one entry per kept row
/// boundary, starting at zero.
pub open spec fn new_off(offsets: Seq<u32>, keep: Seq<bool>, r: int) -> Seq<int>
    decreases r,
{
    if r <= 0 {
        seq![0int]
    } else {
        let rest = new_off(offsets, keep, r - 1);
        if keep[r - 1] {
            rest.push(rest.last() + (offsets[r] - offsets[r - 1]))
        } else {
            rest
        }
    }
}

/// Shape facts about the rebuilt offsets: length, first entry, and the
/// running total.
pub proof fn lemma_new_off_shape(offsets: Seq<u32>, keep: Seq<bool>, r: int)
    requires
        0 <= r,
        offsets_wf(offsets, r),
    ensures
        new_off(offsets, keep, r).len() == mask_count(keep, r) + 1,
        new_off(offsets, keep, r)[0] == 0,
        new_off(offsets, keep, r).last() == kept_elems(offsets, keep, r),
        forall|idx: int|
            0 <= idx < new_off(offsets, keep, r).len() - 1 ==> #[trigger] new_off(
                offsets,
                keep,
                r,
            )[idx] <= new_off(offsets, keep, r)[idx + 1],
    decreases r,
{
    if r > 0 {
        lemma_new_off_shape(offsets, keep, r - 1);
        lemma_mask_count_bounds(keep, r - 1);
        let rest = new_off(offsets, keep, r - 1);
        assert(rest.len() >= 1);
        assert(offsets[r - 1] <= offsets[r]);
        if keep[r - 1] {
            let whole = new_off(offsets, keep, r);
            assert(whole == rest.push(rest.last() + (offsets[r] - offsets[r - 1])));
            assert forall|idx: int| 0 <= idx < whole.len() - 1 implies #[trigger] whole[idx]
                <= whole[idx + 1] by {
                if idx < rest.len() - 1 {
                    assert(rest[idx] <= rest[idx + 1]);
                } else {
                    assert(whole[idx] == rest.last());
                }
            };
        }
    }
}

/// A kept row's boundaries land at its rank and carry the kept-element
/// totals on both sides.
pub proof fn lemma_new_off_at(offsets: Seq<u32>, keep: Seq<bool>, r: int, i: int)
    requires
        offsets_wf(offsets, r),
        0 <= i < r,
        keep[i],
    ensures
        new_off(offsets, keep, r)[mask_count(keep, i)] == kept_elems(offsets, keep, i),
        new_off(offsets, keep, r)[mask_count(keep, i) + 1] == kept_elems(offsets, keep, i + 1),
    decreases r,
{
    lemma_new_off_shape(offsets, keep, r);
    lemma_new_off_shape(offsets, keep, r - 1);
    lemma_mask_count_bounds(keep, i);
    lemma_mask_count_mono(keep, i + 1, r);
    let rest = new_off(offsets, keep, r - 1);
    if i == r - 1 {
        assert(mask_count(keep, i) == rest.len() - 1);
        assert(new_off(offsets, keep, r) == rest.push(rest.last() + (offsets[r] - offsets[r
            - 1])));
        assert(new_off(offsets, keep, r)[mask_count(keep, i)] == rest.last());
    } else {
        lemma_new_off_at(offsets, keep, r - 1, i);
        lemma_mask_count_mono(keep, i + 1, r - 1);
        assert(rest[mask_count(keep, i)] == kept_elems(offsets, keep, i));
        assert(rest[mask_count(keep, i) + 1] == kept_elems(offsets, keep, i + 1));
        if keep[r - 1] {
            assert(new_off(offsets, keep, r)[mask_count(keep, i)] == rest[mask_count(keep, i)]);
            assert(new_off(offsets, keep, r)[mask_count(keep, i) + 1] == rest[mask_count(keep, i)
                + 1]);
        }
    }
}

/// The kept-element total never exceeds the row boundary.
pub proof fn lemma_kept_elems_le(offsets: Seq<u32>, keep: Seq<bool>, r: int)
    requires
        0 <= r,
        offsets_wf(offsets, r),
    ensures
        0 <= kept_elems(offsets, keep, r) <= offsets[r],
    decreases r,
{
    if r > 0 {
        lemma_kept_elems_le(offsets, keep, r - 1);
    }
}

/// Filters one column by the mask, keeping the masked rows in order and
/// rebuilding nested structure densely.
pub fn filter_array(a: &Array, keep: &Vec<bool>) -> (out: Array)
    requires
        a.wf(),
        a.spec_len() == keep@.len(),
    ensures
        out.wf(),
        compacted_rel(*a, keep@, out),
    decreases *a, 0int,
{
    let ghost n = keep@.len() as int;
    match a {
        Array::Bool(v) => {
            let r = filter_copy(v, keep);
            let out = Array::Bool(r);
            proof {
                lemma_mask_filter_len(v@, keep@, n);
                assert forall|i: int| 0 <= i < n && keep@[i] implies #[trigger] cell_eq(
                    *a,
                    i,
                    out,
                    mask_count(keep@, i),
                ) by {
                    lemma_mask_filter_index(v@, keep@, n, i);
                };
            }
            out
        },
        Array::Int16(v) => {
            let r = filter_copy(v, keep);
            let out = Array::Int16(r);
            proof {
                lemma_mask_filter_len(v@, keep@, n);
                assert forall|i: int| 0 <= i < n && keep@[i] implies #[trigger] cell_eq(
                    *a,
                    i,
                    out,
                    mask_count(keep@, i),
                ) by {
                    lemma_mask_filter_index(v@, keep@, n, i);
                };
            }
            out
        },
        Array::Int32(v) => {
            let r = filter_copy(v, keep);
            let out = Array::Int32(r);
            proof {
                lemma_mask_filter_len(v@, keep@, n);
                assert forall|i: int| 0 <= i < n && keep@[i] implies #[trigger] cell_eq(
                    *a,
                    i,
                    out,
                    mask_count(keep@, i),
                ) by {
                    lemma_mask_filter_index(v@, keep@, n, i);
                };
            }
            out
        },
        Array::Int64(v) => {
            let r = filter_copy(v, keep);
            let out = Array::Int64(r);
            proof {
                lemma_mask_filter_len(v@, keep@, n);
                assert forall|i: int| 0 <= i < n && keep@[i] implies #[trigger] cell_eq(
                    *a,
                    i,
                    out,
                    mask_count(keep@, i),
                ) by {
                    lemma_mask_filter_index(v@, keep@, n, i);
                };
            }
            out
        },
        Array::Int256(v) => {
            let r = filter_copy(v, keep);
            let out = Array::Int256(r);
            proof {
                lemma_mask_filter_len(v@, keep@, n);
                assert forall|i: int| 0 <= i < n && keep@[i] implies #[trigger] cell_eq(
                    *a,
                    i,
                    out,
                    mask_count(keep@, i),
                ) by {
                    lemma_mask_filter_index(v@, keep@, n, i);
                };
            }
            out
        },
        Array::Float32(v) => {
            let r = filter_copy(v, keep);
            let out = Array::Float32(r);
            proof {
                lemma_mask_filter_len(v@, keep@, n);
                assert forall|i: int| 0 <= i < n && keep@[i] implies #[trigger] cell_eq(
                    *a,
                    i,
                    out,
                    mask_count(keep@, i),
                ) by {
                    lemma_mask_filter_index(v@, keep@, n, i);
                };
            }
            out
        },
        Array::Float64(v) => {
            let r = filter_copy(v, keep);
            let out = Array::Float64(r);
            proof {
                lemma_mask_filter_len(v@, keep@, n);
                assert forall|i: int| 0 <= i < n && keep@[i] implies #[trigger] cell_eq(
                    *a,
                    i,
                    out,
                    mask_count(keep@, i),
                ) by {
                    lemma_mask_filter_index(v@, keep@, n, i);
                };
            }
            out
        },
        Array::Date(v) => {
            let r = filter_copy(v, keep);
            let out = Array::Date(r);
            proof {
                lemma_mask_filter_len(v@, keep@, n);
                assert forall|i: int| 0 <= i < n && keep@[i] implies #[trigger] cell_eq(
                    *a,
                    i,
                    out,
                    mask_count(keep@, i),
                ) by {
                    lemma_mask_filter_index(v@, keep@, n, i);
                };
                assert forall|idx: int| 0 <= idx < r@.len() implies (match #[trigger] r@[idx] {
                    Some(d) => d.wf(),
                    None => true,
                }) by {
                    lemma_mask_filter_contains(v@, keep@, n, idx);
                    let j = choose|j: int| 0 <= j < n && v@[j] == r@[idx];
                    assert(v@[j] == r@[idx]);
                };
            }
            out
        },
        Array::Time(v) => {
            let r = filter_copy(v, keep);
            let out = Array::Time(r);
            proof {
                lemma_mask_filter_len(v@, keep@, n);
                assert forall|i: int| 0 <= i < n && keep@[i] implies #[trigger] cell_eq(
                    *a,
                    i,
                    out,
                    mask_count(keep@, i),
                ) by {
                    lemma_mask_filter_index(v@, keep@, n, i);
                };
                assert forall|idx: int| 0 <= idx < r@.len() implies (match #[trigger] r@[idx] {
                    Some(t) => t.wf(),
                    None => true,
                }) by {
                    lemma_mask_filter_contains(v@, keep@, n, idx);
                    let j = choose|j: int| 0 <= j < n && v@[j] == r@[idx];
                    assert(v@[j] == r@[idx]);
                };
            }
            out
        },
        Array::Timestamp(v) => {
            let r = filter_copy(v, keep);
            let out = Array::Timestamp(r);
            proof {
                lemma_mask_filter_len(v@, keep@, n);
                assert forall|i: int| 0 <= i < n && keep@[i] implies #[trigger] cell_eq(
                    *a,
                    i,
                    out,
                    mask_count(keep@, i),
                ) by {
                    lemma_mask_filter_index(v@, keep@, n, i);
                };
            }
            out
        },
        Array::Timestamptz(v) => {
            let r = filter_copy(v, keep);
            let out = Array::Timestamptz(r);
            proof {
                lemma_mask_filter_len(v@, keep@, n);
                assert forall|i: int| 0 <= i < n && keep@[i] implies #[trigger] cell_eq(
                    *a,
                    i,
                    out,
                    mask_count(keep@, i),
                ) by {
                    lemma_mask_filter_index(v@, keep@, n, i);
                };
            }
            out
        },
        Array::Interval(v) => {
            let r = filter_copy(v, keep);
            let out = Array::Interval(r);
            proof {
                lemma_mask_filter_len(v@, keep@, n);
                assert forall|i: int| 0 <= i < n && keep@[i] implies #[trigger] cell_eq(
                    *a,
                    i,
                    out,
                    mask_count(keep@, i),
                ) by {
                    lemma_mask_filter_index(v@, keep@, n, i);
                };
                assert forall|idx: int| 0 <= idx < r@.len() implies (match #[trigger] r@[idx] {
                    Some(iv) => iv.wf(),
                    None => true,
                }) by {
                    lemma_mask_filter_contains(v@, keep@, n, idx);
                    let j = choose|j: int| 0 <= j < n && v@[j] == r@[idx];
                    assert(v@[j] == r@[idx]);
                };
            }
            out
        },
        Array::Serial(v) => {
            let r = filter_copy(v, keep);
            let out = Array::Serial(r);
            proof {
                lemma_mask_filter_len(v@, keep@, n);
                assert forall|i: int| 0 <= i < n && keep@[i] implies #[trigger] cell_eq(
                    *a,
                    i,
                    out,
                    mask_count(keep@, i),
                ) by {
                    lemma_mask_filter_index(v@, keep@, n, i);
                };
            }
            out
        },
        Array::Decimal(v) => {
            let r = filter_copy(v, keep);
            let out = Array::Decimal(r);
            proof {
                lemma_mask_filter_len(v@, keep@, n);
                assert forall|i: int| 0 <= i < n && keep@[i] implies #[trigger] cell_eq(
                    *a,
                    i,
                    out,
                    mask_count(keep@, i),
                ) by {
                    lemma_mask_filter_index(v@, keep@, n, i);
                };
                assert forall|idx: int| 0 <= idx < r@.len() implies (match #[trigger] r@[idx] {
                    Some(d) => d.wf(),
                    None => true,
                }) by {
                    lemma_mask_filter_contains(v@, keep@, n, idx);
                    let j = choose|j: int| 0 <= j < n && v@[j] == r@[idx];
                    assert(v@[j] == r@[idx]);
                };
            }
            out
        },
        Array::Utf8(v) => {
            let r = filter_strings(v, keep);
            let out = Array::Utf8(r);
            proof {
                lemma_mask_filter_len(opt_views(v@), keep@, n);
                assert forall|i: int| 0 <= i < n && keep@[i] implies #[trigger] cell_eq(
                    *a,
                    i,
                    out,
                    mask_count(keep@, i),
                ) by {
                    lemma_mask_filter_index(opt_views(v@), keep@, n, i);
                };
            }
            out
        },
        Array::Bytea(v) => {
            let r = filter_bytes(v, keep);
            let out = Array::Bytea(r);
            proof {
                lemma_mask_filter_len(opt_views(v@), keep@, n);
                assert forall|i: int| 0 <= i < n && keep@[i] implies #[trigger] cell_eq(
                    *a,
                    i,
                    out,
                    mask_count(keep@, i),
                ) by {
                    lemma_mask_filter_index(opt_views(v@), keep@, n, i);
                };
            }
            out
        },
        Array::Jsonb(v) => {
            let r = filter_jsonbs(v, keep);
            let out = Array::Jsonb(r);
            proof {
                lemma_mask_filter_len(opt_views(v@), keep@, n);
                assert forall|i: int| 0 <= i < n && keep@[i] implies #[trigger] cell_eq(
                    *a,
                    i,
                    out,
                    mask_count(keep@, i),
                ) by {
                    lemma_mask_filter_index(opt_views(v@), keep@, n, i);
                };
            }
            out
        },
        Array::List(l) => filter_list(l, keep),
        Array::Struct(st) => {
            let children = filter_struct_children(&st.children, keep);
            let validity = filter_bools(&st.validity, keep);
            let field_names = clone_names(&st.field_names);
            let out = Array::Struct(StructArray { validity, field_names, children });
            proof {
                lemma_mask_filter_len(st.validity@, keep@, n);
                let so = out->Struct_0;
                assert(so.validity@.len() == mask_count(keep@, n));
                assert forall|c: int| 0 <= c < so.children@.len() implies (
                #[trigger] so.children@[c]).spec_len() == so.validity@.len()
                    && so.children@[c].wf() by {
                    assert(compacted_rel(st.children@[c], keep@, so.children@[c]));
                    assert(so.children@[c].wf());
                    assert(so.children@[c].spec_len() == mask_count(keep@, keep@.len() as int));
                };
                assert forall|i: int| 0 <= i < n && keep@[i] implies #[trigger] cell_eq(
                    *a,
                    i,
                    out,
                    mask_count(keep@, i),
                ) by {
                    lemma_mask_filter_index(st.validity@, keep@, n, i);
                    assert forall|c: int| 0 <= c < st.children@.len() implies cell_eq(
                        #[trigger] st.children@[c],
                        i,
                        so.children@[c],
                        mask_count(keep@, i),
                    ) by {
                        assert(compacted_rel(st.children@[c], keep@, so.children@[c]));
                    };
                };
            }
            out
        },
    }
}

/// Filters a list column by the row mask: child elements of kept rows
/// are gathered densely and the offsets are rebuilt.
#[verifier::rlimit(100)]
fn filter_list(l: &ListArray, keep: &Vec<bool>) -> (out: Array)
    requires
        Array::List(*l).wf(),
        l.validity@.len() == keep@.len(),
    ensures
        out.wf(),
        compacted_rel(Array::List(*l), keep@, out),
    decreases *l.value, 1int,
{
    let n = keep.len();
    let ghost rows = n as int;
    proof {
        assert(offsets_wf(l.offsets@, rows));
    }
    // Expand the row mask to one flag per child element.
    let mut elem_keep: Vec<bool> = Vec::new();
    let mut i: usize = 0;
    while i < n
        invariant
            n == keep@.len(),
            n == l.validity@.len(),
            Array::List(*l).wf(),
            0 <= i <= n,
            elem_keep@ == elem_mask(l.offsets@, keep@, i as int),
            elem_keep@.len() == l.offsets@[i as int],
        decreases n - i,
    {
        proof {
            lemma_elem_mask_len(l.offsets@, keep@, i as int);
        }
        let start = l.offsets[i];
        let end = l.offsets[i + 1];
        let kv = keep[i];
        let mut p: u32 = start;
        while p < end
            invariant
                start <= p <= end,
                kv == keep@[i as int],
                0 <= i < n,
                n == keep@.len(),
                start == l.offsets@[i as int],
                end == l.offsets@[i as int + 1],
                elem_keep@ =~= elem_mask(l.offsets@, keep@, i as int) + Seq::new(
                    (p - start) as nat,
                    |k: int| keep@[i as int],
                ),
            decreases end - p,
        {
            elem_keep.push(kv);
            proof {
                assert(elem_keep@ =~= elem_mask(l.offsets@, keep@, i as int) + Seq::new(
                    (p + 1 - start) as nat,
                    |k: int| keep@[i as int],
                ));
            }
            p = p + 1;
        }
        proof {
            assert(elem_keep@ =~= elem_mask(l.offsets@, keep@, i as int + 1));
            lemma_elem_mask_len(l.offsets@, keep@, i as int + 1);
        }
        i = i + 1;
    }
    proof {
        lemma_elem_mask_len(l.offsets@, keep@, rows);
        assert(elem_keep@.len() == l.value.spec_len());
    }
    // Gather the kept child elements.
    let values = filter_array(&l.value, &elem_keep);
    // Rebuild the offsets over the kept rows.
    let mut offs: Vec<u32> = Vec::new();
    offs.push(0);
    proof {
        assert(u32s_to_ints(offs@) =~= new_off(l.offsets@, keep@, 0));
    }
    let mut i: usize = 0;
    while i < n
        invariant
            n == keep@.len(),
            Array::List(*l).wf(),
            n == l.validity@.len(),
            0 <= i <= n,
            offs@.len() >= 1,
            u32s_to_ints(offs@) == new_off(l.offsets@, keep@, i as int),
        decreases n - i,
    {
        proof {
            lemma_new_off_shape(l.offsets@, keep@, i as int);
            lemma_new_off_shape(l.offsets@, keep@, i as int + 1);
            lemma_kept_elems_le(l.offsets@, keep@, i as int);
            lemma_kept_elems_le(l.offsets@, keep@, i as int + 1);
        }
        if keep[i] {
            let last = offs[offs.len() - 1];
            proof {
                assert(last as int == u32s_to_ints(offs@).last());
                assert(last as int == kept_elems(l.offsets@, keep@, i as int));
            }
            let rl = l.offsets[i + 1] - l.offsets[i];
            offs.push(last + rl);
            proof {
                assert(u32s_to_ints(offs@) =~= new_off(
                    l.offsets@,
                    keep@,
                    i as int + 1,
                ));
            }
        } else {
            proof {
                assert(u32s_to_ints(offs@) =~= new_off(
                    l.offsets@,
                    keep@,
                    i as int + 1,
                ));
            }
        }
        i = i + 1;
    }
    let validity = filter_bools(&l.validity, keep);
    let ghost gvalidity = validity@;
    let ghost gvalues = values;
    let ghost goffs = offs@;
    let out = Array::List(ListArray { validity, offsets: offs, value: Box::new(values) });
    proof {
        let lo = out->List_0;
        assert(lo.validity@ == gvalidity);
        assert(lo.offsets@ == goffs);
        assert(*lo.value == gvalues);
        assert(lo.validity@ == mask_filter(l.validity@, keep@, rows));
        let offv = u32s_to_ints(offs@);
        let ekeep = elem_mask(l.offsets@, keep@, rows);
        lemma_new_off_shape(l.offsets@, keep@, rows);
        lemma_mask_filter_len(l.validity@, keep@, rows);
        lemma_mask_count_bounds(keep@, rows);
        lemma_kept_elems_is_count(l.offsets@, keep@, rows, rows);
        // The rebuilt offsets are monotone, start at zero and end at the
        // gathered child length.
        assert(lo.offsets@.len() == mask_count(keep@, rows) + 1);
        assert(lo.offsets@[0] as int == offv[0]);
        assert forall|idx: int| 0 <= idx < lo.validity@.len() implies (
        #[trigger] lo.offsets@[idx]) <= lo.offsets@[idx + 1] by {
            assert(lo.offsets@[idx] as int == offv[idx]);
            assert(lo.offsets@[idx + 1] as int == offv[idx + 1]);
        };
        assert(lo.validity@.len() == mask_count(keep@, rows));
        assert(lo.offsets@[lo.validity@.len() as int] as int == offv[mask_count(keep@, rows)]);
        assert(offv[mask_count(keep@, rows)] == kept_elems(l.offsets@, keep@, rows));
        assert(lo.value.spec_len() == mask_count(ekeep, ekeep.len() as int));
        assert(lo.offsets@[lo.validity@.len() as int] as int == lo.value.spec_len());
        // Kept rows keep their validity, their length and their elements.
        assert forall|i0: int| 0 <= i0 < rows && keep@[i0] implies #[trigger] cell_eq(
            Array::List(*l),
            i0,
            out,
            mask_count(keep@, i0),
        ) by {
            let q = mask_count(keep@, i0);
            lemma_mask_filter_index(l.validity@, keep@, rows, i0);
            lemma_new_off_at(l.offsets@, keep@, rows, i0);
            lemma_mask_count_bounds(keep@, i0);
            lemma_mask_count_mono(keep@, i0 + 1, rows);
            assert(lo.offsets@[q] as int == kept_elems(l.offsets@, keep@, i0));
            assert(lo.offsets@[q + 1] as int == kept_elems(l.offsets@, keep@, i0 + 1));
            lemma_kept_elems_is_count(l.offsets@, keep@, rows, i0);
            lemma_kept_elems_is_count(l.offsets@, keep@, rows, i0 + 1);
            let rl = l.offsets@[i0 + 1] - l.offsets@[i0];
            assert forall|k: int| 0 <= k < rl implies #[trigger] cell_eq(
                *l.value,
                l.offsets@[i0] + k,
                *lo.value,
                lo.offsets@[q] + k,
            ) by {
                let p = l.offsets@[i0] + k;
                lemma_elem_mask_at(l.offsets@, keep@, rows, i0, p);
                assert(ekeep[p]);
                assert(compacted_rel(*l.value, ekeep, *lo.value));
                assert(cell_eq(*l.value, p, *lo.value, mask_count(ekeep, p)));
                assert forall|j: int| l.offsets@[i0] <= j < p implies ekeep[j] == true by {
                    lemma_elem_mask_at(l.offsets@, keep@, rows, i0, j);
                };
                lemma_mask_count_run(ekeep, l.offsets@[i0] as int, p, true);
                assert(mask_count(ekeep, p) == mask_count(ekeep, l.offsets@[i0] as int) + k);
                assert(mask_count(ekeep, l.offsets@[i0] as int) == kept_elems(
                    l.offsets@,
                    keep@,
                    i0,
                ));
            };
            assert(cell_eq(Array::List(*l), i0, out, q)) by {
                assert(l.validity@[i0] == lo.validity@[q]);
                assert(l.offsets@[i0 + 1] - l.offsets@[i0] == lo.offsets@[q + 1]
                    - lo.offsets@[q]);
                lemma_run_eq_intro(
                    *l.value,
                    l.offsets@[i0] as int,
                    *lo.value,
                    lo.offsets@[q] as int,
                    l.offsets@[i0 + 1] - l.offsets@[i0],
                );
            };
        };
    }
    out
}

/// Filters each child of a struct column by the same row mask.
fn filter_struct_children(children: &Vec<Array>, keep: &Vec<bool>) -> (out: Vec<Array>)
    requires
        forall|i: int| 0 <= i < children@.len() ==> (#[trigger] children@[i]).wf(),
        forall|i: int|
            0 <= i < children@.len() ==> (#[trigger] children@[i]).spec_len() == keep@.len(),
    ensures
        out@.len() == children@.len(),
        forall|i: int|
            0 <= i < children@.len() ==> compacted_rel(
                #[trigger] children@[i],
                keep@,
                out@[i],
            ) && out@[i].wf() && out@[i].spec_len() == mask_count(keep@, keep@.len() as int),
    decreases children@, 1int,
{
    let n = children.len();
    let mut out: Vec<Array> = Vec::new();
    let mut i: usize = 0;
    while i < n
        invariant
            n == children@.len(),
            forall|k: int| 0 <= k < children@.len() ==> (#[trigger] children@[k]).wf(),
            forall|k: int|
                0 <= k < children@.len() ==> (#[trigger] children@[k]).spec_len() == keep@.len(),
            0 <= i <= n,
            out@.len() == i,
            forall|j: int|
                0 <= j < i ==> compacted_rel(#[trigger] children@[j], keep@, out@[j])
                    && out@[j].wf() && out@[j].spec_len() == mask_count(keep@, keep@.len() as int),
        decreases n - i,
    {
        let fa = filter_array(&children[i], keep);
        let ghost gfa = fa;
        out.push(fa);
        proof {
            assert(out@[i as int] == gfa);
            assert forall|j: int|
                0 <= j < i + 1 implies compacted_rel(#[trigger] children@[j], keep@, out@[j])
                && out@[j].wf() && out@[j].spec_len() == mask_count(keep@, keep@.len() as int) by {
                assert(compacted_rel(children@[j], keep@, out@[j]));
                assert(out@[j].wf());
                assert(out@[j].spec_len() == mask_count(keep@, keep@.len() as int));
            };
        }
        i = i + 1;
    }
    out
}

/// Copies a name list, preserving each name's characters.
fn clone_names(names: &Vec<String>) -> (r: Vec<String>)
    ensures
        r@.len() == names@.len(),
        forall|i: int| 0 <= i < names@.len() ==> (#[trigger] r@[i])@ == names@[i]@,
{
    let n = names.len();
    let mut r: Vec<String> = Vec::new();
    let mut i: usize = 0;
    while i < n
        invariant
            n == names@.len(),
            0 <= i <= n,
            r@.len() == i,
            forall|j: int| 0 <= j < i ==> (#[trigger] r@[j])@ == names@[j]@,
        decreases n - i,
    {
        r.push(names[i].clone());
        i = i + 1;
    }
    r
}

/// Compacts a batch: keeps the visible rows of every column, in order,
/// and returns a batch whose mask is all ones.
pub fn compact(batch: &InternalBatch) -> (r: InternalBatch)
    requires
        batch.wf(),
    ensures
        r.wf(),
        r.spec_is_compacted(),
        r.columns@.len() == batch.columns@.len(),
        r.spec_capacity() == mask_count(batch.visibility@, batch.visibility@.len() as int),
        forall|i: int|
            0 <= i < batch.columns@.len() ==> compacted_rel(
                #[trigger] batch.columns@[i],
                batch.visibility@,
                r.columns@[i],
            ),
{
    let n = batch.visibility.len();
    let mut cnt: usize = 0;
    let mut i: usize = 0;
    while i < n
        invariant
            n == batch.visibility@.len(),
            0 <= i <= n,
            cnt == mask_count(batch.visibility@, i as int),
        decreases n - i,
    {
        proof {
            lemma_mask_count_bounds(batch.visibility@, i as int);
        }
        if batch.visibility[i] {
            cnt = cnt + 1;
        }
        i = i + 1;
    }
    let mut visibility: Vec<bool> = Vec::new();
    let mut k: usize = 0;
    while k < cnt
        invariant
            0 <= k <= cnt,
            visibility@.len() == k,
            forall|j: int| 0 <= j < k ==> visibility@[j],
        decreases cnt - k,
    {
        visibility.push(true);
        k = k + 1;
    }
    let m = batch.columns.len();
    let mut columns: Vec<Array> = Vec::new();
    let mut c: usize = 0;
    while c < m
        invariant
            batch.wf(),
            m == batch.columns@.len(),
            n == batch.visibility@.len(),
            0 <= c <= m,
            columns@.len() == c,
            forall|j: int|
                0 <= j < c ==> compacted_rel(
                    #[trigger] batch.columns@[j],
                    batch.visibility@,
                    columns@[j],
                ) && columns@[j].wf(),
        decreases m - c,
    {
        let fa = filter_array(&batch.columns[c], &batch.visibility);
        let ghost gfa = fa;
        columns.push(fa);
        proof {
            assert(columns@[c as int] == gfa);
            assert forall|j: int|
                0 <= j < c + 1 implies compacted_rel(
                #[trigger] batch.columns@[j],
                batch.visibility@,
                columns@[j],
            ) && columns@[j].wf() by {
                assert(compacted_rel(batch.columns@[j], batch.visibility@, columns@[j]));
                assert(columns@[j].wf());
            };
        }
        c = c + 1;
    }
    proof {
        assert forall|j: int| 0 <= j < columns@.len() implies (#[trigger] columns@[j]).wf()
            && columns@[j].spec_len() == visibility@.len() by {
            assert(compacted_rel(batch.columns@[j], batch.visibility@, columns@[j]));
            assert(columns@[j].wf());
            assert(columns@[j].spec_len() == mask_count(
                batch.visibility@,
                batch.visibility@.len() as int,
            ));
        };
    }
    InternalBatch { columns, visibility }
}

} // verus!
