//! The library's round-trip guarantees, stated and proved once over the
//! encode and decode relations.

use vstd::prelude::*;

use crate::array::{opt_match, Array};
use crate::compact::{cell_eq, same_shape};
use crate::decimal::{
    dec_decode, dec_parse_pins, dec_parse_result, dec_text_parses, decimal_text,
    lemma_dec_chars_not_sentinel, lemma_sentinel_texts, sentinel_parse, Decimal,
};
use crate::decode::{decode_err, decodes_to};
use crate::encode::{dec_text_plain, encodes_as};
use crate::interchange::{ColumnData, Field};
use crate::logical::LogicalType;
use crate::mapper::maps_to_field;
use vstd::utf8::encode_utf8;
use crate::jsonb::{json_canon, json_valid, Jsonb};
use crate::scalar::{
    lemma_interval_pack_unpack, lemma_trunc_div_1000_exact, Date, FromIntoArrow, Interval, Time,
    Timestamp, Timestamptz, UNIX_EPOCH_DAY, USECS_PER_DAY,
};

verus! {

/// Whether `a` is a column of the primitive logical type `ty`.
pub open spec fn primitive_array_of(ty: LogicalType, a: Array) -> bool {
    match ty {
        LogicalType::Boolean => a is Bool,
        LogicalType::Int16 => a is Int16,
        LogicalType::Int32 => a is Int32,
        LogicalType::Int64 => a is Int64,
        LogicalType::Int256 => a is Int256,
        LogicalType::Float32 => a is Float32,
        LogicalType::Float64 => a is Float64,
        LogicalType::Date => a is Date,
        LogicalType::Time => a is Time,
        LogicalType::Timestamp => a is Timestamp,
        LogicalType::Timestamptz => a is Timestamptz,
        LogicalType::Interval => a is Interval,
        LogicalType::Varchar => a is Utf8,
        LogicalType::Bytea => a is Bytea,
        LogicalType::Decimal => a is Decimal,
        LogicalType::Jsonb => a is Jsonb,
        LogicalType::Serial => a is Serial,
        LogicalType::Struct(_) => false,
        LogicalType::List(_) => false,
    }
}

/// Value-for-value, null-for-null equality of two columns.
pub open spec fn array_equiv(a: Array, b: Array) -> bool {
    &&& same_shape(a, b)
    &&& a.spec_len() == b.spec_len()
    &&& forall|i: int| 0 <= i < a.spec_len() ==> #[trigger] cell_eq(a, i, b, i)
}

/// The two extension tags are distinct spellings.
proof fn proof_tags_distinct()
    ensures
        crate::mapper::decimal_tag() != crate::mapper::json_tag(),
{
    reveal_strlit("ext.decimal");
    reveal_strlit("ext.json");
    assert(crate::mapper::decimal_tag().len() != crate::mapper::json_tag().len());
}

/// An interval value survives packing and unpacking.
proof fn lemma_interval_value_round_trip(x: Interval)
    requires
        x.wf(),
    ensures
        Interval::of_arrow(x.as_arrow()) == x,
{
    lemma_interval_pack_unpack(x.months, x.days, (x.usecs * 1000) as i64);
    lemma_trunc_div_1000_exact(x.usecs as int);
}

/// Round trip for primitive columns: a well-formed column of any
/// primitive logical type except Serial, encoded against the field its
/// type naturally maps to, decodes successfully, and the decoded column
/// equals the original, value for value and null for null. (A Serial
/// column comes back as a plain 64-bit integer column with the same
/// values, so its round trip is value-preserving but not
/// shape-preserving.)
pub proof fn lemma_primitive_round_trip(
    ty: LogicalType,
    f: Field,
    a: Array,
    c: ColumnData,
    a2: Array,
)
    requires
        primitive_array_of(ty, a),
        !(ty is Serial),
        a.wf(),
        maps_to_field(ty, f),
        encodes_as(f.data_type, a, c),
        decodes_to(f, c, a2),
    ensures
        array_equiv(a, a2),
{
    lemma_sentinel_texts();
    proof_tags_distinct();
    match ty {
        LogicalType::Boolean => {
            let v = a->Bool_0;
            let v2 = a2->Bool_0;
            assert(a2->Bool_0@ == c->Boolean_0@);
            assert(c->Boolean_0@ == v@);
            assert forall|i: int| 0 <= i < v@.len() implies #[trigger] cell_eq(a, i, a2, i) by {
                assert(v2@[i] == v@[i]);
            };
        },
        LogicalType::Int16 => {
            let v = a->Int16_0;
            let v2 = a2->Int16_0;
            assert(a2->Int16_0@ == c->Int16_0@);
            assert(c->Int16_0@ == v@);
            assert forall|i: int| 0 <= i < v@.len() implies #[trigger] cell_eq(a, i, a2, i) by {
                assert(v2@[i] == v@[i]);
            };
        },
        LogicalType::Int32 => {
            let v = a->Int32_0;
            let v2 = a2->Int32_0;
            assert(a2->Int32_0@ == c->Int32_0@);
            assert(c->Int32_0@ == v@);
            assert forall|i: int| 0 <= i < v@.len() implies #[trigger] cell_eq(a, i, a2, i) by {
                assert(v2@[i] == v@[i]);
            };
        },
        LogicalType::Int64 => {
            let v = a->Int64_0;
            let v2 = a2->Int64_0;
            assert(a2->Int64_0@ == c->Int64_0@);
            assert(c->Int64_0@ == v@);
            assert forall|i: int| 0 <= i < v@.len() implies #[trigger] cell_eq(a, i, a2, i) by {
                assert(v2@[i] == v@[i]);
            };
        },
        LogicalType::Int256 => {
            let v = a->Int256_0;
            let v2 = a2->Int256_0;
            assert(a2->Int256_0@ == c->Decimal256_0@);
            assert(c->Decimal256_0@ == v@);
            assert forall|i: int| 0 <= i < v@.len() implies #[trigger] cell_eq(a, i, a2, i) by {
                assert(v2@[i] == v@[i]);
            };
        },
        LogicalType::Float32 => {
            let v = a->Float32_0;
            let v2 = a2->Float32_0;
            assert(a2->Float32_0@ == c->Float32_0@);
            assert(c->Float32_0@ == v@);
            assert forall|i: int| 0 <= i < v@.len() implies #[trigger] cell_eq(a, i, a2, i) by {
                assert(v2@[i] == v@[i]);
            };
        },
        LogicalType::Float64 => {
            let v = a->Float64_0;
            let v2 = a2->Float64_0;
            assert(a2->Float64_0@ == c->Float64_0@);
            assert(c->Float64_0@ == v@);
            assert forall|i: int| 0 <= i < v@.len() implies #[trigger] cell_eq(a, i, a2, i) by {
                assert(v2@[i] == v@[i]);
            };
        },
        LogicalType::Date => {
            let v = a->Date_0;
            let w = c->Date32_0;
            let v2 = a2->Date_0;
            assert forall|i: int| 0 <= i < v@.len() implies #[trigger] cell_eq(a, i, a2, i) by {
                assert(opt_match(v@[i], w@[i], |x: Date, y: i32| y == x.as_arrow()));
                assert(opt_match(
                    w@[i],
                    v2@[i],
                    |y: i32, d: Date| y <= i32::MAX - UNIX_EPOCH_DAY && d == Date::of_arrow(y),
                ));
                match v@[i] {
                    Some(x) => {
                        assert(v2@[i] == Some(x));
                    },
                    None => {
                        assert(v2@[i] is None);
                    },
                }
            };
        },
        LogicalType::Time => {
            let v = a->Time_0;
            let w = c->Time64_0;
            let v2 = a2->Time_0;
            assert forall|i: int| 0 <= i < v@.len() implies #[trigger] cell_eq(a, i, a2, i) by {
                assert(opt_match(v@[i], w@[i], |x: Time, y: i64| y == x.as_arrow()));
                assert(opt_match(
                    w@[i],
                    v2@[i],
                    |y: i64, t: Time| 0 <= y < USECS_PER_DAY && t == Time::of_arrow(y),
                ));
                match v@[i] {
                    Some(x) => {
                        assert(v2@[i] == Some(x));
                    },
                    None => {
                        assert(v2@[i] is None);
                    },
                }
            };
        },
        LogicalType::Timestamp => {
            let v = a->Timestamp_0;
            let w = c->Timestamp_0;
            let v2 = a2->Timestamp_0;
            assert forall|i: int| 0 <= i < v@.len() implies #[trigger] cell_eq(a, i, a2, i) by {
                assert(opt_match(v@[i], w@[i], |x: Timestamp, y: i64| y == x.as_arrow()));
                assert(opt_match(
                    w@[i],
                    v2@[i],
                    |y: i64, t: Timestamp| t == Timestamp::of_arrow(y),
                ));
                match v@[i] {
                    Some(x) => {
                        assert(v2@[i] == Some(x));
                    },
                    None => {
                        assert(v2@[i] is None);
                    },
                }
            };
        },
        LogicalType::Timestamptz => {
            let v = a->Timestamptz_0;
            let w = c->Timestamp_0;
            let v2 = a2->Timestamptz_0;
            assert forall|i: int| 0 <= i < v@.len() implies #[trigger] cell_eq(a, i, a2, i) by {
                assert(opt_match(v@[i], w@[i], |x: Timestamptz, y: i64| y == x.as_arrow()));
                assert(opt_match(
                    w@[i],
                    v2@[i],
                    |y: i64, t: Timestamptz| t == Timestamptz::of_arrow(y),
                ));
                match v@[i] {
                    Some(x) => {
                        assert(v2@[i] == Some(x));
                    },
                    None => {
                        assert(v2@[i] is None);
                    },
                }
            };
        },
        LogicalType::Interval => {
            let v = a->Interval_0;
            let w = c->Interval_0;
            let v2 = a2->Interval_0;
            assert forall|i: int| 0 <= i < v@.len() implies #[trigger] cell_eq(a, i, a2, i) by {
                assert(opt_match(v@[i], w@[i], |x: Interval, y: i128| y == x.as_arrow()));
                assert(opt_match(
                    w@[i],
                    v2@[i],
                    |y: i128, iv: Interval| iv == Interval::of_arrow(y) && iv.wf(),
                ));
                match v@[i] {
                    Some(x) => {
                        lemma_interval_value_round_trip(x);
                        assert(v2@[i] == Some(x));
                    },
                    None => {
                        assert(v2@[i] is None);
                    },
                }
            };
        },
        LogicalType::Varchar => {
            let v = a->Utf8_0;
            let w = c->Utf8_0;
            let v2 = a2->Utf8_0;
            assert forall|i: int| 0 <= i < v@.len() implies #[trigger] cell_eq(a, i, a2, i) by {
                assert(opt_match(v@[i], w@[i], |x: String, y: String| y@ == x@));
                assert(opt_match(w@[i], v2@[i], |s: String, t: String| t@ == s@));
                match v@[i] {
                    Some(x) => {
                        assert(v2@[i] is Some);
                        assert(v2@[i]->0@ == x@);
                    },
                    None => {
                        assert(v2@[i] is None);
                    },
                }
            };
        },
        LogicalType::Bytea => {
            let v = a->Bytea_0;
            let w = c->Binary_0;
            let v2 = a2->Bytea_0;
            assert forall|i: int| 0 <= i < v@.len() implies #[trigger] cell_eq(a, i, a2, i) by {
                assert(opt_match(
                    v@[i],
                    w@[i],
                    |x: Vec<u8>, y: Vec<u8>| y@ == x@,
                ));
                assert(opt_match(w@[i], v2@[i], |s: Vec<u8>, t: Vec<u8>| t@ == s@));
                match v@[i] {
                    Some(x) => {
                        assert(v2@[i] is Some);
                        assert(v2@[i]->0@ == x@);
                    },
                    None => {
                        assert(v2@[i] is None);
                    },
                }
            };
        },
        LogicalType::Decimal => {
            let v = a->Decimal_0;
            let w = c->Utf8_0;
            let v2 = a2->Decimal_0;
            assert forall|i: int| 0 <= i < v@.len() implies #[trigger] cell_eq(a, i, a2, i) by {
                assert(opt_match(
                    v@[i],
                    w@[i],
                    |x: Decimal, y: String| y@ == decimal_text(x) && dec_text_plain(x) && dec_text_parses(x),
                ));
                assert(opt_match(
                    w@[i],
                    v2@[i],
                    |s: String, d: Decimal| Some(d) == dec_decode(s@) && dec_parse_pins(s@)
                        && d.wf(),
                ));
                match v@[i] {
                    Some(x) => {
                        let s = w@[i]->0;
                        match x {
                            Decimal::Normalized(num) => {
                                lemma_dec_chars_not_sentinel(s@);
                            },
                            _ => {},
                        }
                        assert(v2@[i] == Some(x));
                    },
                    None => {
                        assert(v2@[i] is None);
                    },
                }
            };
        },
        LogicalType::Jsonb => {
            let v = a->Jsonb_0;
            let w = c->Utf8_0;
            let v2 = a2->Jsonb_0;
            assert forall|i: int| 0 <= i < v@.len() implies #[trigger] cell_eq(a, i, a2, i) by {
                assert(opt_match(
                    v@[i],
                    w@[i],
                    |x: Jsonb, y: String| y@ == x@ && json_valid(x@) && json_canon(x@) == x@,
                ));
                assert(opt_match(
                    w@[i],
                    v2@[i],
                    |s: String, j: Jsonb| json_valid(s@) && j@ == json_canon(s@),
                ));
                match v@[i] {
                    Some(x) => {
                        assert(v2@[i] is Some);
                        assert(v2@[i]->0@ == x@);
                    },
                    None => {
                        assert(v2@[i] is None);
                    },
                }
            };
        },
        _ => {},
    }
}

/// Decode success for primitive columns: the encoding of a well-formed
/// primitive column against its natural field always decodes without
/// error.
pub proof fn lemma_primitive_decode_ok(ty: LogicalType, f: Field, a: Array, c: ColumnData)
    requires
        primitive_array_of(ty, a),
        !(ty is Serial),
        a.wf(),
        maps_to_field(ty, f),
        encodes_as(f.data_type, a, c),
    ensures
        decode_err(f, c) is None,
{
    lemma_sentinel_texts();
    proof_tags_distinct();
    match ty {
        LogicalType::Decimal => {
            let v = a->Decimal_0;
            let w = c->Utf8_0;
            assert forall|i: int|
                0 <= i < w@.len() implies !(match #[trigger] w@[i] {
                Some(s) => dec_decode(s@) is None,
                None => false,
            }) by {
                assert(opt_match(
                    v@[i],
                    w@[i],
                    |x: Decimal, y: String| y@ == decimal_text(x) && dec_text_plain(x) && dec_text_parses(x),
                ));
                match w@[i] {
                    Some(s) => {
                        let x = v@[i]->0;
                        match x {
                            Decimal::Normalized(num) => {
                                lemma_dec_chars_not_sentinel(s@);
                                assert(sentinel_parse(s@) is None);
                                assert(dec_text_parses(x));
                                assert(dec_parse_result(s@) is Some);
                            },
                            _ => {},
                        }
                        assert(dec_decode(s@) is Some);
                    },
                    None => {},
                }
            };
        },
        LogicalType::Jsonb => {
            let v = a->Jsonb_0;
            let w = c->Utf8_0;
            assert forall|i: int|
                0 <= i < w@.len() implies !(match #[trigger] w@[i] {
                Some(s) => !json_valid(s@),
                None => false,
            }) by {
                assert(opt_match(
                    v@[i],
                    w@[i],
                    |x: Jsonb, y: String| y@ == x@ && json_valid(x@) && json_canon(x@) == x@,
                ));
            };
        },
        LogicalType::Date => {
            let v = a->Date_0;
            let w = c->Date32_0;
            assert forall|i: int|
                0 <= i < w@.len() implies !(match #[trigger] w@[i] {
                Some(y) => y > i32::MAX - UNIX_EPOCH_DAY,
                None => false,
            }) by {
                assert(opt_match(v@[i], w@[i], |x: Date, y: i32| y == x.as_arrow()));
            };
        },
        LogicalType::Time => {
            let v = a->Time_0;
            let w = c->Time64_0;
            assert forall|i: int|
                0 <= i < w@.len() implies !(match #[trigger] w@[i] {
                Some(y) => !(0 <= y < USECS_PER_DAY),
                None => false,
            }) by {
                assert(opt_match(v@[i], w@[i], |x: Time, y: i64| y == x.as_arrow()));
            };
        },
        _ => {},
    }
}

/// The first-error scan over struct children finds none when no child
/// errs.
proof fn lemma_struct_decode_err_none(fs: Seq<Field>, cols: Seq<ColumnData>, i: int)
    requires
        fs.len() == cols.len(),
        forall|j: int| 0 <= j < fs.len() ==> decode_err(#[trigger] fs[j], cols[j]) is None,
        0 <= i,
    ensures
        crate::decode::struct_decode_err(fs, cols, i) is None,
    decreases fs.len() - i,
{
    if i < fs.len() {
        lemma_struct_decode_err_none(fs, cols, i + 1);
    }
}

/// The first-error scan over the mapped sub-fields finds none when no
/// sub-field errs.
proof fn lemma_fields_decode_err_none(fs: Seq<Field>, i: int)
    requires
        forall|j: int| 0 <= j < fs.len() ==> crate::mapper::field_decode_err(#[trigger] fs[j]) is None,
        0 <= i,
    ensures
        crate::mapper::fields_decode_err(fs, i) is None,
    decreases fs.len() - i,
{
    if i < fs.len() {
        lemma_fields_decode_err_none(fs, i + 1);
    }
}

/// Schema mapping round trip, error half: the field a logical type maps
/// to always decodes.
pub proof fn lemma_field_mapping_decodes(ty: LogicalType, f: Field)
    requires
        maps_to_field(ty, f),
    ensures
        crate::mapper::field_decode_err(f) is None,
    decreases ty,
{
    proof_tags_distinct();
    match ty {
        LogicalType::Struct(fields) => {
            let inner = f.data_type->Struct_0;
            assert forall|j: int|
                0 <= j < inner@.len() implies crate::mapper::field_decode_err(
                #[trigger] inner@[j],
            ) is None by {
                assert(maps_to_field(fields@[j].ty, inner@[j]));
                lemma_field_mapping_decodes(fields@[j].ty, inner@[j]);
            };
            lemma_fields_decode_err_none(inner@, 0);
        },
        LogicalType::List(elem) => {
            let inner = f.data_type->List_0;
            lemma_field_mapping_decodes(*elem, *inner);
        },
        _ => {},
    }
}

/// Whether a type mentions Serial nowhere. A Serial column is carried as
/// a plain 64-bit integer, so its type identity does not survive the
/// interchange format.
pub open spec fn serial_free(ty: LogicalType) -> bool
    decreases ty,
{
    match ty {
        LogicalType::Serial => false,
        LogicalType::Struct(fs) => forall|i: int|
            0 <= i < fs@.len() ==> serial_free((#[trigger] fs@[i]).ty),
        LogicalType::List(e) => serial_free(*e),
        _ => true,
    }
}

/// Schema mapping round trip: whatever logical type the mapped field
/// decodes to is structurally the type it was mapped from, for any type
/// not mentioning Serial.
pub proof fn lemma_field_mapping_round_trip(ty: LogicalType, f: Field, ty2: LogicalType)
    requires
        serial_free(ty),
        maps_to_field(ty, f),
        crate::mapper::field_decodes_to(f, ty2),
    ensures
        crate::mapper::lt_equiv(ty, ty2),
    decreases ty,
{
    proof_tags_distinct();
    match ty {
        LogicalType::Struct(fields) => {
            let inner = f.data_type->Struct_0;
            let fields2 = ty2->Struct_0;
            assert forall|j: int|
                0 <= j < fields@.len() implies (#[trigger] fields@[j]).name@ == fields2@[j].name@
                && crate::mapper::lt_equiv(fields@[j].ty, fields2@[j].ty) by {
                assert(maps_to_field(fields@[j].ty, inner@[j]));
                assert(crate::mapper::field_decodes_to(inner@[j], fields2@[j].ty));
                lemma_field_mapping_round_trip(fields@[j].ty, inner@[j], fields2@[j].ty);
            };
        },
        LogicalType::List(elem) => {
            let inner = f.data_type->List_0;
            lemma_field_mapping_round_trip(*elem, *inner, *ty2->List_0);
        },
        _ => {},
    }
}

/// Batch-level round trip: a compacted batch whose columns are of
/// Serial-free logical types, encoded against the fields its types map
/// to, always decodes, and any batch decoded from the encoding has the
/// original columns back, value for value and null for null.
pub proof fn lemma_batch_round_trip(
    tys: Seq<LogicalType>,
    chunk: crate::array::InternalBatch,
    batch: crate::interchange::InterchangeBatch,
)
    requires
        chunk.wf(),
        chunk.spec_is_compacted(),
        tys.len() == chunk.columns@.len(),
        batch.fields@.len() == tys.len(),
        batch.columns@.len() == tys.len(),
        forall|i: int|
            0 <= i < tys.len() ==> has_type(chunk.columns@[i], #[trigger] tys[i]) && serial_free(
                tys[i],
            ),
        forall|i: int| 0 <= i < tys.len() ==> maps_to_field(#[trigger] tys[i], batch.fields@[i]),
        forall|i: int|
            0 <= i < tys.len() ==> encodes_as(
                batch.fields@[i].data_type,
                #[trigger] chunk.columns@[i],
                batch.columns@[i],
            ),
    ensures
        crate::decode::struct_decode_err(batch.fields@, batch.columns@, 0) is None,
        forall|i: int, a2: Array|
            0 <= i < tys.len() && #[trigger] decodes_to(batch.fields@[i], batch.columns@[i], a2)
                ==> array_equiv(chunk.columns@[i], a2),
{
    assert forall|i: int|
        0 <= i < tys.len() implies decode_err(#[trigger] batch.fields@[i], batch.columns@[i])
        is None by {
        assert(chunk.columns@[i].wf());
        lemma_decode_ok(tys[i], batch.fields@[i], chunk.columns@[i], batch.columns@[i]);
    };
    lemma_struct_decode_err_none(batch.fields@, batch.columns@, 0);
    assert forall|i: int, a2: Array|
        0 <= i < tys.len() && #[trigger] decodes_to(
        batch.fields@[i],
        batch.columns@[i],
        a2,
    ) implies array_equiv(chunk.columns@[i], a2) by {
        assert(chunk.columns@[i].wf());
        lemma_round_trip(tys[i], batch.fields@[i], chunk.columns@[i], batch.columns@[i], a2);
    };
}


/// Within a monotone offsets buffer, earlier entries never exceed later
/// ones.
proof fn lemma_offsets_chain(o: Seq<u32>, i: int, j: int)
    requires
        forall|k: int| 0 <= k < o.len() - 1 ==> #[trigger] o[k] <= o[k + 1],
        0 <= i <= j < o.len(),
    ensures
        o[i] <= o[j],
    decreases j - i,
{
    if i < j {
        lemma_offsets_chain(o, i + 1, j);
    }
}

/// Whether `a` is a column of the logical type `ty`, recursively: list
/// columns hold elements of the element type, struct columns hold one
/// child per named sub-field.
pub open spec fn has_type(a: Array, ty: LogicalType) -> bool
    decreases ty,
{
    match ty {
        LogicalType::Struct(fs) => (match a {
            Array::Struct(s) => {
                &&& s.children@.len() == fs@.len()
                &&& s.field_names@.len() == fs@.len()
                &&& forall|i: int|
                    0 <= i < fs@.len() ==> (#[trigger] s.field_names@[i])@ == fs@[i].name@
                &&& forall|i: int|
                    0 <= i < fs@.len() ==> has_type(s.children@[i], (#[trigger] fs@[i]).ty)
            },
            _ => false,
        }),
        LogicalType::List(elem) => (match a {
            Array::List(l) => has_type(*l.value, *elem),
            _ => false,
        }),
        _ => primitive_array_of(ty, a),
    }
}

/// Decode success for whole columns: the encoding of a well-formed
/// column of any Serial-free logical type against the field its type
/// maps to always decodes without error.
#[verifier::rlimit(100)]
pub proof fn lemma_decode_ok(ty: LogicalType, f: Field, a: Array, c: ColumnData)
    requires
        serial_free(ty),
        has_type(a, ty),
        a.wf(),
        maps_to_field(ty, f),
        encodes_as(f.data_type, a, c),
    ensures
        decode_err(f, c) is None,
    decreases ty,
{
    match ty {
        LogicalType::Struct(fs) => {
            let s = a->Struct_0;
            let inner = f.data_type->Struct_0;
            let sc = c->Struct_0;
            assert forall|j: int|
                0 <= j < inner@.len() implies decode_err(
                #[trigger] inner@[j],
                sc.children@[j],
            ) is None by {
                assert(has_type(s.children@[j], fs@[j].ty));
                assert(s.children@[j].wf());
                assert(maps_to_field(fs@[j].ty, inner@[j]));
                assert(encodes_as(inner@[j].data_type, s.children@[j], sc.children@[j]));
                lemma_decode_ok(fs@[j].ty, inner@[j], s.children@[j], sc.children@[j]);
            };
            lemma_struct_decode_err_none(inner@, sc.children@, 0);
        },
        LogicalType::List(elem) => {
            let l = a->List_0;
            let inner = f.data_type->List_0;
            let lc = c->List_0;
            lemma_decode_ok(*elem, *inner, *l.value, *lc.values);
        },
        _ => {
            lemma_primitive_decode_ok(ty, f, a, c);
        },
    }
}

/// Round trip for whole columns: a well-formed column of any Serial-free
/// logical type, encoded against the field its type maps to and decoded
/// back, returns value for value and null for null, through lists and
/// structs alike.
#[verifier::rlimit(100)]
pub proof fn lemma_round_trip(ty: LogicalType, f: Field, a: Array, c: ColumnData, a2: Array)
    requires
        serial_free(ty),
        has_type(a, ty),
        a.wf(),
        maps_to_field(ty, f),
        encodes_as(f.data_type, a, c),
        decodes_to(f, c, a2),
    ensures
        array_equiv(a, a2),
    decreases ty,
{
    match ty {
        LogicalType::Struct(fs) => {
            let s = a->Struct_0;
            let inner = f.data_type->Struct_0;
            let sc = c->Struct_0;
            let s2 = a2->Struct_0;
            assert forall|j: int|
                0 <= j < fs@.len() implies array_equiv(
                #[trigger] s.children@[j],
                s2.children@[j],
            ) by {
                assert(has_type(s.children@[j], fs@[j].ty));
                assert(s.children@[j].wf());
                assert(maps_to_field(fs@[j].ty, inner@[j]));
                assert(encodes_as(inner@[j].data_type, s.children@[j], sc.children@[j]));
                assert(decodes_to(inner@[j], sc.children@[j], s2.children@[j]));
                lemma_round_trip(
                    fs@[j].ty,
                    inner@[j],
                    s.children@[j],
                    sc.children@[j],
                    s2.children@[j],
                );
            };
            assert(same_shape(a, a2)) by {
                assert forall|j: int|
                    0 <= j < fs@.len() implies (#[trigger] s.field_names@[j])@
                    == s2.field_names@[j]@ by {
                    assert(s.field_names@[j]@ == fs@[j].name@);
                    assert(s2.field_names@[j]@ == inner@[j].name@);
                    assert(inner@[j].name@ == fs@[j].name@);
                };
                assert forall|j: int|
                    0 <= j < fs@.len() implies same_shape(
                    #[trigger] s.children@[j],
                    s2.children@[j],
                ) by {
                    assert(array_equiv(s.children@[j], s2.children@[j]));
                };
            };
            assert forall|i: int| 0 <= i < a.spec_len() implies #[trigger] cell_eq(a, i, a2, i) by {
                assert(s.validity@ == sc.validity@);
                assert(s2.validity@ == sc.validity@);
                assert forall|j: int|
                    0 <= j < s.children@.len() implies cell_eq(
                    #[trigger] s.children@[j],
                    i,
                    s2.children@[j],
                    i,
                ) by {
                    assert(array_equiv(s.children@[j], s2.children@[j]));
                    assert(s.children@[j].spec_len() == s.validity@.len());
                };
            };
        },
        LogicalType::List(elem) => {
            let l = a->List_0;
            let inner = f.data_type->List_0;
            let lc = c->List_0;
            let l2 = a2->List_0;
            lemma_round_trip(*elem, *inner, *l.value, *lc.values, *l2.value);
            assert(array_equiv(*l.value, *l2.value));
            assert forall|i: int| 0 <= i < a.spec_len() implies #[trigger] cell_eq(a, i, a2, i) by {
                assert(l.validity@ == lc.validity@);
                assert(l2.validity@ == lc.validity@);
                assert(l.offsets@[i] as int == lc.offsets@[i] as int);
                assert(l2.offsets@[i] as int == lc.offsets@[i] as int);
                assert(l.offsets@[i + 1] as int == lc.offsets@[i + 1] as int);
                assert(l2.offsets@[i + 1] as int == lc.offsets@[i + 1] as int);
                let s1 = l.offsets@[i] as int;
                let len = l.offsets@[i + 1] - l.offsets@[i];
                assert forall|k: int| 0 <= k < len implies #[trigger] cell_eq(
                    *l.value,
                    s1 + k,
                    *l2.value,
                    s1 + k,
                ) by {
                    lemma_offsets_chain(l.offsets@, i + 1, l.validity@.len() as int);
                    assert(0 <= s1 + k < l.value.spec_len());
                    assert(cell_eq(*l.value, s1 + k, *l2.value, s1 + k));
                };
                crate::compact::lemma_run_eq_intro(*l.value, s1, *l2.value, s1, len);
            };
        },
        _ => {
            lemma_primitive_round_trip(ty, f, a, c, a2);
        },
    }
}


/// The byte-carried decimal encoding leaves no undecodable slot: every
/// encoded value is valid UTF-8 whose text decodes back to the value it
/// was rendered from. With the decoder's contract this means decoding
/// the encoding cannot fail.
pub proof fn lemma_decimal_binary_decode_ok(v: Seq<Option<Decimal>>, w: Seq<Option<Vec<u8>>>)
    requires
        crate::array::opt_rel(
            v,
            w,
            |x: Decimal, y: Vec<u8>| y@ == encode_utf8(decimal_text(x)) && dec_text_plain(
                x,
            ) && dec_text_parses(x),
        ),
        forall|i: int|
            0 <= i < v.len() ==> (match #[trigger] v[i] {
                Some(d) => d.wf(),
                None => true,
            }),
    ensures
        forall|i: int|
            0 <= i < w.len() ==> (match #[trigger] w[i] {
                Some(y) => !crate::decode::dec_binary_slot_bad(y),
                None => true,
            }),
        forall|i: int|
            0 <= i < w.len() ==> opt_match(
                #[trigger] w[i],
                v[i],
                |y: Vec<u8>, x: Decimal| dec_decode(vstd::utf8::decode_utf8(y@)) == Some(x),
            ),
{
    lemma_sentinel_texts();
    assert forall|i: int|
        0 <= i < w.len() implies (match #[trigger] w[i] {
        Some(y) => !crate::decode::dec_binary_slot_bad(y) && (match v[i] {
            Some(x) => dec_decode(vstd::utf8::decode_utf8(y@)) == Some(x),
            None => false,
        }),
        None => v[i] is None,
    }) by {
        assert(opt_match(
            v[i],
            w[i],
            |x: Decimal, y: Vec<u8>| y@ == encode_utf8(decimal_text(x)) && dec_text_plain(
                x,
            ) && dec_text_parses(x),
        ));
        match (v[i], w[i]) {
            (Some(x), Some(y)) => {
                vstd::utf8::encode_utf8_valid_utf8(decimal_text(x));
                vstd::utf8::encode_utf8_decode_utf8(decimal_text(x));
                assert(vstd::utf8::decode_utf8(y@) == decimal_text(x));
                match x {
                    Decimal::Normalized(num) => {
                        lemma_dec_chars_not_sentinel(decimal_text(x));
                        assert(dec_parse_result(decimal_text(x)) == Some::<(i128, u32)>((
                            num.mantissa,
                            num.scale,
                        )));
                    },
                    _ => {},
                }
                assert(dec_decode(decimal_text(x)) == Some(x));
            },
            _ => {},
        }
    };
}

/// Round trip through the byte carrier: decoding the byte-carried
/// encoding of a decimal column gives the column back, slot for slot.
pub proof fn lemma_decimal_binary_round_trip(
    v: Seq<Option<Decimal>>,
    w: Seq<Option<Vec<u8>>>,
    v2: Seq<Option<Decimal>>,
)
    requires
        crate::array::opt_rel(
            v,
            w,
            |x: Decimal, y: Vec<u8>| y@ == encode_utf8(decimal_text(x)) && dec_text_plain(
                x,
            ) && dec_text_parses(x),
        ),
        forall|i: int|
            0 <= i < v.len() ==> (match #[trigger] v[i] {
                Some(d) => d.wf(),
                None => true,
            }),
        crate::array::opt_rel(
            w,
            v2,
            |x: Vec<u8>, d: Decimal| vstd::utf8::valid_utf8(x@) && Some(d) == dec_decode(
                vstd::utf8::decode_utf8(x@),
            ) && d.wf(),
        ),
    ensures
        v2 == v,
{
    lemma_decimal_binary_decode_ok(v, w);
    assert forall|i: int| 0 <= i < v.len() implies v2[i] == v[i] by {
        assert(opt_match(
            w[i],
            v2[i],
            |x: Vec<u8>, d: Decimal| vstd::utf8::valid_utf8(x@) && Some(d) == dec_decode(
                vstd::utf8::decode_utf8(x@),
            ) && d.wf(),
        ));
        assert(opt_match(
            w[i],
            v[i],
            |y: Vec<u8>, x: Decimal| dec_decode(vstd::utf8::decode_utf8(y@)) == Some(x),
        ));
    };
    assert(v2 =~= v);
}

} // verus!