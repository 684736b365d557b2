//! The internal decimal type and its text codec.
//!
//! Decimals have no native interchange representation: they travel as text
//! inside a string-typed field tagged with an extension name. The text form
//! is either a plain numeral or one of three sentinel literals for
//! not-a-number, positive infinity and negative infinity, which must round
//! trip exactly.

use vstd::prelude::*;

use crate::strutil::{eq_lower, lower_code};

verus! {

/// Largest mantissa magnitude of a normalized decimal: 96 bits.
pub const MAX_DEC_MANTISSA: i128 = 0xFFFF_FFFF_FFFF_FFFF_FFFF_FFFF;

/// Largest scale of a normalized decimal.
pub const MAX_DEC_SCALE: u32 = 28;

/// A mantissa-and-scale pair representing `mantissa * 10^-scale`.
#[derive(Clone, Copy, Debug, PartialEq, Eq, Structural)]
pub struct DecimalNum {
    pub mantissa: i128,
    pub scale: u32,
}

/// The internal decimal value: a finite numeral or one of three sentinels.
#[derive(Clone, Copy, Debug, PartialEq, Eq, Structural)]
pub enum Decimal {
    NaN,
    PositiveInf,
    NegativeInf,
    Normalized(DecimalNum),
}

/// Mantissa and scale ranges of a representable normalized decimal.
pub open spec fn dec_wf(mantissa: int, scale: int) -> bool {
    &&& -MAX_DEC_MANTISSA <= mantissa <= MAX_DEC_MANTISSA
    &&& 0 <= scale <= MAX_DEC_SCALE
}

impl Decimal {
    pub open spec fn wf(self) -> bool {
        match self {
            Decimal::Normalized(n) => dec_wf(n.mantissa as int, n.scale as int),
            _ => true,
        }
    }
}

/// The canonical text of the decimal with the given mantissa and scale.
pub uninterp spec fn dec_text(mantissa: int, scale: int) -> Seq<char>;

/// Characters that can occur in a rendered numeral: digits, the decimal
/// point and the minus sign.
pub open spec fn dec_char(c: char) -> bool {
    (48 <= c as int <= 57) || c as int == 46 || c as int == 45
}

/// Relies on rust_decimal's `Decimal::from_i128_with_scale`, its `Display`
/// impl and its `FromStr` impl: the rendered text is a locale-free numeral
/// determined by mantissa and scale alone, non-empty, made of digits, at
/// most one decimal point and a leading minus sign, and parsing it back
/// recovers the same mantissa and scale.
#[verifier::external_body]
fn dec_render(mantissa: i128, scale: u32) -> (r: String)
    requires
        dec_wf(mantissa as int, scale as int),
    ensures
        r@ == dec_text(mantissa as int, scale as int),
        r@.len() > 0,
        forall|i: int| 0 <= i < r@.len() ==> dec_char(#[trigger] r@[i]),
        dec_parse_result(r@) == Some::<(i128, u32)>((mantissa, scale)),
{
    rust_decimal::Decimal::from_i128_with_scale(mantissa, scale).to_string()
}

/// The mantissa and scale that parsing the given text yields, if it
/// parses as a plain numeral at all.
pub uninterp spec fn dec_parse_result(s: Seq<char>) -> Option<(i128, u32)>;

/// Parsing pins down every rendered numeral: if the text is the rendering
/// of a representable mantissa and scale, parsing returns exactly them.
pub open spec fn dec_parse_pins(s: Seq<char>) -> bool {
    forall|m: i128, sc: u32|
        dec_wf(m as int, sc as int) && s == dec_text(m as int, sc as int) ==> dec_parse_result(s)
            == Some::<(i128, u32)>((m, sc))
}

/// Relies on rust_decimal's `FromStr` impl and its `mantissa` and `scale`
/// accessors: the parse outcome is a function of the text alone, any
/// successfully parsed value has a 96-bit mantissa and a scale of at most
/// 28, and parsing the text rendered from a mantissa and scale recovers
/// exactly that pair.
#[verifier::external_body]
fn dec_parse(s: &str) -> (r: Option<(i128, u32)>)
    ensures
        r == dec_parse_result(s@),
        (match r {
            Some(p) => dec_wf(p.0 as int, p.1 as int),
            None => true,
        }),
        forall|m: i128, sc: u32|
            dec_wf(m as int, sc as int) && s@ == dec_text(m as int, sc as int) ==> r == Some::<(
                i128,
                u32,
            )>((m, sc)),
{
    match s.parse::<rust_decimal::Decimal>() {
        Ok(d) => Some((d.mantissa(), d.scale())),
        Err(_) => None,
    }
}

/// Parsing the rendered text of a finite decimal recovers its mantissa
/// and scale.
pub open spec fn dec_text_parses(x: Decimal) -> bool {
    match x {
        Decimal::Normalized(n) => dec_parse_result(dec_text(n.mantissa as int, n.scale as int))
            == Some::<(i128, u32)>((n.mantissa, n.scale)),
        _ => true,
    }
}

/// The sentinel literal for not-a-number, compared case-insensitively.
pub open spec fn is_nan_text(s: Seq<char>) -> bool {
    eq_lower(s, "nan"@)
}

/// The accepted spellings of positive infinity.
pub open spec fn is_pos_inf_text(s: Seq<char>) -> bool {
    ||| eq_lower(s, "inf"@)
    ||| eq_lower(s, "infinity"@)
    ||| eq_lower(s, "+inf"@)
    ||| eq_lower(s, "+infinity"@)
}

/// The accepted spellings of negative infinity.
pub open spec fn is_neg_inf_text(s: Seq<char>) -> bool {
    ||| eq_lower(s, "-inf"@)
    ||| eq_lower(s, "-infinity"@)
}

/// The canonical text of a decimal value: a sentinel literal or the
/// rendered numeral.
pub open spec fn decimal_text(d: Decimal) -> Seq<char> {
    match d {
        Decimal::NaN => "NaN"@,
        Decimal::PositiveInf => "Infinity"@,
        Decimal::NegativeInf => "-Infinity"@,
        Decimal::Normalized(n) => dec_text(n.mantissa as int, n.scale as int),
    }
}

/// Renders a decimal to its canonical text.
pub fn decimal_to_text(d: &Decimal) -> (r: String)
    requires
        d.wf(),
    ensures
        r@ == decimal_text(*d),
        d is Normalized ==> forall|i: int| 0 <= i < r@.len() ==> dec_char(#[trigger] r@[i]),
        dec_text_parses(*d),
{
    match d {
        Decimal::NaN => "NaN".to_owned(),
        Decimal::PositiveInf => "Infinity".to_owned(),
        Decimal::NegativeInf => "-Infinity".to_owned(),
        Decimal::Normalized(n) => dec_render(n.mantissa, n.scale),
    }
}

/// The sentinel value that decimal text denotes, if it is sentinel text at
/// all, trying the not-a-number spelling first as the parser does.
pub open spec fn sentinel_parse(s: Seq<char>) -> Option<Decimal> {
    if is_nan_text(s) {
        Some(Decimal::NaN)
    } else if is_pos_inf_text(s) {
        Some(Decimal::PositiveInf)
    } else if is_neg_inf_text(s) {
        Some(Decimal::NegativeInf)
    } else {
        None
    }
}

/// The three canonical sentinel texts classify as the sentinels they spell.
pub proof fn lemma_sentinel_texts()
    ensures
        sentinel_parse("NaN"@) == Some(Decimal::NaN),
        sentinel_parse("Infinity"@) == Some(Decimal::PositiveInf),
        sentinel_parse("-Infinity"@) == Some(Decimal::NegativeInf),
{
    reveal_strlit("NaN");
    reveal_strlit("Infinity");
    reveal_strlit("-Infinity");
    reveal_strlit("nan");
    reveal_strlit("inf");
    reveal_strlit("infinity");
    reveal_strlit("+inf");
    reveal_strlit("+infinity");
    reveal_strlit("-inf");
    reveal_strlit("-infinity");
    assert(eq_lower("NaN"@, "nan"@));
    assert(eq_lower("Infinity"@, "infinity"@));
    assert(eq_lower("-Infinity"@, "-infinity"@));
    assert(!eq_lower("Infinity"@, "nan"@));
    assert(!is_nan_text("-Infinity"@));
    assert(!eq_lower("-Infinity"@, "+infinity"@)) by {
        assert(lower_code("-Infinity"@[0]) != lower_code("+infinity"@[0]));
    };
    assert(!is_pos_inf_text("-Infinity"@));
}

/// The decimal value that the given text denotes: a sentinel spelling, or
/// the plain numeral that the decimal library's grammar accepts.
pub open spec fn dec_decode(s: Seq<char>) -> Option<Decimal> {
    match sentinel_parse(s) {
        Some(d) => Some(d),
        None => match dec_parse_result(s) {
            Some(p) => Some(Decimal::Normalized(DecimalNum { mantissa: p.0, scale: p.1 })),
            None => None,
        },
    }
}

/// Parses decimal text: the three sentinel families first, then the plain
/// numeral grammar of the decimal library.
pub fn decimal_from_text(s: &str) -> (r: Option<Decimal>)
    ensures
        r == dec_decode(s@),
        dec_parse_pins(s@),
        (match r {
            Some(d) => d.wf(),
            None => true,
        }),
{
    let parsed = dec_parse(s);
    if crate::strutil::str_eq_ignore_case(s, "nan") {
        return Some(Decimal::NaN);
    }
    if crate::strutil::str_eq_ignore_case(s, "inf") || crate::strutil::str_eq_ignore_case(
        s,
        "infinity",
    ) || crate::strutil::str_eq_ignore_case(s, "+inf") || crate::strutil::str_eq_ignore_case(
        s,
        "+infinity",
    ) {
        return Some(Decimal::PositiveInf);
    }
    if crate::strutil::str_eq_ignore_case(s, "-inf") || crate::strutil::str_eq_ignore_case(
        s,
        "-infinity",
    ) {
        return Some(Decimal::NegativeInf);
    }
    match parsed {
        Some(p) => Some(Decimal::Normalized(DecimalNum { mantissa: p.0, scale: p.1 })),
        None => None,
    }
}

/// A rendered numeral is never mistaken for a sentinel: every sentinel
/// spelling contains a letter or a plus sign, which the numeral alphabet
/// excludes.
pub proof fn lemma_dec_chars_not_sentinel(s: Seq<char>)
    requires
        forall|i: int| 0 <= i < s.len() ==> dec_char(#[trigger] s[i]),
    ensures
        !is_nan_text(s),
        !is_pos_inf_text(s),
        !is_neg_inf_text(s),
{
    reveal_strlit("nan");
    reveal_strlit("inf");
    reveal_strlit("infinity");
    reveal_strlit("+inf");
    reveal_strlit("+infinity");
    reveal_strlit("-inf");
    reveal_strlit("-infinity");
    if eq_lower(s, "nan"@) {
        assert(lower_code(s[0]) == lower_code("nan"@[0]));
        assert(false);
    }
    if eq_lower(s, "inf"@) {
        assert(lower_code(s[0]) == lower_code("inf"@[0]));
        assert(false);
    }
    if eq_lower(s, "infinity"@) {
        assert(lower_code(s[0]) == lower_code("infinity"@[0]));
        assert(false);
    }
    if eq_lower(s, "+inf"@) {
        assert(lower_code(s[0]) == lower_code("+inf"@[0]));
        assert(false);
    }
    if eq_lower(s, "+infinity"@) {
        assert(lower_code(s[0]) == lower_code("+infinity"@[0]));
        assert(false);
    }
    if eq_lower(s, "-inf"@) {
        assert(lower_code(s[1]) == lower_code("-inf"@[1]));
        assert(false);
    }
    if eq_lower(s, "-infinity"@) {
        assert(lower_code(s[1]) == lower_code("-infinity"@[1]));
        assert(false);
    }
}

} // verus!
