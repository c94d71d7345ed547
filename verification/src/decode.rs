//! The reading decoder: wire bytes to a structured sensor reading.
//!
//! A message is a single text object with exactly the five named numeric
//! fields, in any order, each exactly once, with arbitrary whitespace between
//! tokens: `{ "temperature": 21.5, "humidity": 40, ... }`. Numbers are
//! decimal literals with an optional sign, fraction and power-of-ten
//! exponent. A message whose value cannot be held exactly by a parsed
//! [`Decimal`] (more than `10^15` in mantissa magnitude, or finer than
//! `10^-9`) is rejected like any other malformed message.
//!
//! The whole grammar is written out as spec functions; `decode` is proved to
//! accept exactly the messages the grammar accepts, and to return the exact
//! normalized reading for each of them.

use vstd::prelude::*;

use crate::decimal::Decimal;
use crate::decimal::MAX_EXP_MAGNITUDE;
use crate::decimal::PARSE_MAX_MANTISSA;
use crate::reading::SensorReading;
use crate::reading::normalize;
use crate::reading::spec_output;

verus! {

/// A message that does not conform to the wire format. No partial reading
/// ever escapes: rejection carries no data.
#[derive(Clone, Copy, Debug, PartialEq, Eq, Structural)]
pub struct DecodeError {}

// ---------------------------------------------------------------------------
// Character classes and scanning
// ---------------------------------------------------------------------------

/// Space, tab, line feed or carriage return.
pub open spec fn is_ws(b: u8) -> bool {
    b == 32 || b == 9 || b == 10 || b == 13
}

/// An ASCII decimal digit.
pub open spec fn is_digit(b: u8) -> bool {
    48 <= b <= 57
}

/// The first position at or after `i` holding a non-whitespace byte, or the
/// end of the message.
pub open spec fn spec_skip_ws(s: Seq<u8>, i: int) -> int
    decreases s.len() - i,
        when 0 <= i <= s.len()
{
    if i < s.len() && is_ws(s[i]) {
        spec_skip_ws(s, i + 1)
    } else {
        i
    }
}

/// The end of the digit run starting at `i`.
pub open spec fn spec_digits_end(s: Seq<u8>, i: int) -> int
    decreases s.len() - i,
        when 0 <= i <= s.len()
{
    if i < s.len() && is_digit(s[i]) {
        spec_digits_end(s, i + 1)
    } else {
        i
    }
}

/// The first position at or after `i` holding a double quote, or the end of
/// the message.
pub open spec fn spec_scan_quote(s: Seq<u8>, i: int) -> int
    decreases s.len() - i,
        when 0 <= i <= s.len()
{
    if i < s.len() && s[i] != 34 {
        spec_scan_quote(s, i + 1)
    } else {
        i
    }
}

/// The value of the digits in `i .. end` appended to `acc`, read left to
/// right; `None` as soon as the running value passes `cap`.
pub open spec fn spec_digits_value(s: Seq<u8>, i: int, end: int, acc: int, cap: int) -> Option<
    int,
>
    decreases end - i,
        when i <= end
{
    if i >= end {
        Some(acc)
    } else {
        let acc2 = acc * 10 + (s[i] - 48);
        if acc2 > cap {
            None
        } else {
            spec_digits_value(s, i + 1, end, acc2, cap)
        }
    }
}

fn ws_byte(b: u8) -> (r: bool)
    ensures
        r == is_ws(b),
{
    b == 32 || b == 9 || b == 10 || b == 13
}

fn digit_byte(b: u8) -> (r: bool)
    ensures
        r == is_digit(b),
{
    48 <= b && b <= 57
}

fn skip_ws(s: &[u8], i: usize) -> (r: usize)
    requires
        i <= s@.len(),
    ensures
        r == spec_skip_ws(s@, i as int),
        i <= r <= s@.len(),
{
    let mut j: usize = i;
    while j < s.len() && ws_byte(s[j])
        invariant
            i <= j <= s@.len(),
            spec_skip_ws(s@, i as int) == spec_skip_ws(s@, j as int),
        decreases s@.len() - j,
    {
        j = j + 1;
    }
    j
}

fn digits_end(s: &[u8], i: usize) -> (r: usize)
    requires
        i <= s@.len(),
    ensures
        r == spec_digits_end(s@, i as int),
        i <= r <= s@.len(),
        forall|k: int| i <= k < r ==> is_digit(s@[k]),
{
    let mut j: usize = i;
    while j < s.len() && digit_byte(s[j])
        invariant
            i <= j <= s@.len(),
            spec_digits_end(s@, i as int) == spec_digits_end(s@, j as int),
            forall|k: int| i <= k < j ==> is_digit(s@[k]),
        decreases s@.len() - j,
    {
        j = j + 1;
    }
    j
}

fn scan_quote(s: &[u8], i: usize) -> (r: usize)
    requires
        i <= s@.len(),
    ensures
        r == spec_scan_quote(s@, i as int),
        i <= r <= s@.len(),
{
    let mut j: usize = i;
    while j < s.len() && s[j] != 34
        invariant
            i <= j <= s@.len(),
            spec_scan_quote(s@, i as int) == spec_scan_quote(s@, j as int),
        decreases s@.len() - j,
    {
        j = j + 1;
    }
    j
}

fn digits_value(s: &[u8], i: usize, end: usize, acc: i64, cap: i64) -> (r: Option<i64>)
    requires
        i <= end <= s@.len(),
        0 <= acc <= cap,
        cap <= PARSE_MAX_MANTISSA,
        forall|k: int| i <= k < end ==> is_digit(s@[k]),
    ensures
        match r {
            Some(v) => spec_digits_value(s@, i as int, end as int, acc as int, cap as int)
                == Some(v as int) && 0 <= v <= cap,
            None => spec_digits_value(s@, i as int, end as int, acc as int, cap as int) is None,
        },
{
    let mut j: usize = i;
    let mut a: i64 = acc;
    while j < end
        invariant
            i <= j <= end <= s@.len(),
            0 <= a <= cap <= PARSE_MAX_MANTISSA,
            forall|k: int| i <= k < end ==> is_digit(s@[k]),
            spec_digits_value(s@, i as int, end as int, acc as int, cap as int)
                == spec_digits_value(s@, j as int, end as int, a as int, cap as int),
        decreases end - j,
    {
        assert(is_digit(s@[j as int]));
        let d: u8 = s[j] - 48;
        let a2: i64 = a * 10 + (d as i64);
        if a2 > cap {
            return None;
        }
        a = a2;
        j = j + 1;
    }
    Some(a)
}

// ---------------------------------------------------------------------------
// Numbers
// ---------------------------------------------------------------------------

/// `m * 10^e` for a positive mantissa, folding the exponent into the
/// mantissa; `None` as soon as the mantissa passes the parse bound.
pub open spec fn spec_shift_up(m: int, e: int) -> Option<int>
    decreases e,
        when e >= 0
{
    if e <= 0 {
        Some(m)
    } else if m * 10 > PARSE_MAX_MANTISSA {
        None
    } else {
        spec_shift_up(m * 10, e - 1)
    }
}

/// The signed decimal with mantissa magnitude `m` and exponent `e`.
pub open spec fn spec_signed(neg: bool, m: int, e: int) -> Decimal {
    Decimal { mantissa: (if neg { -m } else { m }) as i64, exponent: e as i32 }
}

/// Assemble the final decimal out of the scanned parts: mantissa magnitude
/// `m`, sign, and power-of-ten exponent `e`. A zero mantissa collapses to
/// the canonical zero; a positive exponent is folded into the mantissa; an
/// exponent below `-9` is out of the supported precision and rejected, as is
/// a mantissa that leaves the parse bound.
pub open spec fn spec_make_decimal(neg: bool, m: int, e: int, end: int) -> Option<
    (Decimal, int),
> {
    if m == 0 {
        Some((Decimal { mantissa: 0, exponent: 0 }, end))
    } else if e > 0 {
        match spec_shift_up(m, e) {
            Some(m2) => Some((spec_signed(neg, m2, 0), end)),
            None => None,
        }
    } else if e < -9 {
        None
    } else {
        Some((spec_signed(neg, m, e), end))
    }
}

/// The optional exponent part (`e`/`E`, optional sign, digits) at `pos`,
/// and the assembled decimal.
pub open spec fn spec_number_exp(s: Seq<u8>, pos: int, neg: bool, m: int, frac_len: int)
    -> Option<(Decimal, int)> {
    if pos < s.len() && (s[pos] == 101 || s[pos] == 69) {
        let sp = pos + 1;
        let eneg = sp < s.len() && s[sp] == 45;
        let es = if sp < s.len() && (s[sp] == 45 || s[sp] == 43) {
            sp + 1
        } else {
            sp
        };
        if es < s.len() && is_digit(s[es]) {
            let ee = spec_digits_end(s, es);
            match spec_digits_value(s, es, ee, 0, MAX_EXP_MAGNITUDE as int) {
                Some(ev) => spec_make_decimal(
                    neg,
                    m,
                    (if eneg {
                        -ev
                    } else {
                        ev
                    }) - frac_len,
                    ee,
                ),
                None => None,
            }
        } else {
            None
        }
    } else {
        spec_make_decimal(neg, m, -frac_len, pos)
    }
}

/// The optional fraction part (`.` and digits) at `pos`, continuing the
/// mantissa `m0`, then the exponent part.
pub open spec fn spec_number_frac(s: Seq<u8>, pos: int, neg: bool, m0: int) -> Option<
    (Decimal, int),
> {
    if pos < s.len() && s[pos] == 46 {
        let fs = pos + 1;
        let fe = spec_digits_end(s, fs);
        if fe == fs {
            None
        } else {
            match spec_digits_value(s, fs, fe, m0, PARSE_MAX_MANTISSA as int) {
                Some(m1) => spec_number_exp(s, fe, neg, m1, fe - fs),
                None => None,
            }
        }
    } else {
        spec_number_exp(s, pos, neg, m0, 0)
    }
}

/// A decimal literal at `i`: optional minus sign, an integer part with no
/// leading zero, an optional fraction, an optional exponent. Yields the
/// parsed decimal and the position just past it.
pub open spec fn spec_number(s: Seq<u8>, i: int) -> Option<(Decimal, int)> {
    let neg = i < s.len() && s[i] == 45;
    let i1 = if neg {
        i + 1
    } else {
        i
    };
    if i1 < s.len() && is_digit(s[i1]) {
        let int_end = if s[i1] == 48 {
            i1 + 1
        } else {
            spec_digits_end(s, i1)
        };
        match spec_digits_value(s, i1, int_end, 0, PARSE_MAX_MANTISSA as int) {
            Some(m0) => spec_number_frac(s, int_end, neg, m0),
            None => None,
        }
    } else {
        None
    }
}

fn shift_up(m: i64, e: i128) -> (r: Option<i64>)
    requires
        1 <= m <= PARSE_MAX_MANTISSA,
        e >= 1,
    ensures
        match r {
            Some(v) => spec_shift_up(m as int, e as int) == Some(v as int) && 1 <= v
                <= PARSE_MAX_MANTISSA,
            None => spec_shift_up(m as int, e as int) is None,
        },
{
    let mut mm: i64 = m;
    let mut ee: i128 = e;
    while ee > 0
        invariant
            1 <= mm <= PARSE_MAX_MANTISSA,
            0 <= ee,
            spec_shift_up(m as int, e as int) == spec_shift_up(mm as int, ee as int),
        decreases ee,
    {
        let m2: i64 = mm * 10;
        if m2 > PARSE_MAX_MANTISSA {
            return None;
        }
        mm = m2;
        ee = ee - 1;
    }
    Some(mm)
}

fn signed_decimal(neg: bool, m: i64, e: i32) -> (d: Decimal)
    requires
        0 <= m <= PARSE_MAX_MANTISSA,
        -9 <= e <= 0,
    ensures
        d == spec_signed(neg, m as int, e as int),
        d.parsed_wf(),
{
    Decimal { mantissa: if neg { -m } else { m }, exponent: e }
}

fn make_decimal(neg: bool, m: i64, e: i128, end: usize) -> (r: Option<(Decimal, usize)>)
    requires
        0 <= m <= PARSE_MAX_MANTISSA,
    ensures
        match r {
            Some((d, j)) => spec_make_decimal(neg, m as int, e as int, end as int) == Some(
                (d, j as int),
            ) && d.parsed_wf() && j == end,
            None => spec_make_decimal(neg, m as int, e as int, end as int) is None,
        },
{
    if m == 0 {
        Some((Decimal { mantissa: 0, exponent: 0 }, end))
    } else if e > 0 {
        match shift_up(m, e) {
            Some(m2) => Some((signed_decimal(neg, m2, 0), end)),
            None => None,
        }
    } else if e < -9 {
        None
    } else {
        Some((signed_decimal(neg, m, e as i32), end))
    }
}

fn number_exp(s: &[u8], pos: usize, neg: bool, m: i64, frac_len: usize) -> (r: Option<
    (Decimal, usize),
>)
    requires
        pos <= s@.len(),
        0 <= m <= PARSE_MAX_MANTISSA,
    ensures
        match r {
            Some((d, j)) => spec_number_exp(s@, pos as int, neg, m as int, frac_len as int)
                == Some((d, j as int)) && d.parsed_wf() && pos <= j <= s@.len(),
            None => spec_number_exp(s@, pos as int, neg, m as int, frac_len as int) is None,
        },
{
    if pos < s.len() && (s[pos] == 101 || s[pos] == 69) {
        let sp: usize = pos + 1;
        let eneg: bool = sp < s.len() && s[sp] == 45;
        let es: usize = if sp < s.len() && (s[sp] == 45 || s[sp] == 43) {
            sp + 1
        } else {
            sp
        };
        if es < s.len() && digit_byte(s[es]) {
            let ee: usize = digits_end(s, es);
            match digits_value(s, es, ee, 0, MAX_EXP_MAGNITUDE) {
                Some(ev) => {
                    let e: i128 = (if eneg {
                        -(ev as i128)
                    } else {
                        ev as i128
                    }) - (frac_len as i128);
                    make_decimal(neg, m, e, ee)
                },
                None => None,
            }
        } else {
            None
        }
    } else {
        make_decimal(neg, m, -(frac_len as i128), pos)
    }
}

fn number_frac(s: &[u8], pos: usize, neg: bool, m0: i64) -> (r: Option<(Decimal, usize)>)
    requires
        pos <= s@.len(),
        0 <= m0 <= PARSE_MAX_MANTISSA,
    ensures
        match r {
            Some((d, j)) => spec_number_frac(s@, pos as int, neg, m0 as int) == Some(
                (d, j as int),
            ) && d.parsed_wf() && pos <= j <= s@.len(),
            None => spec_number_frac(s@, pos as int, neg, m0 as int) is None,
        },
{
    if pos < s.len() && s[pos] == 46 {
        let fs: usize = pos + 1;
        let fe: usize = digits_end(s, fs);
        if fe == fs {
            None
        } else {
            match digits_value(s, fs, fe, m0, PARSE_MAX_MANTISSA) {
                Some(m1) => number_exp(s, fe, neg, m1, fe - fs),
                None => None,
            }
        }
    } else {
        number_exp(s, pos, neg, m0, 0)
    }
}

fn parse_number(s: &[u8], i: usize) -> (r: Option<(Decimal, usize)>)
    requires
        i <= s@.len(),
    ensures
        match r {
            Some((d, j)) => spec_number(s@, i as int) == Some((d, j as int)) && d.parsed_wf() && i
                <= j <= s@.len(),
            None => spec_number(s@, i as int) is None,
        },
{
    let neg: bool = i < s.len() && s[i] == 45;
    let i1: usize = if neg {
        i + 1
    } else {
        i
    };
    if i1 < s.len() && digit_byte(s[i1]) {
        let int_end: usize = if s[i1] == 48 {
            i1 + 1
        } else {
            digits_end(s, i1)
        };
        assert(forall|k: int| i1 <= k < int_end ==> is_digit(s@[k]));
        match digits_value(s, i1, int_end, 0, PARSE_MAX_MANTISSA) {
            Some(m0) => number_frac(s, int_end, neg, m0),
            None => None,
        }
    } else {
        None
    }
}

// ---------------------------------------------------------------------------
// Keys and the object
// ---------------------------------------------------------------------------

/// One of the five field names of the wire format.
#[derive(Clone, Copy, Debug)]
pub enum FieldKey {
    Temperature,
    Humidity,
    Pressure,
    Altitude,
    GasResistance,
}

/// `s[ks .. ke]` spells `temperature`.
pub open spec fn key_is_temperature(s: Seq<u8>, ks: int, ke: int) -> bool {
    ke - ks == 11 && s[ks] == 116 && s[ks + 1] == 101 && s[ks + 2] == 109 && s[ks + 3] == 112
        && s[ks + 4] == 101 && s[ks + 5] == 114 && s[ks + 6] == 97 && s[ks + 7] == 116 && s[ks + 8]
        == 117 && s[ks + 9] == 114 && s[ks + 10] == 101
}

/// `s[ks .. ke]` spells `humidity`.
pub open spec fn key_is_humidity(s: Seq<u8>, ks: int, ke: int) -> bool {
    ke - ks == 8 && s[ks] == 104 && s[ks + 1] == 117 && s[ks + 2] == 109 && s[ks + 3] == 105 && s[
        ks + 4
    ] == 100 && s[ks + 5] == 105 && s[ks + 6] == 116 && s[ks + 7] == 121
}

/// `s[ks .. ke]` spells `pressure`.
pub open spec fn key_is_pressure(s: Seq<u8>, ks: int, ke: int) -> bool {
    ke - ks == 8 && s[ks] == 112 && s[ks + 1] == 114 && s[ks + 2] == 101 && s[ks + 3] == 115 && s[
        ks + 4
    ] == 115 && s[ks + 5] == 117 && s[ks + 6] == 114 && s[ks + 7] == 101
}

/// `s[ks .. ke]` spells `altitude`.
pub open spec fn key_is_altitude(s: Seq<u8>, ks: int, ke: int) -> bool {
    ke - ks == 8 && s[ks] == 97 && s[ks + 1] == 108 && s[ks + 2] == 116 && s[ks + 3] == 105 && s[ks
        + 4] == 116 && s[ks + 5] == 117 && s[ks + 6] == 100 && s[ks + 7] == 101
}

/// `s[ks .. ke]` spells `gas_resistance`.
pub open spec fn key_is_gas_resistance(s: Seq<u8>, ks: int, ke: int) -> bool {
    ke - ks == 14 && s[ks] == 103 && s[ks + 1] == 97 && s[ks + 2] == 115 && s[ks + 3] == 95 && s[ks
        + 4] == 114 && s[ks + 5] == 101 && s[ks + 6] == 115 && s[ks + 7] == 105 && s[ks + 8] == 115
        && s[ks + 9] == 116 && s[ks + 10] == 97 && s[ks + 11] == 110 && s[ks + 12] == 99 && s[ks
        + 13] == 101
}

/// Which of the five field names the key bytes `s[ks .. ke]` spell, if any.
pub open spec fn spec_field_key(s: Seq<u8>, ks: int, ke: int) -> Option<FieldKey> {
    if key_is_temperature(s, ks, ke) {
        Some(FieldKey::Temperature)
    } else if key_is_humidity(s, ks, ke) {
        Some(FieldKey::Humidity)
    } else if key_is_pressure(s, ks, ke) {
        Some(FieldKey::Pressure)
    } else if key_is_altitude(s, ks, ke) {
        Some(FieldKey::Altitude)
    } else if key_is_gas_resistance(s, ks, ke) {
        Some(FieldKey::GasResistance)
    } else {
        None
    }
}

fn field_key(s: &[u8], ks: usize, ke: usize) -> (r: Option<FieldKey>)
    requires
        ks <= ke <= s@.len(),
    ensures
        r == spec_field_key(s@, ks as int, ke as int),
{
    if ke - ks == 11 && s[ks] == 116 && s[ks + 1] == 101 && s[ks + 2] == 109 && s[ks + 3] == 112
        && s[ks + 4] == 101 && s[ks + 5] == 114 && s[ks + 6] == 97 && s[ks + 7] == 116 && s[ks + 8]
        == 117 && s[ks + 9] == 114 && s[ks + 10] == 101 {
        Some(FieldKey::Temperature)
    } else if ke - ks == 8 && s[ks] == 104 && s[ks + 1] == 117 && s[ks + 2] == 109 && s[ks + 3]
        == 105 && s[ks + 4] == 100 && s[ks + 5] == 105 && s[ks + 6] == 116 && s[ks + 7] == 121 {
        Some(FieldKey::Humidity)
    } else if ke - ks == 8 && s[ks] == 112 && s[ks + 1] == 114 && s[ks + 2] == 101 && s[ks + 3]
        == 115 && s[ks + 4] == 115 && s[ks + 5] == 117 && s[ks + 6] == 114 && s[ks + 7] == 101 {
        Some(FieldKey::Pressure)
    } else if ke - ks == 8 && s[ks] == 97 && s[ks + 1] == 108 && s[ks + 2] == 116 && s[ks + 3]
        == 105 && s[ks + 4] == 116 && s[ks + 5] == 117 && s[ks + 6] == 100 && s[ks + 7] == 101 {
        Some(FieldKey::Altitude)
    } else if ke - ks == 14 && s[ks] == 103 && s[ks + 1] == 97 && s[ks + 2] == 115 && s[ks + 3]
        == 95 && s[ks + 4] == 114 && s[ks + 5] == 101 && s[ks + 6] == 115 && s[ks + 7] == 105 && s[
        ks + 8] == 115 && s[ks + 9] == 116 && s[ks + 10] == 97 && s[ks + 11] == 110 && s[ks + 12]
        == 99 && s[ks + 13] == 101 {
        Some(FieldKey::GasResistance)
    } else {
        None
    }
}

/// The fields gathered so far while reading an object's members.
#[derive(Clone, Copy, Debug)]
pub struct PartialReading {
    pub temperature: Option<Decimal>,
    pub humidity: Option<Decimal>,
    pub pressure: Option<Decimal>,
    pub altitude: Option<Decimal>,
    pub gas_resistance: Option<Decimal>,
}

/// Every field gathered so far is within the parsed bounds.
pub open spec fn partial_wf(p: PartialReading) -> bool {
    &&& (p.temperature matches Some(d) ==> d.parsed_wf())
    &&& (p.humidity matches Some(d) ==> d.parsed_wf())
    &&& (p.pressure matches Some(d) ==> d.parsed_wf())
    &&& (p.altitude matches Some(d) ==> d.parsed_wf())
    &&& (p.gas_resistance matches Some(d) ==> d.parsed_wf())
}

/// No fields gathered yet.
pub open spec fn spec_empty_partial() -> PartialReading {
    PartialReading {
        temperature: None,
        humidity: None,
        pressure: None,
        altitude: None,
        gas_resistance: None,
    }
}

/// Record field `f` as `d`; a field seen twice rejects the message.
pub open spec fn spec_set_field(p: PartialReading, f: FieldKey, d: Decimal, j: int) -> Option<
    (PartialReading, int),
> {
    match f {
        FieldKey::Temperature => if p.temperature is Some {
            None
        } else {
            Some((PartialReading { temperature: Some(d), ..p }, j))
        },
        FieldKey::Humidity => if p.humidity is Some {
            None
        } else {
            Some((PartialReading { humidity: Some(d), ..p }, j))
        },
        FieldKey::Pressure => if p.pressure is Some {
            None
        } else {
            Some((PartialReading { pressure: Some(d), ..p }, j))
        },
        FieldKey::Altitude => if p.altitude is Some {
            None
        } else {
            Some((PartialReading { altitude: Some(d), ..p }, j))
        },
        FieldKey::GasResistance => if p.gas_resistance is Some {
            None
        } else {
            Some((PartialReading { gas_resistance: Some(d), ..p }, j))
        },
    }
}

/// One `"key" : number` member at `i`, recorded into `p`.
pub open spec fn spec_pair(s: Seq<u8>, i: int, p: PartialReading) -> Option<
    (PartialReading, int),
> {
    if i < s.len() && s[i] == 34 {
        let ks = i + 1;
        let ke = spec_scan_quote(s, ks);
        if ke < s.len() {
            match spec_field_key(s, ks, ke) {
                Some(f) => {
                    let c = spec_skip_ws(s, ke + 1);
                    if c < s.len() && s[c] == 58 {
                        match spec_number(s, spec_skip_ws(s, c + 1)) {
                            Some((d, j)) => spec_set_field(p, f, d, j),
                            None => None,
                        }
                    } else {
                        None
                    }
                },
                None => None,
            }
        } else {
            None
        }
    } else {
        None
    }
}

/// The members from `i` to the closing brace: comma-separated pairs, ending
/// just past `}`. `fuel` bounds the number of pairs; six is enough, since a
/// sixth distinct known field cannot exist and a repeated one rejects.
pub open spec fn spec_members(s: Seq<u8>, i: int, p: PartialReading, fuel: nat) -> Option<
    (PartialReading, int),
>
    decreases fuel,
{
    if fuel == 0 {
        None
    } else {
        match spec_pair(s, i, p) {
            Some((p2, j)) => {
                let k = spec_skip_ws(s, j);
                if k < s.len() && s[k] == 44 {
                    spec_members(s, spec_skip_ws(s, k + 1), p2, (fuel - 1) as nat)
                } else if k < s.len() && s[k] == 125 {
                    Some((p2, k + 1))
                } else {
                    None
                }
            },
            None => None,
        }
    }
}

/// The reading, if every one of the five fields was seen.
pub open spec fn spec_complete(p: PartialReading) -> Option<SensorReading> {
    match (p.temperature, p.humidity, p.pressure, p.altitude, p.gas_resistance) {
        (Some(t), Some(h), Some(pr), Some(al), Some(g)) => Some(
            SensorReading {
                temperature: t,
                humidity: h,
                pressure: pr,
                altitude: al,
                gas_resistance: g,
            },
        ),
        _ => None,
    }
}

/// The wire grammar, whole: a message is whitespace, one object holding each
/// of the five fields exactly once, whitespace, end of input. The reading it
/// denotes is the raw one, its temperature still in the wire unit (Celsius).
pub open spec fn spec_message(s: Seq<u8>) -> Option<SensorReading> {
    let i = spec_skip_ws(s, 0);
    if i < s.len() && s[i] == 123 {
        match spec_members(s, spec_skip_ws(s, i + 1), spec_empty_partial(), 6) {
            Some((p, j)) => {
                if spec_skip_ws(s, j) == s.len() {
                    spec_complete(p)
                } else {
                    None
                }
            },
            None => None,
        }
    } else {
        None
    }
}

fn set_field(p: PartialReading, f: FieldKey, d: Decimal, j: usize) -> (r: Option<
    (PartialReading, usize),
>)
    requires
        partial_wf(p),
        d.parsed_wf(),
    ensures
        match r {
            Some((p2, j2)) => spec_set_field(p, f, d, j as int) == Some((p2, j2 as int)) && j2 == j
                && partial_wf(p2),
            None => spec_set_field(p, f, d, j as int) is None,
        },
{
    match f {
        FieldKey::Temperature => match p.temperature {
            Some(_) => None,
            None => Some((PartialReading { temperature: Some(d), ..p }, j)),
        },
        FieldKey::Humidity => match p.humidity {
            Some(_) => None,
            None => Some((PartialReading { humidity: Some(d), ..p }, j)),
        },
        FieldKey::Pressure => match p.pressure {
            Some(_) => None,
            None => Some((PartialReading { pressure: Some(d), ..p }, j)),
        },
        FieldKey::Altitude => match p.altitude {
            Some(_) => None,
            None => Some((PartialReading { altitude: Some(d), ..p }, j)),
        },
        FieldKey::GasResistance => match p.gas_resistance {
            Some(_) => None,
            None => Some((PartialReading { gas_resistance: Some(d), ..p }, j)),
        },
    }
}

fn parse_pair(s: &[u8], i: usize, p: PartialReading) -> (r: Option<(PartialReading, usize)>)
    requires
        i <= s@.len(),
        partial_wf(p),
    ensures
        match r {
            Some((p2, j)) => spec_pair(s@, i as int, p) == Some((p2, j as int)) && i <= j
                <= s@.len() && partial_wf(p2),
            None => spec_pair(s@, i as int, p) is None,
        },
{
    if i < s.len() && s[i] == 34 {
        let ks: usize = i + 1;
        let ke: usize = scan_quote(s, ks);
        if ke < s.len() {
            match field_key(s, ks, ke) {
                Some(f) => {
                    let c: usize = skip_ws(s, ke + 1);
                    if c < s.len() && s[c] == 58 {
                        let vs: usize = skip_ws(s, c + 1);
                        match parse_number(s, vs) {
                            Some((d, j)) => set_field(p, f, d, j),
                            None => None,
                        }
                    } else {
                        None
                    }
                },
                None => None,
            }
        } else {
            None
        }
    } else {
        None
    }
}

fn parse_members(s: &[u8], i: usize, p: PartialReading, fuel: u32) -> (r: Option<
    (PartialReading, usize),
>)
    requires
        i <= s@.len(),
        partial_wf(p),
    ensures
        match r {
            Some((p2, j)) => spec_members(s@, i as int, p, fuel as nat) == Some((p2, j as int))
                && j <= s@.len() && partial_wf(p2),
            None => spec_members(s@, i as int, p, fuel as nat) is None,
        },
    decreases fuel,
{
    if fuel == 0 {
        return None;
    }
    match parse_pair(s, i, p) {
        Some((p2, j)) => {
            let k: usize = skip_ws(s, j);
            if k < s.len() && s[k] == 44 {
                let n: usize = skip_ws(s, k + 1);
                parse_members(s, n, p2, fuel - 1)
            } else if k < s.len() && s[k] == 125 {
                Some((p2, k + 1))
            } else {
                None
            }
        },
        None => None,
    }
}

/// Decode one wire message into a normalized sensor reading.
///
/// Succeeds exactly on the messages of the wire grammar [`spec_message`];
/// the reading returned is the message's, with its temperature converted
/// from Celsius to Fahrenheit and every other field passed through
/// unchanged. A rejected message yields an error and nothing else.
pub fn decode(msg: &[u8]) -> (r: Result<SensorReading, DecodeError>)
    ensures
        match r {
            Ok(out) => spec_message(msg@) matches Some(raw) && out == spec_output(raw)
                && out.wf(),
            Err(_) => spec_message(msg@) is None,
        },
{
    let i: usize = skip_ws(msg, 0);
    if !(i < msg.len() && msg[i] == 123) {
        return Err(DecodeError {});
    }
    let start: usize = skip_ws(msg, i + 1);
    let empty = PartialReading {
        temperature: None,
        humidity: None,
        pressure: None,
        altitude: None,
        gas_resistance: None,
    };
    match parse_members(msg, start, empty, 6) {
        Some((p, j)) => {
            let t: usize = skip_ws(msg, j);
            if t != msg.len() {
                return Err(DecodeError {});
            }
            match (p.temperature, p.humidity, p.pressure, p.altitude, p.gas_resistance) {
                (Some(te), Some(h), Some(pr), Some(al), Some(g)) => {
                    let raw = SensorReading {
                        temperature: te,
                        humidity: h,
                        pressure: pr,
                        altitude: al,
                        gas_resistance: g,
                    };
                    Ok(normalize(raw))
                },
                _ => Err(DecodeError {}),
            }
        },
        None => Err(DecodeError {}),
    }
}

} // verus!
