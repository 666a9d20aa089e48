//! The predictor engine: reconstruction of one byte from its filter code and
//! up to three already reconstructed neighbors. All arithmetic on bytes is
//! modulo 256.

use vstd::prelude::*;
use crate::error::DecodeError;

verus! {

/// Filter code of a scanline stored as it is.
pub const FILTER_NONE: u8 = 0;

/// Filter code of a scanline predicted from the left neighbor.
pub const FILTER_SUB: u8 = 1;

/// Filter code of a scanline predicted from the upper neighbor.
pub const FILTER_UP: u8 = 2;

/// Filter code of a scanline predicted from the mean of the left and the
/// upper neighbor.
pub const FILTER_AVERAGE: u8 = 3;

/// Filter code of a scanline predicted by the Paeth predictor.
pub const FILTER_PAETH: u8 = 4;

/// Distance between two integers.
pub open spec fn distance(x: int, y: int) -> int {
    if x >= y {
        x - y
    } else {
        y - x
    }
}

/// The Paeth predictor: of the left (`a`), upper (`b`) and upper-left (`c`)
/// neighbors, the one closest to the linear estimate `a + b - c`. On equal
/// distance `a` is preferred to `b`, and `b` to `c`.
pub open spec fn paeth_spec(a: u8, b: u8, c: u8) -> u8 {
    let p = a + b - c;
    let pa = distance(p, a as int);
    let pb = distance(p, b as int);
    let pc = distance(p, c as int);
    if pa <= pb && pa <= pc {
        a
    } else if pb <= pc {
        b
    } else {
        c
    }
}

/// Whether `filter_type` is one of the five filter codes.
pub open spec fn valid_filter(filter_type: u8) -> bool {
    filter_type <= FILTER_PAETH
}

/// The value that a filter predicts for a byte from its neighbors.
pub open spec fn predictor(filter_type: u8, a: u8, b: u8, c: u8) -> int {
    if filter_type == FILTER_SUB {
        a as int
    } else if filter_type == FILTER_UP {
        b as int
    } else if filter_type == FILTER_AVERAGE {
        (a + b) / 2
    } else if filter_type == FILTER_PAETH {
        paeth_spec(a, b, c) as int
    } else {
        0
    }
}

/// The byte that a filtered byte `x` stands for: `x` plus the prediction,
/// modulo 256.
pub open spec fn remove_filter_spec(filter_type: u8, x: u8, a: u8, b: u8, c: u8) -> u8 {
    ((x + predictor(filter_type, a, b, c)) % 256) as u8
}

/// The filtered form of a byte `raw`: `raw` minus the prediction, modulo
/// 256.
pub open spec fn apply_filter_spec(filter_type: u8, raw: u8, a: u8, b: u8, c: u8) -> u8 {
    ((raw - predictor(filter_type, a, b, c)) % 256) as u8
}

/// Computes the Paeth predictor of three neighbor bytes.
pub fn paeth(a: u8, b: u8, c: u8) -> (r: u8)
    ensures
        r == paeth_spec(a, b, c),
{
    let wa: i32 = a as i32;
    let wb: i32 = b as i32;
    let wc: i32 = c as i32;
    let p: i32 = wa + wb - wc;
    let pa: i32 = if p >= wa { p - wa } else { wa - p };
    let pb: i32 = if p >= wb { p - wb } else { wb - p };
    let pc: i32 = if p >= wc { p - wc } else { wc - p };
    if pa <= pb && pa <= pc {
        a
    } else if pb <= pc {
        b
    } else {
        c
    }
}

/// Computes the prediction of a valid filter code.
fn predict(filter_type: u8, a: u8, b: u8, c: u8) -> (p: u8)
    requires
        valid_filter(filter_type),
    ensures
        p == predictor(filter_type, a, b, c),
{
    if filter_type == FILTER_NONE {
        0
    } else if filter_type == FILTER_SUB {
        a
    } else if filter_type == FILTER_UP {
        b
    } else if filter_type == FILTER_AVERAGE {
        let sum: u16 = a as u16 + b as u16;
        (sum / 2) as u8
    } else {
        paeth(a, b, c)
    }
}

/// Reconstructs a byte from its filtered form `x` and the reconstructed
/// neighbors to the left (`a`), above (`b`) and above left (`c`). Fails with
/// `InvalidFilterType` for a code above four.
pub fn remove_filter(filter_type: u8, x: u8, a: u8, b: u8, c: u8) -> (r: Result<u8, DecodeError>)
    ensures
        valid_filter(filter_type) ==> r == Ok::<u8, DecodeError>(
            remove_filter_spec(filter_type, x, a, b, c),
        ),
        !valid_filter(filter_type) ==> r == Err::<u8, DecodeError>(DecodeError::InvalidFilterType),
{
    if filter_type > FILTER_PAETH {
        return Err(DecodeError::InvalidFilterType);
    }
    let p: u8 = predict(filter_type, a, b, c);
    let sum: u16 = x as u16 + p as u16;
    Ok((sum % 256) as u8)
}

/// Filters a byte `raw` against its unfiltered neighbors to the left (`a`),
/// above (`b`) and above left (`c`). Fails with `InvalidFilterType` for a
/// code above four.
pub fn apply_filter(filter_type: u8, raw: u8, a: u8, b: u8, c: u8) -> (r: Result<u8, DecodeError>)
    ensures
        valid_filter(filter_type) ==> r == Ok::<u8, DecodeError>(
            apply_filter_spec(filter_type, raw, a, b, c),
        ),
        !valid_filter(filter_type) ==> r == Err::<u8, DecodeError>(DecodeError::InvalidFilterType),
{
    if filter_type > FILTER_PAETH {
        return Err(DecodeError::InvalidFilterType);
    }
    let p: u8 = predict(filter_type, a, b, c);
    let diff: u16 = 256 + raw as u16 - p as u16;
    Ok((diff % 256) as u8)
}

/// The Paeth predictor returns one of its three arguments, and none of them
/// is closer to `a + b - c` than the one returned.
pub proof fn lemma_paeth_is_nearest(a: u8, b: u8, c: u8)
    ensures
        paeth_spec(a, b, c) == a || paeth_spec(a, b, c) == b || paeth_spec(a, b, c) == c,
        distance(a + b - c, paeth_spec(a, b, c) as int) <= distance(a + b - c, a as int),
        distance(a + b - c, paeth_spec(a, b, c) as int) <= distance(a + b - c, b as int),
        distance(a + b - c, paeth_spec(a, b, c) as int) <= distance(a + b - c, c as int),
{
}

/// Adding a byte modulo 256 and subtracting it modulo 256 undo each other.
proof fn lemma_add_sub_mod_256(v: int, p: int)
    requires
        0 <= v < 256,
        0 <= p < 256,
    ensures
        0 <= (v - p) % 256 < 256,
        0 <= (v + p) % 256 < 256,
        ((v - p) % 256 + p) % 256 == v,
        ((v + p) % 256 - p) % 256 == v,
{
    if v - p >= 0 {
        assert((v - p) % 256 == v - p);
    } else {
        assert((v - p) % 256 == v - p + 256);
    }
    if v + p < 256 {
        assert((v + p) % 256 == v + p);
    } else {
        assert((v + p) % 256 == v + p - 256);
    }
}

/// Every prediction is a byte.
proof fn lemma_predictor_is_byte(filter_type: u8, a: u8, b: u8, c: u8)
    ensures
        0 <= predictor(filter_type, a, b, c) < 256,
{
}

/// Filtering and reconstruction are inverse to each other: for each of the
/// five filter codes and any neighbors, reconstructing a filtered byte gives
/// the byte back, and filtering a reconstructed byte gives the filtered
/// byte back.
pub proof fn lemma_filter_round_trip(filter_type: u8, v: u8, a: u8, b: u8, c: u8)
    requires
        valid_filter(filter_type),
    ensures
        remove_filter_spec(filter_type, apply_filter_spec(filter_type, v, a, b, c), a, b, c) == v,
        apply_filter_spec(filter_type, remove_filter_spec(filter_type, v, a, b, c), a, b, c) == v,
{
    let p = predictor(filter_type, a, b, c);
    lemma_predictor_is_byte(filter_type, a, b, c);
    lemma_add_sub_mod_256(v as int, p);
    let filtered = apply_filter_spec(filter_type, v, a, b, c);
    let raw = remove_filter_spec(filter_type, v, a, b, c);
    assert(filtered as int == (v - p) % 256);
    assert(raw as int == (v + p) % 256);
    assert(remove_filter_spec(filter_type, filtered, a, b, c) as int == (filtered + p) % 256);
    assert(apply_filter_spec(filter_type, raw, a, b, c) as int == (raw - p) % 256);
}

} // verus!
