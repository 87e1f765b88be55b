//! A validated pair of temperature and relative humidity.

use vstd::prelude::*;
use vstd::string::StringExecFns;
use vstd::arithmetic::power2::{lemma2_to64_rest, pow2};
use crate::binary64::{
    biased_exponent, greater, is_greater, is_nan, lemma_rounded_monotonic, round_to_i32, rounded,
    significand,
};
use crate::error::{Bound, ErrorModel, Field, RequestError};
use crate::mould::{lemma_risk_class_monotonic, lookup_mould_index, risk_class};

verus! {

/// The pattern of 80.0, the highest temperature accepted.
pub const T_MAX: u64 = 0x4054_0000_0000_0000;

/// The pattern of -40.0, the lowest temperature accepted.
pub const T_MIN: u64 = 0xC044_0000_0000_0000;

/// The pattern of 100.0, the highest relative humidity accepted.
pub const RH_MAX: u64 = 0x4059_0000_0000_0000;

/// The pattern of 0.0, the lowest relative humidity accepted.
pub const RH_MIN: u64 = 0;

/// The pattern of 50.5: from here on a temperature rounds past the last row
/// of the mould table.
pub const BAND_END: u64 = 0x4049_4000_0000_0000;

/// Neither measurement exceeds its upper limit or falls below its lower one.
/// A NaN does neither.
pub open spec fn in_range(t: u64, rh: u64) -> bool {
    !greater(t, T_MAX) && !greater(T_MIN, t) && !greater(rh, RH_MAX) && !greater(RH_MIN, rh)
}

/// A number read from a request: its binary64 pattern and its decimal form.
#[derive(Clone, Debug, PartialEq, Eq)]
pub struct Parsed {
    pub bits: u64,
    pub shown: String,
}

/// A `Parsed` with its decimal form as a sequence of characters.
pub struct ParsedModel {
    pub bits: u64,
    pub shown: Seq<char>,
}

impl View for Parsed {
    type V = ParsedModel;

    open spec fn view(&self) -> ParsedModel {
        ParsedModel { bits: self.bits, shown: self.shown@ }
    }
}

/// Temperature in degrees Celsius and relative humidity in percent, both as
/// binary64 patterns and both within their domains.
#[derive(Clone, Copy, Debug, PartialEq, Eq)]
pub struct TRH {
    t: u64,
    rh: u64,
}

/// What validation makes of two segments and of what was read from them:
/// the first failure in the order temperature unreadable, humidity
/// unreadable, temperature too high, temperature too low, humidity too high,
/// humidity too low; or the two patterns.
pub open spec fn validated(
    t_raw: Seq<char>,
    rh_raw: Seq<char>,
    t: Option<ParsedModel>,
    rh: Option<ParsedModel>,
) -> Result<(u64, u64), ErrorModel> {
    if t is None {
        Err(ErrorModel::InvalidNumber { field: Field::T, raw: t_raw })
    } else if rh is None {
        Err(ErrorModel::InvalidNumber { field: Field::Rh, raw: rh_raw })
    } else if greater(t->0.bits, T_MAX) {
        Err(ErrorModel::OutOfRange { field: Field::T, bound: Bound::High, shown: t->0.shown })
    } else if greater(T_MIN, t->0.bits) {
        Err(ErrorModel::OutOfRange { field: Field::T, bound: Bound::Low, shown: t->0.shown })
    } else if greater(rh->0.bits, RH_MAX) {
        Err(ErrorModel::OutOfRange { field: Field::Rh, bound: Bound::High, shown: rh->0.shown })
    } else if greater(RH_MIN, rh->0.bits) {
        Err(ErrorModel::OutOfRange { field: Field::Rh, bound: Bound::Low, shown: rh->0.shown })
    } else {
        Ok((t->0.bits, rh->0.bits))
    }
}

/// Two numbers within their domains are accepted as they are, whatever the
/// segments they were read from.
pub proof fn lemma_in_range_is_accepted(
    t_raw: Seq<char>,
    rh_raw: Seq<char>,
    t: ParsedModel,
    rh: ParsedModel,
)
    requires
        in_range(t.bits, rh.bits),
    ensures
        validated(t_raw, rh_raw, Some(t), Some(rh)) == Ok::<(u64, u64), ErrorModel>(
            (t.bits, rh.bits),
        ),
{
}

/// The view of an optional number.
pub open spec fn model_of(p: Option<Parsed>) -> Option<ParsedModel> {
    match p {
        Some(p) => Some(p@),
        None => None,
    }
}

impl TRH {
    #[verifier::type_invariant]
    spec fn within_domain(self) -> bool {
        in_range(self.t, self.rh)
    }

    /// The pattern of the temperature.
    pub closed spec fn t_bits(self) -> u64 {
        self.t
    }

    /// The pattern of the relative humidity.
    pub closed spec fn rh_bits(self) -> u64 {
        self.rh
    }

    /// Makes the pair where both measurements are within their domains.
    pub fn new(t: u64, rh: u64) -> (made: Option<TRH>)
        ensures
            made is Some <==> in_range(t, rh),
            made matches Some(trh) ==> trh.t_bits() == t && trh.rh_bits() == rh,
    {
        if is_greater(t, T_MAX) || is_greater(T_MIN, t) || is_greater(rh, RH_MAX) || is_greater(
            RH_MIN,
            rh,
        ) {
            None
        } else {
            Some(TRH { t, rh })
        }
    }

    /// The pattern of the temperature.
    pub fn t(&self) -> (bits: u64)
        ensures
            bits == self.t_bits(),
            in_range(self.t_bits(), self.rh_bits()),
    {
        proof {
            use_type_invariant(self);
        }
        self.t
    }

    /// The pattern of the relative humidity.
    pub fn rh(&self) -> (bits: u64)
        ensures
            bits == self.rh_bits(),
            in_range(self.t_bits(), self.rh_bits()),
    {
        proof {
            use_type_invariant(self);
        }
        self.rh
    }
}

/// A measurement within its domain is a NaN or has a magnitude below 128.
pub proof fn lemma_in_range_is_small(t: u64, rh: u64)
    requires
        in_range(t, rh),
    ensures
        is_nan(t) || biased_exponent(t) < 1030,
        is_nan(rh) || biased_exponent(rh) < 1030,
{
}

/// Validates two segments of a request path, given what was read from each:
/// `None` where the segment is no number.
pub fn validate(t_raw: &str, rh_raw: &str, t: Option<Parsed>, rh: Option<Parsed>) -> (r: Result<
    TRH,
    RequestError,
>)
    ensures
        r is Ok <==> validated(t_raw@, rh_raw@, model_of(t), model_of(rh)) is Ok,
        r matches Ok(trh) ==> Ok::<(u64, u64), ErrorModel>((trh.t_bits(), trh.rh_bits()))
            == validated(t_raw@, rh_raw@, model_of(t), model_of(rh)),
        r matches Err(e) ==> Err::<(u64, u64), ErrorModel>(e@) == validated(
            t_raw@,
            rh_raw@,
            model_of(t),
            model_of(rh),
        ),
{
    let t = match t {
        Some(t) => t,
        None => {
            return Err(RequestError::InvalidNumber { field: Field::T, raw: String::from_str(t_raw) });
        },
    };
    let rh = match rh {
        Some(rh) => rh,
        None => {
            return Err(
                RequestError::InvalidNumber { field: Field::Rh, raw: String::from_str(rh_raw) },
            );
        },
    };
    if is_greater(t.bits, T_MAX) {
        Err(RequestError::OutOfRange { field: Field::T, bound: Bound::High, shown: t.shown })
    } else if is_greater(T_MIN, t.bits) {
        Err(RequestError::OutOfRange { field: Field::T, bound: Bound::Low, shown: t.shown })
    } else if is_greater(rh.bits, RH_MAX) {
        Err(RequestError::OutOfRange { field: Field::Rh, bound: Bound::High, shown: rh.shown })
    } else if is_greater(RH_MIN, rh.bits) {
        Err(RequestError::OutOfRange { field: Field::Rh, bound: Bound::Low, shown: rh.shown })
    } else {
        Ok(TRH { t: t.bits, rh: rh.bits })
    }
}

/// The mould-growth risk index of a pair: the risk class of its two
/// measurements, each rounded to the nearest integer.
pub open spec fn mould_index(t: u64, rh: u64) -> int {
    risk_class(rounded(t), rounded(rh))
}

/// Computes the mould-growth risk index of a pair.
pub fn calc_mould_index(trh: &TRH) -> (index: i32)
    ensures
        index == mould_index(trh.t_bits(), trh.rh_bits()),
        0 <= index <= 3,
{
    let t_bits: u64 = trh.t();
    let rh_bits: u64 = trh.rh();
    proof {
        lemma_in_range_is_small(t_bits, rh_bits);
    }
    let t: i32 = round_to_i32(t_bits);
    let rh: i32 = round_to_i32(rh_bits);
    lookup_mould_index(t, rh)
}

/// At a fixed temperature the mould index never falls as the humidity
/// rises.
pub proof fn lemma_mould_index_monotonic(t: u64, rh_low: u64, rh_high: u64)
    requires
        in_range(t, rh_low),
        in_range(t, rh_high),
        !is_nan(rh_low),
        !is_nan(rh_high),
        !greater(rh_low, rh_high),
    ensures
        mould_index(t, rh_low) <= mould_index(t, rh_high),
{
    lemma_in_range_is_small(t, rh_low);
    lemma_in_range_is_small(t, rh_high);
    lemma_rounded_monotonic(rh_low, rh_high);
    lemma_risk_class_monotonic(rounded(t), rounded(rh_low), rounded(rh_high));
}

/// The mould index is 0, whatever the humidity, where the temperature is at
/// most 0 degrees, at least 50.5 degrees, or a NaN: such a temperature rounds
/// to no row of the table from 1 to 50.
pub proof fn lemma_mould_index_zero_band(t: u64, rh: u64)
    requires
        in_range(t, rh),
        !greater(t, 0) || !greater(BAND_END, t),
    ensures
        mould_index(t, rh) == 0,
{
    lemma_in_range_is_small(t, rh);
    if is_nan(t) {
    } else if !greater(t, 0) {
        lemma_rounded_monotonic(t, 0);
    } else {
        lemma2_to64_rest();
        assert(biased_exponent(BAND_END) == 1028);
        assert(significand(BAND_END) == 0x19_4000_0000_0000);
        assert(pow2(46) == 0x4000_0000_0000 && pow2(47) == 0x8000_0000_0000);
        assert((0x19_4000_0000_0000 + 0x4000_0000_0000) / 0x8000_0000_0000 == 51int);
        assert(rounded(BAND_END) == 51);
        lemma_rounded_monotonic(BAND_END, t);
    }
}

} // verus!
