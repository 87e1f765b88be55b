//! Mould-growth risk index by temperature band.

use vstd::prelude::*;

verus! {

/// Relative-humidity thresholds by whole degree Celsius, rows 0 to 50. Column
/// 0 is unused; columns 1 to 3 bound the risk classes 0, 1 and 2.
pub const TABLE: [[i32; 4]; 51] = [
    [0, 0, 0, 0],
    [0, 97, 98, 100],
    [0, 95, 97, 100],
    [0, 93, 95, 100],
    [0, 91, 93, 98],
    [0, 88, 92, 97],
    [0, 87, 91, 96],
    [0, 86, 91, 95],
    [0, 84, 90, 95],
    [0, 83, 89, 94],
    [0, 82, 88, 93],
    [0, 81, 88, 93],
    [0, 81, 88, 92],
    [0, 80, 87, 92],
    [0, 79, 87, 92],
    [0, 79, 87, 91],
    [0, 79, 86, 91],
    [0, 79, 86, 91],
    [0, 79, 86, 90],
    [0, 79, 85, 90],
    [0, 79, 85, 90],
    [0, 79, 85, 90],
    [0, 79, 85, 89],
    [0, 79, 84, 89],
    [0, 79, 84, 89],
    [0, 79, 84, 89],
    [0, 79, 84, 89],
    [0, 79, 83, 88],
    [0, 79, 83, 88],
    [0, 79, 83, 88],
    [0, 79, 83, 88],
    [0, 79, 83, 88],
    [0, 79, 83, 88],
    [0, 79, 82, 88],
    [0, 79, 82, 87],
    [0, 79, 82, 87],
    [0, 79, 82, 87],
    [0, 79, 82, 87],
    [0, 79, 82, 87],
    [0, 79, 82, 87],
    [0, 79, 82, 87],
    [0, 79, 81, 87],
    [0, 79, 81, 87],
    [0, 79, 81, 87],
    [0, 79, 81, 87],
    [0, 79, 81, 86],
    [0, 79, 81, 86],
    [0, 79, 81, 86],
    [0, 79, 80, 86],
    [0, 79, 80, 86],
    [0, 79, 80, 86],
];

/// The threshold in row `t`, column `col` of the table.
pub open spec fn threshold(t: int, col: int) -> int
    recommends
        0 <= t <= 50,
        0 <= col < 4,
{
    TABLE@[t]@[col] as int
}

/// The risk class of a whole-degree temperature and whole-percent humidity:
/// 0 outside the band 1 to 50 degrees; inside it, the number of thresholds of
/// the row that the humidity exceeds.
pub open spec fn risk_class(t: int, rh: int) -> int {
    if t <= 0 || t > 50 {
        0
    } else if rh <= threshold(t, 1) {
        0
    } else if rh <= threshold(t, 2) {
        1
    } else if rh <= threshold(t, 3) {
        2
    } else {
        3
    }
}

/// Looks up the risk class of a rounded temperature and humidity.
pub fn lookup_mould_index(t: i32, rh: i32) -> (index: i32)
    ensures
        index == risk_class(t as int, rh as int),
        0 <= index <= 3,
{
    let mut mould_index: i32 = 0;
    if t <= 0 || t > 50 {
        mould_index = 0;
    } else {
        let row: usize = t as usize;
        let mut mould_index_set = false;
        let mut i: usize = 1;
        while i < 4 && !mould_index_set
            invariant
                1 <= i <= 4,
                1 <= row <= 50,
                row == t,
                0 <= mould_index <= 3,
                !mould_index_set ==> forall|c: int| 1 <= c < i ==> rh > threshold(t as int, c),
                mould_index_set ==> mould_index == risk_class(t as int, rh as int),
            decreases 4 - i + if mould_index_set { 0int } else { 1int },
        {
            if rh <= TABLE[row][i] {
                mould_index = (i - 1) as i32;
                mould_index_set = true;
            } else {
                i = i + 1;
            }
        }
        if !mould_index_set {
            mould_index = 3;
        }
    }
    mould_index
}

/// Inside the band, the thresholds of a row do not decrease from column 1 to
/// column 3.
pub proof fn lemma_thresholds_ordered(t: int)
    requires
        1 <= t <= 50,
    ensures
        threshold(t, 1) <= threshold(t, 2) <= threshold(t, 3),
{
}

/// At a fixed temperature the risk class never falls as the humidity rises.
pub proof fn lemma_risk_class_monotonic(t: int, rh_low: int, rh_high: int)
    requires
        rh_low <= rh_high,
    ensures
        risk_class(t, rh_low) <= risk_class(t, rh_high),
{
    if 1 <= t <= 50 {
        lemma_thresholds_ordered(t);
    }
}

/// At or below 0 degrees and above 50 degrees the risk class is 0 whatever
/// the humidity.
pub proof fn lemma_risk_class_zero_band(t: int, rh: int)
    requires
        t <= 0 || t > 50,
    ensures
        risk_class(t, rh) == 0,
{
}

} // verus!
