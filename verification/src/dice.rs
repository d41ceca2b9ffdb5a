use vstd::prelude::*;

verus! {

/// The outcomes of rolling two dice against each other: the number of pairs of faces, the
/// pairs where the first die wins, those where the second wins, and the draws.
#[derive(Debug, PartialEq, Eq, Structural)]
pub struct DiceDistribution(pub u128, pub u128, pub u128, pub u128);

pub open spec fn max_int(a: int, b: int) -> int {
    if a >= b { a } else { b }
}

pub open spec fn min_int(a: int, b: int) -> int {
    if a <= b { a } else { b }
}

/// The number of faces shared by both dice.
pub open spec fn overlap_spec(min1: int, max1: int, min2: int, max2: int) -> int {
    max_int(0, min_int(max1, max2) - max_int(min1, min2) + 1)
}

/// The counts assembled from the faces that win or lose outright and the shared faces;
/// they are the pair counts when the dice's faces overlap or touch.
pub open spec fn overlap_formula(min1: int, max1: int, min2: int, max2: int) -> (int, int, int, int) {
    let r1 = max1 - min1 + 1;
    let r2 = max2 - min2 + 1;
    let overlap = overlap_spec(min1, max1, min2, max2);
    let d1_autolose = max_int(0, min2 - min1);
    let d1_autowin = max_int(0, max1 - max2);
    let d2_autolose = max_int(0, min1 - min2);
    let d2_autowin = max_int(0, max2 - max1);
    let half = (overlap * overlap - overlap) / 2;
    (
        r1 * r2,
        d1_autowin * overlap + d2_autolose * overlap + d1_autowin * d2_autolose + half,
        d2_autowin * overlap + d1_autolose * overlap + d2_autowin * d1_autolose + half,
        overlap,
    )
}

/// The faces of a die from `lo` to `hi` that are below `a`.
pub open spec fn below_count(a: int, lo: int, hi: int) -> int
    decreases hi - lo + 1,
{
    if hi < lo {
        0
    } else {
        below_count(a, lo, hi - 1) + if hi < a { 1int } else { 0int }
    }
}

/// The faces of a die from `lo` to `hi` that are above `a`.
pub open spec fn above_count(a: int, lo: int, hi: int) -> int
    decreases hi - lo + 1,
{
    if hi < lo {
        0
    } else {
        above_count(a, lo, hi - 1) + if hi > a { 1int } else { 0int }
    }
}

/// The faces of a die from `lo` to `hi` that equal `a`.
pub open spec fn equal_count(a: int, lo: int, hi: int) -> int
    decreases hi - lo + 1,
{
    if hi < lo {
        0
    } else {
        equal_count(a, lo, hi - 1) + if hi == a { 1int } else { 0int }
    }
}

/// The pairs of faces where the first die, from `lo1` to `hi1`, beats the second.
pub open spec fn first_wins(lo1: int, hi1: int, lo2: int, hi2: int) -> int
    decreases hi1 - lo1 + 1,
{
    if hi1 < lo1 {
        0
    } else {
        first_wins(lo1, hi1 - 1, lo2, hi2) + below_count(hi1, lo2, hi2)
    }
}

/// The pairs of faces where the second die beats the first.
pub open spec fn second_wins(lo1: int, hi1: int, lo2: int, hi2: int) -> int
    decreases hi1 - lo1 + 1,
{
    if hi1 < lo1 {
        0
    } else {
        second_wins(lo1, hi1 - 1, lo2, hi2) + above_count(hi1, lo2, hi2)
    }
}

/// The pairs of faces that are equal.
pub open spec fn draws(lo1: int, hi1: int, lo2: int, hi2: int) -> int
    decreases hi1 - lo1 + 1,
{
    if hi1 < lo1 {
        0
    } else {
        draws(lo1, hi1 - 1, lo2, hi2) + equal_count(hi1, lo2, hi2)
    }
}

/// The outcomes of two dice with faces `min1..=max1` and `min2..=max2`: the number of
/// pairs of faces, the pairs where the first die shows more, those where the second
/// shows more, and those where both show the same.
pub open spec fn dice_formula(min1: int, max1: int, min2: int, max2: int) -> (int, int, int, int) {
    (
        (max1 - min1 + 1) * (max2 - min2 + 1),
        first_wins(min1, max1, min2, max2),
        second_wins(min1, max1, min2, max2),
        draws(min1, max1, min2, max2),
    )
}

/// Whether `x` is an `i32`.
pub open spec fn fits_i32(x: int) -> bool {
    i32::MIN <= x <= i32::MAX
}

/// The dice that `calculate` takes: each range non-empty, and every difference it works
/// with an `i32`. Faces from 1 up, the documented domain, always are.
pub open spec fn calculate_accepts(min1: int, max1: int, min2: int, max2: int) -> bool {
    &&& min1 <= max1
    &&& min2 <= max2
    &&& fits_i32(max1 - min1 + 1)
    &&& fits_i32(max2 - min2 + 1)
    &&& fits_i32(min_int(max1, max2) - max_int(min1, min2) + 1)
    &&& fits_i32(min2 - min1)
    &&& fits_i32(max1 - max2)
    &&& fits_i32(min1 - min2)
    &&& fits_i32(max2 - max1)
}

/// The outcomes assembled from the faces that win or lose outright and the shared faces.
fn overlapping_outcomes(min1: i32, max1: i32, min2: i32, max2: i32) -> (d: DiceDistribution)
    requires
        calculate_accepts(min1 as int, max1 as int, min2 as int, max2 as int),
    ensures
        d.0 as int == overlap_formula(min1 as int, max1 as int, min2 as int, max2 as int).0,
        d.1 as int == overlap_formula(min1 as int, max1 as int, min2 as int, max2 as int).1,
        d.2 as int == overlap_formula(min1 as int, max1 as int, min2 as int, max2 as int).2,
        d.3 as int == overlap_formula(min1 as int, max1 as int, min2 as int, max2 as int).3,
{
    let r1: u128 = (max1 - min1 + 1) as u128;
    let r2: u128 = (max2 - min2 + 1) as u128;
    let lo_top = if max1 <= max2 { max1 } else { max2 };
    let hi_bottom = if min1 >= min2 { min1 } else { min2 };
    let overlap: u128 = if lo_top - hi_bottom + 1 >= 0 { (lo_top - hi_bottom + 1) as u128 } else { 0 };
    let d1_autolose: u128 = if min2 - min1 >= 0 { (min2 - min1) as u128 } else { 0 };
    let d1_autowin: u128 = if max1 - max2 >= 0 { (max1 - max2) as u128 } else { 0 };
    let d2_autolose: u128 = if min1 - min2 >= 0 { (min1 - min2) as u128 } else { 0 };
    let d2_autowin: u128 = if max2 - max1 >= 0 { (max2 - max1) as u128 } else { 0 };
    proof {
        assert(r1 < 0x8000_0000 && r2 < 0x8000_0000 && overlap < 0x8000_0000);
        assert(d1_autolose < 0x8000_0000 && d1_autowin < 0x8000_0000);
        assert(d2_autolose < 0x8000_0000 && d2_autowin < 0x8000_0000);
        assert(r1 * r2 < 0x4000_0000_0000_0000) by (nonlinear_arith)
            requires r1 < 0x8000_0000, r2 < 0x8000_0000;
        assert(overlap * overlap < 0x4000_0000_0000_0000) by (nonlinear_arith)
            requires overlap < 0x8000_0000;
        assert(overlap * overlap >= overlap) by (nonlinear_arith)
            requires overlap >= 0;
        assert(d1_autowin * overlap < 0x4000_0000_0000_0000) by (nonlinear_arith)
            requires d1_autowin < 0x8000_0000, overlap < 0x8000_0000;
        assert(d2_autolose * overlap < 0x4000_0000_0000_0000) by (nonlinear_arith)
            requires d2_autolose < 0x8000_0000, overlap < 0x8000_0000;
        assert(d1_autowin * d2_autolose < 0x4000_0000_0000_0000) by (nonlinear_arith)
            requires d1_autowin < 0x8000_0000, d2_autolose < 0x8000_0000;
        assert(d2_autowin * overlap < 0x4000_0000_0000_0000) by (nonlinear_arith)
            requires d2_autowin < 0x8000_0000, overlap < 0x8000_0000;
        assert(d1_autolose * overlap < 0x4000_0000_0000_0000) by (nonlinear_arith)
            requires d1_autolose < 0x8000_0000, overlap < 0x8000_0000;
        assert(d2_autowin * d1_autolose < 0x4000_0000_0000_0000) by (nonlinear_arith)
            requires d2_autowin < 0x8000_0000, d1_autolose < 0x8000_0000;
    }
    let half: u128 = (overlap * overlap - overlap) / 2;
    DiceDistribution(
        r1 * r2,
        d1_autowin * overlap + d2_autolose * overlap + d1_autowin * d2_autolose + half,
        d2_autowin * overlap + d1_autolose * overlap + d2_autowin * d1_autolose + half,
        overlap,
    )
}

} // verus!
verus! {

pub open spec fn clamp(x: int, lo: int, hi: int) -> int {
    if x < lo { lo } else if x > hi { hi } else { x }
}

proof fn lemma_half_step(y: int)
    requires
        y >= 1,
    ensures
        (y * y - y) / 2 == ((y - 1) * (y - 1) - (y - 1)) / 2 + (y - 1),
{
    assert(y * y - y == ((y - 1) * (y - 1) - (y - 1)) + 2 * (y - 1)) by (nonlinear_arith);
}

proof fn lemma_half_double(x: int)
    requires
        x >= 0,
    ensures
        2 * ((x * x - x) / 2) == x * x - x,
    decreases x,
{
    if x > 0 {
        let p = (x - 1) * (x - 1) - (x - 1);
        let t0 = p / 2;
        let t1 = (x * x - x) / 2;
        lemma_half_double(x - 1);
        assert(2 * t0 == p);
        lemma_half_step(x);
        assert(t1 == t0 + (x - 1));
        assert(x * x - x == ((x - 1) * (x - 1) - (x - 1)) + 2 * (x - 1)) by (nonlinear_arith);
        assert(2 * t1 == x * x - x);
    } else {
        assert(x * x == 0) by (nonlinear_arith) requires x == 0;
    }
}

proof fn lemma_face_counts(a: int, lo: int, hi: int)
    requires
        lo <= hi + 1,
    ensures
        below_count(a, lo, hi) == clamp(a - lo, 0, hi - lo + 1),
        equal_count(a, lo, hi) == if lo <= a <= hi { 1int } else { 0int },
        below_count(a, lo, hi) + above_count(a, lo, hi) + equal_count(a, lo, hi) == hi - lo + 1,
    decreases hi - lo + 1,
{
    if hi >= lo {
        lemma_face_counts(a, lo, hi - 1);
    }
}

proof fn lemma_first_wins_step(min1: int, hi1: int, min2: int, max2: int)
    requires
        min1 <= hi1,
        min1 <= max2 + 1,
        min2 <= max2,
    ensures
        overlap_formula(min1, hi1, min2, max2).1 - overlap_formula(min1, hi1 - 1, min2, max2).1
            == clamp(hi1 - min2, 0, max2 - min2 + 1),
{
    let l = max_int(min1, min2);
    let al2 = max_int(0, min1 - min2);
    assert(al2 == l - min2);
    let ovn = overlap_spec(min1, hi1, min2, max2);
    let ovp = overlap_spec(min1, hi1 - 1, min2, max2);
    let awn = max_int(0, hi1 - max2);
    let awp = max_int(0, hi1 - 1 - max2);
    let hn = (ovn * ovn - ovn) / 2;
    let hp = (ovp * ovp - ovp) / 2;
    assert(overlap_formula(min1, hi1, min2, max2).1 == awn * ovn + al2 * ovn + awn * al2 + hn);
    assert(overlap_formula(min1, hi1 - 1, min2, max2).1 == awp * ovp + al2 * ovp + awp * al2 + hp);
    if hi1 < min2 {
        assert(ovn == 0 && ovp == 0 && awn == 0 && awp == 0);
        assert(awn * ovn + al2 * ovn + awn * al2 + hn == 0) by (nonlinear_arith)
            requires awn == 0, ovn == 0, hn == (ovn * ovn - ovn) / 2;
        assert(awp * ovp + al2 * ovp + awp * al2 + hp == 0) by (nonlinear_arith)
            requires awp == 0, ovp == 0, hp == (ovp * ovp - ovp) / 2;
    } else if hi1 <= max2 {
        assert(ovn == hi1 - l + 1 && ovp == hi1 - l && awn == 0 && awp == 0);
        lemma_half_step(ovn);
        assert(hn == hp + ovp);
        assert(awn * ovn + awn * al2 == 0 && awp * ovp + awp * al2 == 0) by (nonlinear_arith)
            requires awn == 0, awp == 0;
        assert(al2 * ovn == al2 * ovp + al2) by (nonlinear_arith)
            requires ovn == ovp + 1;
    } else {
        assert(ovn == max2 - l + 1 && ovp == ovn && awn == hi1 - max2 && awp == awn - 1);
        assert(awn * ovn + awn * al2 == awp * ovp + awp * al2 + ovn + al2) by (nonlinear_arith)
            requires awp == awn - 1, ovp == ovn;
    }
}

proof fn lemma_first_wins(min1: int, hi1: int, min2: int, max2: int)
    requires
        min1 - 1 <= hi1,
        min1 <= max2 + 1,
        min2 <= max2,
    ensures
        first_wins(min1, hi1, min2, max2) == overlap_formula(min1, hi1, min2, max2).1,
        draws(min1, hi1, min2, max2) == overlap_formula(min1, hi1, min2, max2).3,
        first_wins(min1, hi1, min2, max2) + second_wins(min1, hi1, min2, max2) + draws(min1, hi1, min2, max2)
            == (hi1 - min1 + 1) * (max2 - min2 + 1),
    decreases hi1 - min1 + 1,
{
    if hi1 < min1 {
        let ov = overlap_spec(min1, hi1, min2, max2);
        let aw = max_int(0, hi1 - max2);
        let al = max_int(0, min1 - min2);
        assert(ov == 0 && aw == 0);
        assert(aw * ov + al * ov + aw * al + (ov * ov - ov) / 2 == 0) by (nonlinear_arith)
            requires aw == 0, ov == 0;
        assert((hi1 - min1 + 1) * (max2 - min2 + 1) == 0) by (nonlinear_arith)
            requires hi1 - min1 + 1 == 0;
    } else {
        lemma_first_wins(min1, hi1 - 1, min2, max2);
        lemma_first_wins_step(min1, hi1, min2, max2);
        lemma_face_counts(hi1, min2, max2);
        assert((hi1 - min1 + 1) * (max2 - min2 + 1) == (hi1 - 1 - min1 + 1) * (max2 - min2 + 1) + (max2 - min2 + 1))
            by (nonlinear_arith);
    }
}

/// For two dice whose faces overlap or touch, the assembled counts are the pair counts.
proof fn lemma_overlap_formula_counts(min1: int, max1: int, min2: int, max2: int)
    requires
        min1 <= max1,
        min2 <= max2,
        min1 <= max2 + 1,
        min2 <= max1 + 1,
    ensures
        overlap_formula(min1, max1, min2, max2).0 == (max1 - min1 + 1) * (max2 - min2 + 1),
        overlap_formula(min1, max1, min2, max2).1 == first_wins(min1, max1, min2, max2),
        overlap_formula(min1, max1, min2, max2).2 == second_wins(min1, max1, min2, max2),
        overlap_formula(min1, max1, min2, max2).3 == draws(min1, max1, min2, max2),
{
    lemma_first_wins(min1, max1, min2, max2);
    let ov = overlap_spec(min1, max1, min2, max2);
    let al1 = max_int(0, min2 - min1);
    let aw1 = max_int(0, max1 - max2);
    let al2 = max_int(0, min1 - min2);
    let aw2 = max_int(0, max2 - max1);
    let h = (ov * ov - ov) / 2;
    let r1 = max1 - min1 + 1;
    let r2 = max2 - min2 + 1;
    assert(r1 == al1 + ov + aw1);
    assert(r2 == al2 + ov + aw2);
    assert(al1 * al2 == 0) by {
        if al1 != 0 {
            assert(al2 == 0);
        }
    }
    assert(aw1 * aw2 == 0) by {
        if aw1 != 0 {
            assert(aw2 == 0);
        }
    }
    lemma_half_double(ov);
    assert(r1 * r2 == (aw1 * ov + al2 * ov + aw1 * al2 + h) + (aw2 * ov + al1 * ov + aw2 * al1 + h) + ov)
        by (nonlinear_arith)
        requires
            r1 == al1 + ov + aw1,
            r2 == al2 + ov + aw2,
            al1 * al2 == 0,
            aw1 * aw2 == 0,
            ov * ov - ov == 2 * h,
    ;
}

/// The assembled counts are symmetric in the two dice.
proof fn lemma_overlap_formula_symmetric(min1: int, max1: int, min2: int, max2: int)
    ensures
        overlap_formula(min1, max1, min2, max2).0 == overlap_formula(min2, max2, min1, max1).0,
        overlap_formula(min1, max1, min2, max2).1 == overlap_formula(min2, max2, min1, max1).2,
        overlap_formula(min1, max1, min2, max2).2 == overlap_formula(min2, max2, min1, max1).1,
        overlap_formula(min1, max1, min2, max2).3 == overlap_formula(min2, max2, min1, max1).3,
{
    assert((max1 - min1 + 1) * (max2 - min2 + 1) == (max2 - min2 + 1) * (max1 - min1 + 1)) by (nonlinear_arith);
}

} // verus!
verus! {

/// Dice whose faces start at 1, the domain `calculate` is documented for, are all dice it
/// takes.
pub proof fn lemma_positive_dice_accepted(min1: i32, max1: i32, min2: i32, max2: i32)
    requires
        1 <= min1 <= max1,
        1 <= min2 <= max2,
    ensures
        calculate_accepts(min1 as int, max1 as int, min2 as int, max2 as int),
{
}


/// Whether `x` is an `i32`.
fn fits(x: i64) -> (b: bool)
    ensures
        b == fits_i32(x as int),
{
    -2147483648 <= x && x <= 2147483647
}

/// Whether `calculate` takes the dice with faces `min1..=max1` and `min2..=max2`.
pub fn calculate_accepted(min1: i32, max1: i32, min2: i32, max2: i32) -> (b: bool)
    ensures
        b == calculate_accepts(min1 as int, max1 as int, min2 as int, max2 as int),
{
    let (a1, b1, a2, b2) = (min1 as i64, max1 as i64, min2 as i64, max2 as i64);
    let low: i64 = if a1 >= a2 { a1 } else { a2 };
    let high: i64 = if b1 <= b2 { b1 } else { b2 };
    a1 <= b1 && a2 <= b2 && fits(b1 - a1 + 1) && fits(b2 - a2 + 1) && fits(high - low + 1) && fits(a2 - a1)
        && fits(b1 - b2) && fits(a1 - a2) && fits(b2 - b1)
}


/// When every face of the first die is above every face of the second, the first die wins
/// every pair.
proof fn lemma_all_above(lo1: int, hi1: int, lo2: int, hi2: int)
    requires
        lo2 <= hi2,
        hi2 < lo1,
        lo1 - 1 <= hi1,
    ensures
        first_wins(lo1, hi1, lo2, hi2) == (hi1 - lo1 + 1) * (hi2 - lo2 + 1),
        second_wins(lo1, hi1, lo2, hi2) == 0,
        draws(lo1, hi1, lo2, hi2) == 0,
    decreases hi1 - lo1 + 1,
{
    if hi1 < lo1 {
        assert((hi1 - lo1 + 1) * (hi2 - lo2 + 1) == 0) by (nonlinear_arith)
            requires hi1 - lo1 + 1 == 0;
    } else {
        lemma_all_above(lo1, hi1 - 1, lo2, hi2);
        lemma_face_counts(hi1, lo2, hi2);
        assert((hi1 - lo1 + 1) * (hi2 - lo2 + 1) == (hi1 - 1 - lo1 + 1) * (hi2 - lo2 + 1) + (hi2 - lo2 + 1))
            by (nonlinear_arith);
    }
}

/// When every face of the first die is below every face of the second, the second die wins
/// every pair.
proof fn lemma_all_below(lo1: int, hi1: int, lo2: int, hi2: int)
    requires
        lo2 <= hi2,
        hi1 < lo2,
        lo1 - 1 <= hi1,
    ensures
        first_wins(lo1, hi1, lo2, hi2) == 0,
        second_wins(lo1, hi1, lo2, hi2) == (hi1 - lo1 + 1) * (hi2 - lo2 + 1),
        draws(lo1, hi1, lo2, hi2) == 0,
    decreases hi1 - lo1 + 1,
{
    if hi1 < lo1 {
        assert((hi1 - lo1 + 1) * (hi2 - lo2 + 1) == 0) by (nonlinear_arith)
            requires hi1 - lo1 + 1 == 0;
    } else {
        lemma_all_below(lo1, hi1 - 1, lo2, hi2);
        lemma_face_counts(hi1, lo2, hi2);
        assert((hi1 - lo1 + 1) * (hi2 - lo2 + 1) == (hi1 - 1 - lo1 + 1) * (hi2 - lo2 + 1) + (hi2 - lo2 + 1))
            by (nonlinear_arith);
    }
}

/// Every pair of faces is a win of one die or a draw.
proof fn lemma_counts_sum(lo1: int, hi1: int, lo2: int, hi2: int)
    requires
        lo2 <= hi2 + 1,
        lo1 - 1 <= hi1,
    ensures
        first_wins(lo1, hi1, lo2, hi2) + second_wins(lo1, hi1, lo2, hi2) + draws(lo1, hi1, lo2, hi2)
            == (hi1 - lo1 + 1) * (hi2 - lo2 + 1),
    decreases hi1 - lo1 + 1,
{
    if hi1 < lo1 {
        assert((hi1 - lo1 + 1) * (hi2 - lo2 + 1) == 0) by (nonlinear_arith)
            requires hi1 - lo1 + 1 == 0;
    } else {
        lemma_counts_sum(lo1, hi1 - 1, lo2, hi2);
        lemma_face_counts(hi1, lo2, hi2);
        assert((hi1 - lo1 + 1) * (hi2 - lo2 + 1) == (hi1 - 1 - lo1 + 1) * (hi2 - lo2 + 1) + (hi2 - lo2 + 1))
            by (nonlinear_arith);
    }
}

/// The wins of the first die, the wins of the second and the draws add up to the number of
/// pairs of faces.
pub proof fn lemma_outcomes_partition(min1: int, max1: int, min2: int, max2: int)
    requires
        min1 <= max1,
        min2 <= max2,
    ensures
        dice_formula(min1, max1, min2, max2).1 + dice_formula(min1, max1, min2, max2).2
            + dice_formula(min1, max1, min2, max2).3 == dice_formula(min1, max1, min2, max2).0,
{
    lemma_counts_sum(min1, max1, min2, max2);
}

/// Swapping the two dice swaps their wins and keeps the pairs and the draws.
pub proof fn lemma_calculate_symmetric(min1: int, max1: int, min2: int, max2: int)
    requires
        min1 <= max1,
        min2 <= max2,
    ensures
        dice_formula(min1, max1, min2, max2).0 == dice_formula(min2, max2, min1, max1).0,
        dice_formula(min1, max1, min2, max2).1 == dice_formula(min2, max2, min1, max1).2,
        dice_formula(min1, max1, min2, max2).2 == dice_formula(min2, max2, min1, max1).1,
        dice_formula(min1, max1, min2, max2).3 == dice_formula(min2, max2, min1, max1).3,
{
    assert((max1 - min1 + 1) * (max2 - min2 + 1) == (max2 - min2 + 1) * (max1 - min1 + 1)) by (nonlinear_arith);
    if min1 > max2 {
        lemma_all_above(min1, max1, min2, max2);
        lemma_all_below(min2, max2, min1, max1);
    } else if min2 > max1 {
        lemma_all_below(min1, max1, min2, max2);
        lemma_all_above(min2, max2, min1, max1);
    } else {
        lemma_overlap_formula_counts(min1, max1, min2, max2);
        lemma_overlap_formula_counts(min2, max2, min1, max1);
        lemma_overlap_formula_symmetric(min1, max1, min2, max2);
    }
}

/// Computes the distribution of outcomes for two dice with faces `min1..=max1` and
/// `min2..=max2`: the pairs of faces, the first die's wins, the second's, and the draws.
pub fn calculate(min1: i32, max1: i32, min2: i32, max2: i32) -> (d: DiceDistribution)
    requires
        calculate_accepts(min1 as int, max1 as int, min2 as int, max2 as int),
    ensures
        (d.0 as int, d.1 as int, d.2 as int, d.3 as int) == dice_formula(
            min1 as int,
            max1 as int,
            min2 as int,
            max2 as int,
        ),
{
    if min1 > max2 {
        let r1: u128 = (max1 - min1 + 1) as u128;
        let r2: u128 = (max2 - min2 + 1) as u128;
        proof {
            assert(r1 * r2 < 0x4000_0000_0000_0000) by (nonlinear_arith)
                requires r1 < 0x8000_0000, r2 < 0x8000_0000;
            lemma_all_above(min1 as int, max1 as int, min2 as int, max2 as int);
        }
        DiceDistribution(r1 * r2, r1 * r2, 0, 0)
    } else if min2 > max1 {
        let r1: u128 = (max1 - min1 + 1) as u128;
        let r2: u128 = (max2 - min2 + 1) as u128;
        proof {
            assert(r1 * r2 < 0x4000_0000_0000_0000) by (nonlinear_arith)
                requires r1 < 0x8000_0000, r2 < 0x8000_0000;
            lemma_all_below(min1 as int, max1 as int, min2 as int, max2 as int);
        }
        DiceDistribution(r1 * r2, 0, r1 * r2, 0)
    } else {
        proof {
            lemma_overlap_formula_counts(min1 as int, max1 as int, min2 as int, max2 as int);
        }
        overlapping_outcomes(min1, max1, min2, max2)
    }
}

} // verus!
