use vstd::prelude::*;

verus! {

/// A point in screen coordinates, in whole screen units.
#[derive(Clone, Copy, Debug, PartialEq, Eq, Structural)]
pub struct Point {
    pub x: i64,
    pub y: i64,
}

/// `v * num / den`, rounded toward zero.
pub open spec fn mul_div(v: int, num: int, den: int) -> int {
    if v >= 0 {
        (v * num) / den
    } else {
        -(((-v) * num) / den)
    }
}

/// `v * num / den` rounded toward zero, for `num` and `den` up to 2^40 and
/// `v` up to 2^80 in size.
pub(crate) fn mul_div_i128(v: i128, num: u64, den: u64) -> (r: i128)
    requires
        -0x1_0000_0000_0000_0000_0000 <= v <= 0x1_0000_0000_0000_0000_0000,
        num <= 0x100_0000_0000,
        0 < den <= 0x100_0000_0000,
    ensures
        r == mul_div(v as int, num as int, den as int),
{
    let n = num as u128;
    let d = den as u128;
    if v >= 0 {
        let m = v as u128;
        assert(m * n <= 0x1_0000_0000_0000_0000_0000 * 0x100_0000_0000) by (nonlinear_arith)
            requires
                m <= 0x1_0000_0000_0000_0000_0000,
                n <= 0x100_0000_0000,
        ;
        let q = (m * n) / d;
        assert(q <= m * n) by (nonlinear_arith)
            requires
                q as int == (m * n) as int / d as int,
                d > 0,
        ;
        q as i128
    } else {
        let m = (-v) as u128;
        assert(m * n <= 0x1_0000_0000_0000_0000_0000 * 0x100_0000_0000) by (nonlinear_arith)
            requires
                m <= 0x1_0000_0000_0000_0000_0000,
                n <= 0x100_0000_0000,
        ;
        let q = (m * n) / d;
        assert(q <= m * n) by (nonlinear_arith)
            requires
                q as int == (m * n) as int / d as int,
                d > 0,
        ;
        -(q as i128)
    }
}

} // verus!
