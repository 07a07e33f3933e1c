use vstd::prelude::*;

verus! {

/// Fixed-point scale: a sample or volume value of `UNIT` stands for 1.0.
pub const UNIT: i32 = 1_000_000;

/// Magnitude of a sample value.
pub open spec fn spec_abs(s: int) -> int {
    if s >= 0 {
        s
    } else {
        -s
    }
}

/// A sample scaled by a volume in `[0, UNIT]`, truncating toward zero.
pub open spec fn spec_scaled(s: int, v: int) -> int {
    if s >= 0 {
        (s * v) / (UNIT as int)
    } else {
        -(((-s) * v) / (UNIT as int))
    }
}

/// A mix sum clipped to the representable amplitude range `[-UNIT, UNIT]`.
pub open spec fn spec_clipped(s: int) -> int {
    if s > UNIT as int {
        UNIT as int
    } else if s < -(UNIT as int) {
        -(UNIT as int)
    } else {
        s
    }
}

/// Scaling by a volume no greater than `UNIT` never grows the magnitude.
pub proof fn lemma_scaled_bound(s: int, v: int)
    requires
        0 <= v <= UNIT as int,
    ensures
        spec_abs(spec_scaled(s, v)) <= spec_abs(s),
{
    let u = UNIT as int;
    if s >= 0 {
        assert(s * v <= s * u) by (nonlinear_arith)
            requires 0 <= v <= u && s >= 0;
        assert(s * v >= 0) by (nonlinear_arith)
            requires s >= 0 && v >= 0;
        vstd::arithmetic::div_mod::lemma_div_is_ordered(s * v, s * u, u);
        vstd::arithmetic::div_mod::lemma_div_by_multiple(s, u);
        vstd::arithmetic::div_mod::lemma_div_pos_is_pos(s * v, u);
    } else {
        let m = -s;
        assert(m * v <= m * u) by (nonlinear_arith)
            requires 0 <= v <= u && m >= 0;
        assert(m * v >= 0) by (nonlinear_arith)
            requires m >= 0 && v >= 0;
        vstd::arithmetic::div_mod::lemma_div_is_ordered(m * v, m * u, u);
        vstd::arithmetic::div_mod::lemma_div_by_multiple(m, u);
        vstd::arithmetic::div_mod::lemma_div_pos_is_pos(m * v, u);
    }
}

/// Scale a sample by a volume, with `UNIT` meaning unchanged.
pub fn scaled_sample(s: i32, v: i32) -> (r: i32)
    requires
        0 <= v <= UNIT,
    ensures
        r as int == spec_scaled(s as int, v as int),
{
    proof {
        lemma_scaled_bound(s as int, v as int);
    }
    let mag: u64 = if s >= 0 {
        s as u64
    } else {
        (-(s as i64)) as u64
    };
    let q: u64 = (mag * (v as u64)) / (UNIT as u64);
    if s >= 0 {
        q as i32
    } else {
        (-(q as i64)) as i32
    }
}

/// An element-wise copy of a sample buffer.
pub fn copy_samples(src: &Vec<i32>) -> (r: Vec<i32>)
    ensures
        r@ == src@,
{
    let mut r: Vec<i32> = Vec::new();
    let mut i: usize = 0;
    while i < src.len()
        invariant
            i <= src.len(),
            r@ =~= src@.take(i as int),
        decreases src.len() - i,
    {
        r.push(src[i]);
        i = i + 1;
    }
    proof {
        assert(r@ =~= src@);
    }
    r
}

/// Clip a mix sum to `[-UNIT, UNIT]`.
pub fn clip_sample(s: i64) -> (r: i32)
    ensures
        r as int == spec_clipped(s as int),
{
    if s > UNIT as i64 {
        UNIT
    } else if s < -(UNIT as i64) {
        -UNIT
    } else {
        s as i32
    }
}

} // verus!
