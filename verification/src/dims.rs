//! Planning of target dimensions for the two operations: a proportional
//! rescale by a rational ratio, and a scale-to-fit rescale that brings the
//! longer side of the image to a requested size.

use vstd::prelude::*;
use vstd::arithmetic::div_mod::lemma_fundamental_div_mod;
use vstd::arithmetic::div_mod::lemma_fundamental_div_mod_converse;
use vstd::arithmetic::div_mod::lemma_div_is_ordered;
use vstd::arithmetic::div_mod::lemma_mod_division_less_than_divisor;

verus! {

/// The ways a transform request can fail before any pixel is touched.
#[derive(Debug, Clone, Copy, PartialEq, Eq, Structural)]
pub enum TransformError {
    /// Neither a ratio nor a minimum size was given for a rescale.
    MissingMode,
    /// Both a ratio and a minimum size were given; exactly one is allowed.
    ConflictingModes,
    /// The given ratio is not a positive rational number.
    InvalidRatio,
    /// The image has no pixels, so no scale factor can be derived from it.
    ZeroDimension,
    /// The requested output dimensions do not fit in the supported range.
    DimensionOverflow,
    /// The input path has an empty file name, so no output name can be built.
    EmptyFileName,
}

/// How a rescale chooses its target dimensions: multiply both sides by a
/// positive rational `num / den`, or bring the longer side to `size` while
/// keeping the aspect ratio.
#[derive(Debug, Clone, Copy, PartialEq, Eq, Structural)]
pub enum RescaleMode {
    Ratio { num: u32, den: u32 },
    MinSize { size: u32 },
}

/// A well-formed mode carries a positive ratio.
pub open spec fn mode_wf(mode: RescaleMode) -> bool {
    match mode {
        RescaleMode::Ratio { num, den } => num > 0 && den > 0,
        RescaleMode::MinSize { size: _ } => true,
    }
}

/// `a / d` rounded to the nearest integer, halves rounding up.
pub open spec fn round_div(a: nat, d: nat) -> nat
    recommends
        d > 0,
{
    (2 * a + d) / (2 * d)
}

/// The longer of the two sides of an image (its width when the sides are equal
/// is only reached through `w > h`, so ties go to the height).
pub open spec fn longer_side(w: nat, h: nat) -> nat {
    if w > h {
        w
    } else {
        h
    }
}

/// The dimensions a rescale aims for, or the error it reports:
/// with a ratio, each side is `side * num / den` rounded to nearest, and the
/// request fails when a side would not fit in `u32`; with a minimum size,
/// each side is `side * size / longer_side` rounded to nearest, and the
/// request fails only on an image with no pixels at all.
pub open spec fn plan_spec(w: nat, h: nat, mode: RescaleMode) -> Result<(nat, nat), TransformError>
    recommends
        mode_wf(mode),
{
    match mode {
        RescaleMode::Ratio { num, den } => {
            let nw = round_div(w * (num as nat), den as nat);
            let nh = round_div(h * (num as nat), den as nat);
            if nw > u32::MAX || nh > u32::MAX {
                Result::Err(TransformError::DimensionOverflow)
            } else {
                Result::Ok((nw, nh))
            }
        },
        RescaleMode::MinSize { size } => {
            if w == 0 && h == 0 {
                Result::Err(TransformError::ZeroDimension)
            } else {
                let l = longer_side(w, h);
                Result::Ok((round_div(w * (size as nat), l), round_div(h * (size as nat), l)))
            }
        },
    }
}

/// Which mode a pair of optional arguments selects: exactly one of the two
/// must be present, and a ratio must be positive in both parts.
pub open spec fn select_mode_spec(
    ratio: Option<(u32, u32)>,
    min_size: Option<u32>,
) -> Result<RescaleMode, TransformError> {
    match (ratio, min_size) {
        (Option::Some(_), Option::Some(_)) => Result::Err(TransformError::ConflictingModes),
        (Option::Some(r), Option::None) => if r.0 > 0 && r.1 > 0 {
            Result::Ok(RescaleMode::Ratio { num: r.0, den: r.1 })
        } else {
            Result::Err(TransformError::InvalidRatio)
        },
        (Option::None, Option::Some(m)) => Result::Ok(RescaleMode::MinSize { size: m }),
        (Option::None, Option::None) => Result::Err(TransformError::MissingMode),
    }
}

/// Turns the two optional command-line arguments into a validated mode.
pub fn select_mode(ratio: Option<(u32, u32)>, min_size: Option<u32>) -> (res: Result<
    RescaleMode,
    TransformError,
>)
    ensures
        res == select_mode_spec(ratio, min_size),
        res matches Ok(m) ==> mode_wf(m),
{
    match (ratio, min_size) {
        (Some(_), Some(_)) => Err(TransformError::ConflictingModes),
        (Some(r), None) => {
            if r.0 > 0 && r.1 > 0 {
                Ok(RescaleMode::Ratio { num: r.0, den: r.1 })
            } else {
                Err(TransformError::InvalidRatio)
            }
        },
        (None, Some(m)) => Ok(RescaleMode::MinSize { size: m }),
        (None, None) => Err(TransformError::MissingMode),
    }
}

/// Rounded division, computed in 128-bit arithmetic.
fn round_div_u128(a: u128, d: u128) -> (q: u128)
    requires
        0 < d <= u64::MAX,
        a <= u64::MAX,
    ensures
        q == round_div(a as nat, d as nat),
{
    (2 * a + d) / (2 * d)
}

/// A product of two values bounded by `u32::MAX` fits in a `u64`.
pub proof fn lemma_u32_product_bound(x: nat, y: nat)
    requires
        x <= u32::MAX,
        y <= u32::MAX,
    ensures
        x * y <= u64::MAX,
{
    assert(x * y <= u64::MAX) by (nonlinear_arith)
        requires
            x <= u32::MAX,
            y <= u32::MAX,
    ;
}

/// Scaling a side that is at most the longer side to a target of `m`
/// cannot exceed `m`: `round_div(w * m, l) <= m` when `w <= l`.
proof fn lemma_scaled_le(w: nat, m: nat, l: nat)
    requires
        w <= l,
        l > 0,
    ensures
        round_div(w * m, l) <= m,
{
    assert(2 * (w * m) + l <= 2 * (l * m) + l) by (nonlinear_arith)
        requires
            w <= l,
    ;
    lemma_div_is_ordered((2 * (w * m) + l) as int, (2 * (l * m) + l) as int, (2 * l) as int);
    assert(2 * (l * m) + l == m * (2 * l) + l) by (nonlinear_arith);
    lemma_fundamental_div_mod_converse((2 * (l * m) + l) as int, (2 * l) as int, m as int, l as int);
}

/// Scaling the longer side by `size / longer` lands exactly on `size`:
/// `round_div(l * size, l) == size` for a positive `l`.
pub proof fn lemma_longer_side_exact(l: nat, size: nat)
    requires
        l > 0,
    ensures
        round_div(l * size, l) == size,
{
    assert(2 * (l * size) + l == size * (2 * l) + l) by (nonlinear_arith);
    lemma_fundamental_div_mod_converse(
        (2 * (l * size) + l) as int,
        (2 * l) as int,
        size as int,
        l as int,
    );
}

/// Rounded division lands within half a unit of the exact quotient:
/// `2 * d * round_div(a, d)` differs from `2 * a` by at most `d`.
pub proof fn lemma_round_div_within_half(a: nat, d: nat)
    requires
        d > 0,
    ensures
        2 * d * round_div(a, d) <= 2 * a + d,
        2 * a <= 2 * d * round_div(a, d) + d,
{
    let x = (2 * a + d) as int;
    let dd = (2 * d) as int;
    lemma_fundamental_div_mod(x, dd);
    lemma_mod_division_less_than_divisor(x, dd);
    let q = x / dd;
    let r = x % dd;
    assert(x == dd * q + r);
    assert(0 <= r < dd);
    assert(2 * d * round_div(a, d) == dd * q);
}

/// The heart of the min-size mode: the plan succeeds on every image with at
/// least one pixel, the longer side of the planned dimensions is exactly the
/// requested size, and each planned side is within half a unit of exact
/// proportional scaling, so the aspect ratio is preserved up to rounding.
pub proof fn lemma_min_size_preserves_aspect(w: u32, h: u32, size: u32)
    requires
        w > 0 || h > 0,
    ensures
        ({
            let l = longer_side(w as nat, h as nat);
            let nw = round_div((w as nat) * (size as nat), l);
            let nh = round_div((h as nat) * (size as nat), l);
            &&& plan_spec(w as nat, h as nat, RescaleMode::MinSize { size }) == Result::<
                (nat, nat),
                TransformError,
            >::Ok((nw, nh))
            &&& w >= h ==> nw == size
            &&& h >= w ==> nh == size
            &&& 2 * l * nw <= 2 * ((w as nat) * (size as nat)) + l
            &&& 2 * ((w as nat) * (size as nat)) <= 2 * l * nw + l
            &&& 2 * l * nh <= 2 * ((h as nat) * (size as nat)) + l
            &&& 2 * ((h as nat) * (size as nat)) <= 2 * l * nh + l
        }),
{
    let l = longer_side(w as nat, h as nat);
    if w >= h {
        assert(l == w as nat);
        lemma_longer_side_exact(l, size as nat);
    }
    if h >= w {
        assert(l == h as nat);
        lemma_longer_side_exact(l, size as nat);
    }
    lemma_round_div_within_half((w as nat) * (size as nat), l);
    lemma_round_div_within_half((h as nat) * (size as nat), l);
}

/// Computes the dimensions that a rescale aims for, exactly as `plan_spec`
/// describes them.
pub fn plan_rescale(width: u32, height: u32, mode: &RescaleMode) -> (res: Result<
    (u32, u32),
    TransformError,
>)
    requires
        mode_wf(*mode),
    ensures
        ({
            let p = plan_spec(width as nat, height as nat, *mode);
            match res {
                Ok(d) => p == Result::<(nat, nat), TransformError>::Ok(
                    ((d.0 as nat), (d.1 as nat)),
                ),
                Err(e) => p == Result::<(nat, nat), TransformError>::Err(e),
            }
        }),
{
    match mode {
        RescaleMode::Ratio { num, den } => {
            proof {
                lemma_u32_product_bound(width as nat, *num as nat);
                lemma_u32_product_bound(height as nat, *num as nat);
            }
            let aw: u128 = (width as u128) * (*num as u128);
            let ah: u128 = (height as u128) * (*num as u128);
            let nw = round_div_u128(aw, *den as u128);
            let nh = round_div_u128(ah, *den as u128);
            if nw > u32::MAX as u128 || nh > u32::MAX as u128 {
                Err(TransformError::DimensionOverflow)
            } else {
                Ok((nw as u32, nh as u32))
            }
        },
        RescaleMode::MinSize { size } => {
            if width == 0 && height == 0 {
                Err(TransformError::ZeroDimension)
            } else {
                let l: u32 = if width > height {
                    width
                } else {
                    height
                };
                proof {
                    lemma_u32_product_bound(width as nat, *size as nat);
                    lemma_u32_product_bound(height as nat, *size as nat);
                    lemma_scaled_le(width as nat, *size as nat, l as nat);
                    lemma_scaled_le(height as nat, *size as nat, l as nat);
                }
                let nw = round_div_u128((width as u128) * (*size as u128), l as u128);
                let nh = round_div_u128((height as u128) * (*size as u128), l as u128);
                Ok((nw as u32, nh as u32))
            }
        },
    }
}

} // verus!
