use vstd::prelude::*;
use crate::error::GalleryError;
use vstd::arithmetic::div_mod::lemma_div_is_ordered;

verus! {

/// Fade (transition) time in seconds that the slideshow uses.
pub const TRANSITION_TIME: usize = 2;

/// One point of the fade curve: a percentage of the whole animation and the
/// opacity (0 or 1) that the image has there.
#[derive(Debug, Clone, Copy, PartialEq, Eq, Structural)]
pub struct Keyframe {
    pub percent: usize,
    pub opacity: usize,
}

/// `num / den` rounded to the nearest integer, halves upward.
pub open spec fn round_div(num: int, den: int) -> int {
    (2 * num + den) / (2 * den)
}

/// `x` held to the range `[0, 100]`.
pub open spec fn clamp_percent(x: int) -> int {
    if x < 0 {
        0
    } else if x > 100 {
        100
    } else {
        x
    }
}

/// The five points of the fade curve before rounding, as numerators over the
/// total duration: `0`, `100 d`, `100 (d + t)`, `100 total - 100 t`, `100 total`.
pub open spec fn raw_numerators(d: int, t: int, total: int) -> Seq<int> {
    seq![0, 100 * d, 100 * (d + t), 100 * total - 100 * t, 100 * total]
}

/// The five percentages: each point rounded, then held to `[0, 100]`.
pub open spec fn keyframe_percents(d: int, t: int, total: int) -> Seq<int> {
    raw_numerators(d, t, total).map_values(|x: int| clamp_percent(round_div(x, total)))
}

/// The opacities paired with the five points: the image fades in, then out.
pub open spec fn keyframe_opacities() -> Seq<int> {
    seq![0, 1, 0, 0, 1]
}

/// The fade curve for display time `d`, fade time `t` and total duration `total`.
pub open spec fn keyframes_spec(d: int, t: int, total: int) -> Seq<Keyframe> {
    Seq::new(
        5,
        |i: int|
            Keyframe {
                percent: keyframe_percents(d, t, total)[i] as usize,
                opacity: keyframe_opacities()[i] as usize,
            },
    )
}

/// Rounded percentage `100 * x / total` (halves upward), held to `[0, 100]`.
fn percent_of(x: usize, total: usize) -> (r: usize)
    requires
        total > 0,
    ensures
        r == clamp_percent(round_div(100 * x, total as int)),
{
    let num: u128 = 200 * (x as u128) + total as u128;
    let den: u128 = 2 * (total as u128);
    let q: u128 = num / den;
    if q > 100 {
        100
    } else {
        q as usize
    }
}

/// Rounded percentage `100 - 100 * t / total` (halves upward), held to `[0, 100]`.
fn complement_percent(t: usize, total: usize) -> (r: usize)
    requires
        total > 0,
    ensures
        r == clamp_percent(round_div(100 * total - 100 * t, total as int)),
{
    if t > total {
        let ghost num: int = 100 * total - 100 * t;
        assert(2 * num + total < 2 * total) by (nonlinear_arith)
            requires
                num == 100 * total - 100 * t,
                t > total,
                total > 0,
        ;
        assert(round_div(num, total as int) <= 0) by (nonlinear_arith)
            requires
                2 * num + total < 2 * total,
                total > 0,
        ;
        0
    } else {
        let num: u128 = 200 * ((total - t) as u128) + total as u128;
        let den: u128 = 2 * (total as u128);
        let q: u128 = num / den;
        assert(100 * total - 100 * t == 100 * (total - t) as int);
        if q > 100 {
            100
        } else {
            q as usize
        }
    }
}

/// The five keyframes of the fade curve for `n_imgs` images shown
/// `duration_per_image` seconds each, with fades of `transition_time` seconds.
/// The total duration is `duration_per_image * n_imgs`; with no images there is
/// nothing to divide by and the result is `NoImages`.
pub fn compute_keyframes(duration_per_image: usize, transition_time: usize, n_imgs: usize) -> (r:
    Result<Vec<Keyframe>, GalleryError>)
    requires
        duration_per_image > 0,
        duration_per_image * n_imgs <= usize::MAX,
    ensures
        r is Err <==> n_imgs == 0,
        r matches Err(e) ==> e is NoImages,
        r matches Ok(v) ==> v@ == keyframes_spec(
            duration_per_image as int,
            transition_time as int,
            duration_per_image * n_imgs,
        ),
{
    if n_imgs == 0 {
        return Err(GalleryError::NoImages);
    }
    assert(duration_per_image * n_imgs >= duration_per_image) by (nonlinear_arith)
        requires
            n_imgs >= 1,
    ;
    let total: usize = duration_per_image * n_imgs;
    let d = duration_per_image;
    let t = transition_time;
    let d_plus_t: u128 = d as u128 + t as u128;
    let k3: usize = if d_plus_t > total as u128 {
        let ghost x: int = d + t;
        assert(round_div(100 * x, total as int) >= 100) by (nonlinear_arith)
            requires
                x > total,
                total > 0,
        ;
        100
    } else {
        percent_of(d_plus_t as usize, total)
    };
    let k2 = percent_of(d, total);
    let k4 = complement_percent(t, total);
    let mut v: Vec<Keyframe> = Vec::new();
    v.push(Keyframe { percent: 0, opacity: 0 });
    v.push(Keyframe { percent: k2, opacity: 1 });
    v.push(Keyframe { percent: k3, opacity: 0 });
    v.push(Keyframe { percent: k4, opacity: 0 });
    v.push(Keyframe { percent: 100, opacity: 1 });
    proof {
        let ks = keyframes_spec(d as int, t as int, total as int);
        let ps = keyframe_percents(d as int, t as int, total as int);
        assert(round_div(0, total as int) == 0) by (nonlinear_arith)
            requires
                total > 0,
        ;
        assert(round_div(100 * total, total as int) == 100) by (nonlinear_arith)
            requires
                total > 0,
        ;
        assert(ps[0] == 0);
        assert(ps[1] == k2);
        assert(ps[2] == k3);
        assert(ps[3] == k4);
        assert(ps[4] == 100);
        assert(v@ =~= ks);
    }
    Ok(v)
}

/// For `n >= 1` images shown `d > 0` seconds each, every keyframe percentage
/// lies in `[0, 100]`.
pub proof fn lemma_percents_in_range(d: int, t: int, n: int)
    requires
        d > 0,
        t > 0,
        n >= 1,
    ensures
        forall|i: int| 0 <= i < 5 ==> 0 <= #[trigger] keyframe_percents(d, t, d * n)[i] <= 100,
{
}

/// Rounding to the nearest integer keeps the order of two fractions over one
/// denominator.
proof fn lemma_round_div_ordered(a: int, b: int, den: int)
    requires
        a <= b,
        den > 0,
    ensures
        round_div(a, den) <= round_div(b, den),
{
    lemma_div_is_ordered(2 * a + den, 2 * b + den, 2 * den);
}

/// When both fades of an image fit in the animation (`d + 2 t <= d * n`), the
/// five points rise monotonically through the fade cycle, both before rounding
/// and as the rounded percentages.
pub proof fn lemma_points_monotonic(d: int, t: int, n: int)
    requires
        d > 0,
        t > 0,
        n >= 1,
        d + 2 * t <= d * n,
    ensures
        forall|i: int|
            0 <= i < 4 ==> raw_numerators(d, t, d * n)[i] <= #[trigger] raw_numerators(
                d,
                t,
                d * n,
            )[i + 1],
        forall|i: int|
            0 <= i < 4 ==> keyframe_percents(d, t, d * n)[i] <= #[trigger] keyframe_percents(
                d,
                t,
                d * n,
            )[i + 1],
{
    let total = d * n;
    assert(total > 0) by (nonlinear_arith)
        requires
            d > 0,
            n >= 1,
            total == d * n,
    ;
    let raw = raw_numerators(d, t, total);
    assert forall|i: int| 0 <= i < 4 implies keyframe_percents(d, t, total)[i] <= #[trigger] keyframe_percents(
        d,
        t,
        total,
    )[i + 1] by {
        lemma_round_div_ordered(raw[i], raw[i + 1], total);
    }
}

/// Each keyframe's opacity is 0 or 1, and the opacities run exactly
/// `0, 1, 0, 0, 1`.
pub proof fn lemma_opacities(d: int, t: int, n: int)
    requires
        d > 0,
        t > 0,
        n >= 1,
    ensures
        forall|i: int|
            0 <= i < 5 ==> (#[trigger] keyframes_spec(d, t, d * n)[i]).opacity == 0
                || keyframes_spec(d, t, d * n)[i].opacity == 1,
        keyframes_spec(d, t, d * n).map_values(|k: Keyframe| k.opacity as int) == seq![0int, 1, 0, 0, 1],
{
    assert(keyframes_spec(d, t, d * n).map_values(|k: Keyframe| k.opacity as int) =~= seq![0int, 1, 0, 0, 1]);
}

} // verus!
