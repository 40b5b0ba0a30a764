//! Pan-tilt-zoom motion requests, and the plan of a recenter on a point of
//! the picture.

use vstd::prelude::*;

use crate::address::text_of;
use crate::binding::BindError;

verus! {

/// Translation space of a relative pan/tilt displacement.
pub const PAN_TILT_TRANSLATION_SPACE: &'static str = "relative_pan_tilt_translation_space";

/// Translation space of a relative zoom displacement.
pub const ZOOM_TRANSLATION_SPACE: &'static str = "relative_zoom_translation_space";

/// Safety timeout of a continuous move, in seconds.
pub const CONTINUOUS_TIMEOUT_SECONDS: u64 = 5;

/// Motion scale of a recenter: milliseconds per unit of displacement.
pub const RECENTER_MS_PER_UNIT: u64 = 500;

/// A pan/tilt pair and a zoom, each tagged with an optional named space.
/// Without a tag the device uses its default space.
#[derive(Debug, Clone)]
pub struct MotionVector<T> {
    pub pan: T,
    pub tilt: T,
    pub zoom: T,
    pub pan_tilt_space: Option<String>,
    pub zoom_space: Option<String>,
}

/// A velocity in the device's default space: it carries no space tag.
pub fn velocity_vector<T>(pan: T, tilt: T, zoom: T) -> (r: MotionVector<T>)
    ensures
        r.pan == pan,
        r.tilt == tilt,
        r.zoom == zoom,
        r.pan_tilt_space is None,
        r.zoom_space is None,
{
    MotionVector { pan, tilt, zoom, pan_tilt_space: None, zoom_space: None }
}

/// A displacement, tagged with the relative translation spaces of pan/tilt
/// and of zoom.
pub fn translation_vector<T>(pan: T, tilt: T, zoom: T) -> (r: MotionVector<T>)
    ensures
        r.pan == pan,
        r.tilt == tilt,
        r.zoom == zoom,
        text_of(r.pan_tilt_space) == Some(PAN_TILT_TRANSLATION_SPACE@),
        text_of(r.zoom_space) == Some(ZOOM_TRANSLATION_SPACE@),
{
    MotionVector {
        pan,
        tilt,
        zoom,
        pan_tilt_space: Some(PAN_TILT_TRANSLATION_SPACE.to_owned()),
        zoom_space: Some(ZOOM_TRANSLATION_SPACE.to_owned()),
    }
}

/// A request to start moving at a velocity, bounded by a safety timeout.
#[derive(Debug, Clone)]
pub struct ContinuousMove<T> {
    pub profile_token: String,
    pub velocity: MotionVector<T>,
    pub timeout_seconds: u64,
}

/// A request to move by a displacement; the device stops on its own.
#[derive(Debug, Clone)]
pub struct RelativeMove<T> {
    pub profile_token: String,
    pub translation: MotionVector<T>,
    /// Unset: the device moves at its default speed.
    pub speed: Option<MotionVector<T>>,
}

/// A request to halt the pan/tilt axes, the zoom axis, or both.
#[derive(Debug, Clone)]
pub struct StopRequest {
    pub profile_token: String,
    pub pan_tilt: bool,
    pub zoom: bool,
}

/// A continuous move of the profile at the given velocity, in the default
/// space, with the safety timeout.
pub fn continuous_move_request<T>(profile_token: String, pan: T, tilt: T, zoom: T) -> (r:
    ContinuousMove<T>)
    ensures
        r.profile_token == profile_token,
        r.velocity.pan == pan,
        r.velocity.tilt == tilt,
        r.velocity.zoom == zoom,
        r.velocity.pan_tilt_space is None,
        r.velocity.zoom_space is None,
        r.timeout_seconds == CONTINUOUS_TIMEOUT_SECONDS,
{
    ContinuousMove {
        profile_token,
        velocity: velocity_vector(pan, tilt, zoom),
        timeout_seconds: CONTINUOUS_TIMEOUT_SECONDS,
    }
}

/// A relative move of the profile by the given displacement, in the tagged
/// translation spaces, at default speed.
pub fn relative_move_request<T>(profile_token: String, pan: T, tilt: T, zoom: T) -> (r:
    RelativeMove<T>)
    ensures
        r.profile_token == profile_token,
        r.translation.pan == pan,
        r.translation.tilt == tilt,
        r.translation.zoom == zoom,
        text_of(r.translation.pan_tilt_space) == Some(PAN_TILT_TRANSLATION_SPACE@),
        text_of(r.translation.zoom_space) == Some(ZOOM_TRANSLATION_SPACE@),
        r.speed is None,
{
    RelativeMove { profile_token, translation: translation_vector(pan, tilt, zoom), speed: None }
}

/// A stop of both the pan/tilt and the zoom axes of the profile.
pub fn stop_request(profile_token: String) -> (r: StopRequest)
    ensures
        r.profile_token == profile_token,
        r.pan_tilt,
        r.zoom,
{
    StopRequest { profile_token, pan_tilt: true, zoom: true }
}

/// The squared displacement `(x / width)^2 + (y / height)^2` of a recenter is
/// `magnitude_num / magnitude_den`.
pub open spec fn magnitude_num(x: int, y: int, width: int, height: int) -> int {
    x * x * (height * height) + y * y * (width * width)
}

/// See `magnitude_num`.
pub open spec fn magnitude_den(width: int, height: int) -> int {
    width * width * (height * height)
}

/// Whether `d` milliseconds is at most `500 * sqrt(pan^2 + tilt^2)` for the
/// recenter on `(x, y)` in a `width` by `height` picture.
pub open spec fn duration_within(d: int, x: int, y: int, width: int, height: int) -> bool {
    d * d * magnitude_den(width, height) <= (RECENTER_MS_PER_UNIT * RECENTER_MS_PER_UNIT)
        * magnitude_num(x, y, width, height)
}

/// Whether `d` is `500 * sqrt(pan^2 + tilt^2)` rounded down to whole
/// milliseconds.
pub open spec fn is_recenter_duration(d: int, x: int, y: int, width: int, height: int) -> bool {
    d >= 0 && duration_within(d, x, y, width, height) && !duration_within(
        d + 1,
        x,
        y,
        width,
        height,
    )
}

/// Bounds the floor of `a / b + c / d` from its two quotients and remainders.
proof fn lemma_floor_of_sum(
    a: int,
    b: int,
    c: int,
    d: int,
    q1: int,
    r1: int,
    q2: int,
    r2: int,
    carry: int,
    f: int,
)
    requires
        b > 0,
        d > 0,
        a == q1 * b + r1,
        0 <= r1 < b,
        c == q2 * d + r2,
        0 <= r2 < d,
        carry == (if r1 * d + r2 * b >= b * d {
            1int
        } else {
            0int
        }),
        f == q1 + q2 + carry,
    ensures
        f * (b * d) <= a * d + c * b,
        a * d + c * b < (f + 1) * (b * d),
{
    assert(a * d + c * b == (q1 + q2) * (b * d) + (r1 * d + r2 * b)) by (nonlinear_arith)
        requires
            a == q1 * b + r1,
            c == q2 * d + r2,
    ;
    assert(r1 * d < b * d) by (nonlinear_arith)
        requires
            0 <= r1 < b,
            d > 0,
    ;
    assert(r2 * b < b * d) by (nonlinear_arith)
        requires
            0 <= r2 < d,
            b > 0,
    ;
    assert(0 <= r1 * d + r2 * b) by (nonlinear_arith)
        requires
            0 <= r1,
            0 <= r2,
            b > 0,
            d > 0,
    ;
    assert(f * (b * d) == (q1 + q2) * (b * d) + carry * (b * d)) by (nonlinear_arith)
        requires
            f == q1 + q2 + carry,
    ;
    assert((f + 1) * (b * d) == f * (b * d) + b * d) by (nonlinear_arith);
}

/// A whole square root of the floor of `n / x` is one of `n / x`.
proof fn lemma_root_of_floor(f: int, s: int, n: int, x: int)
    requires
        x > 0,
        s >= 0,
        f * x <= n < (f + 1) * x,
        s * s <= f < (s + 1) * (s + 1),
    ensures
        s * s * x <= n,
        n < (s + 1) * (s + 1) * x,
{
    assert(s * s * x <= f * x) by (nonlinear_arith)
        requires
            s * s <= f,
            x > 0,
    ;
    assert((f + 1) * x <= (s + 1) * (s + 1) * x) by (nonlinear_arith)
        requires
            f + 1 <= (s + 1) * (s + 1),
            x > 0,
    ;
}

/// The whole square root of `n`, rounded down.
fn floor_sqrt(n: u128) -> (r: u64)
    requires
        n <= 0x4_0000_0000_0000_0000_0000,
    ensures
        r as int * r as int <= n,
        n < (r as int + 1) * (r as int + 1),
{
    let mut lo: u128 = 0;
    let mut hi: u128 = 0x200_0000_0001;
    assert(n < hi * hi) by (nonlinear_arith)
        requires
            n <= 0x4_0000_0000_0000_0000_0000,
            hi == 0x200_0000_0001,
    ;
    while hi - lo > 1
        invariant
            lo < hi <= 0x200_0000_0001,
            lo * lo <= n,
            n < hi * hi,
        decreases hi - lo,
    {
        let mid: u128 = lo + (hi - lo) / 2;
        assert(mid * mid <= 0x200_0000_0001 * 0x200_0000_0001) by (nonlinear_arith)
            requires
                mid < 0x200_0000_0001,
        ;
        if mid * mid <= n {
            lo = mid;
        } else {
            hi = mid;
        }
    }
    assert(hi == lo + 1);
    lo as u64
}

/// The absolute value of `v`, widened.
fn magnitude_of(v: i32) -> (r: u128)
    ensures
        r as int == if v < 0 {
            -(v as int)
        } else {
            v as int
        },
        r <= 0x8000_0000,
{
    if v < 0 {
        (-(v as i64)) as u128
    } else {
        v as u128
    }
}

/// `500 * sqrt((x / width)^2 + (y / height)^2)` milliseconds, rounded down:
/// how long a continuous recenter on `(x, y)` in a `width` by `height`
/// picture moves before it stops.
pub fn recenter_duration_ms(x: i32, y: i32, width: i32, height: i32) -> (r: u64)
    requires
        width != 0,
        height != 0,
    ensures
        is_recenter_duration(r as int, x as int, y as int, width as int, height as int),
{
    let scale: u128 = (RECENTER_MS_PER_UNIT as u128) * (RECENTER_MS_PER_UNIT as u128);
    let xa = magnitude_of(x);
    let ya = magnitude_of(y);
    let wa = magnitude_of(width);
    let ha = magnitude_of(height);
    assert(xa * xa <= 0x4000_0000_0000_0000 && ya * ya <= 0x4000_0000_0000_0000 && wa * wa
        <= 0x4000_0000_0000_0000 && ha * ha <= 0x4000_0000_0000_0000) by (nonlinear_arith)
        requires
            xa <= 0x8000_0000,
            ya <= 0x8000_0000,
            wa <= 0x8000_0000,
            ha <= 0x8000_0000,
    ;
    assert(wa * wa >= 1 && ha * ha >= 1) by (nonlinear_arith)
        requires
            wa >= 1,
            ha >= 1,
    ;
    let a: u128 = scale * (xa * xa);
    let b: u128 = wa * wa;
    let c: u128 = scale * (ya * ya);
    let d: u128 = ha * ha;
    let q1: u128 = a / b;
    let r1: u128 = a % b;
    let q2: u128 = c / d;
    let r2: u128 = c % d;
    assert(r1 * d < 0x4000_0000_0000_0000 * 0x4000_0000_0000_0000 && r2 * b < 0x4000_0000_0000_0000
        * 0x4000_0000_0000_0000 && b * d <= 0x4000_0000_0000_0000 * 0x4000_0000_0000_0000)
        by (nonlinear_arith)
        requires
            r1 < b <= 0x4000_0000_0000_0000,
            r2 < d <= 0x4000_0000_0000_0000,
    ;
    let carry: u128 = if r1 * d + r2 * b >= b * d {
        1
    } else {
        0
    };
    assert(q1 <= a && q2 <= c) by (nonlinear_arith)
        requires
            q1 == a / b,
            q2 == c / d,
            b >= 1,
            d >= 1,
    ;
    let f: u128 = q1 + q2 + carry;
    let s = floor_sqrt(f);
    proof {
        let (xi, yi, wi, hi) = (x as int, y as int, width as int, height as int);
        assert(a == q1 * b + r1 && c == q2 * d + r2) by (nonlinear_arith)
            requires
                q1 == a / b,
                r1 == a % b,
                q2 == c / d,
                r2 == c % d,
                b >= 1,
                d >= 1,
        ;
        lemma_floor_of_sum(
            a as int,
            b as int,
            c as int,
            d as int,
            q1 as int,
            r1 as int,
            q2 as int,
            r2 as int,
            carry as int,
            f as int,
        );
        assert(xa * xa == xi * xi && ya * ya == yi * yi && wa * wa == wi * wi && ha * ha == hi * hi)
            by (nonlinear_arith)
            requires
                xa == xi || xa == -xi,
                ya == yi || ya == -yi,
                wa == wi || wa == -wi,
                ha == hi || ha == -hi,
        ;
        assert(a * d + c * b == (RECENTER_MS_PER_UNIT * RECENTER_MS_PER_UNIT) * magnitude_num(
            xi,
            yi,
            wi,
            hi,
        )) by (nonlinear_arith)
            requires
                a == 250000 * (xi * xi),
                c == 250000 * (yi * yi),
                b == wi * wi,
                d == hi * hi,
                RECENTER_MS_PER_UNIT == 500,
        ;
        assert(b * d == magnitude_den(wi, hi));
        lemma_root_of_floor(
            f as int,
            s as int,
            (a * d + c * b) as int,
            (b * d) as int,
        );
    }
    s
}

/// The squared displacement of a recenter has a positive denominator.
proof fn lemma_den_positive(width: int, height: int)
    requires
        width != 0,
        height != 0,
    ensures
        magnitude_den(width, height) > 0,
{
    assert(width * width * (height * height) > 0) by (nonlinear_arith)
        requires
            width != 0,
            height != 0,
    ;
}

/// Recenter duration does not decrease with displacement: a recenter whose
/// `pan^2 + tilt^2` is no larger than another's moves no longer.
pub proof fn lemma_duration_monotone(
    x1: int,
    y1: int,
    width1: int,
    height1: int,
    d1: int,
    x2: int,
    y2: int,
    width2: int,
    height2: int,
    d2: int,
)
    requires
        width1 != 0,
        height1 != 0,
        width2 != 0,
        height2 != 0,
        is_recenter_duration(d1, x1, y1, width1, height1),
        is_recenter_duration(d2, x2, y2, width2, height2),
        magnitude_num(x1, y1, width1, height1) * magnitude_den(width2, height2) <= magnitude_num(
            x2,
            y2,
            width2,
            height2,
        ) * magnitude_den(width1, height1),
    ensures
        d1 <= d2,
{
    lemma_den_positive(width1, height1);
    lemma_den_positive(width2, height2);
    let den1 = magnitude_den(width1, height1);
    let den2 = magnitude_den(width2, height2);
    let num1 = magnitude_num(x1, y1, width1, height1);
    let num2 = magnitude_num(x2, y2, width2, height2);
    let k = RECENTER_MS_PER_UNIT * RECENTER_MS_PER_UNIT;
    if d1 > d2 {
        assert(false) by (nonlinear_arith)
            requires
                den1 > 0,
                den2 > 0,
                d2 >= 0,
                d1 >= d2 + 1,
                k > 0,
                d1 * d1 * den1 <= k * num1,
                (d2 + 1) * (d2 + 1) * den2 > k * num2,
                num1 * den2 <= num2 * den1,
        {
            assert((d2 + 1) * (d2 + 1) <= d1 * d1) by (nonlinear_arith)
                requires
                    0 <= d2 + 1 <= d1,
            ;
            assert((d2 + 1) * (d2 + 1) * den1 * den2 <= d1 * d1 * den1 * den2) by (nonlinear_arith)
                requires
                    (d2 + 1) * (d2 + 1) <= d1 * d1,
                    den1 > 0,
                    den2 > 0,
            ;
            assert(d1 * d1 * den1 * den2 <= k * num1 * den2) by (nonlinear_arith)
                requires
                    d1 * d1 * den1 <= k * num1,
                    den2 > 0,
            ;
            assert(k * num1 * den2 <= k * num2 * den1) by (nonlinear_arith)
                requires
                    num1 * den2 <= num2 * den1,
                    k > 0,
            ;
            assert(k * num2 * den1 < (d2 + 1) * (d2 + 1) * den2 * den1) by (nonlinear_arith)
                requires
                    (d2 + 1) * (d2 + 1) * den2 > k * num2,
                    den1 > 0,
            ;
        }
    }
}

/// A recenter on the centre of the picture takes no time.
pub proof fn lemma_duration_zero_at_centre(width: int, height: int, d: int)
    requires
        width != 0,
        height != 0,
        is_recenter_duration(d, 0, 0, width, height),
    ensures
        d == 0,
{
    lemma_den_positive(width, height);
    let den = magnitude_den(width, height);
    assert(magnitude_num(0, 0, width, height) == 0) by (nonlinear_arith);
    if d > 0 {
        assert(d * d * den > 0) by (nonlinear_arith)
            requires
                d > 0,
                den > 0,
        ;
    }
}

/// The exact value `num / den`.
#[derive(Debug, Clone, Copy, PartialEq, Eq, Structural)]
pub struct Ratio {
    pub num: i64,
    pub den: i64,
}

/// How a recenter is carried out on a device model.
#[derive(Debug, Clone, Copy, PartialEq, Eq, Structural)]
pub enum MotionStrategy {
    /// A continuous move, a wait, and a stop.
    Continuous,
    /// A single relative move.
    Relative,
}

/// Which device axes run opposite to the picture's axes.
#[derive(Debug, Clone, Copy, PartialEq, Eq, Structural)]
pub struct AxisCalibration {
    pub invert_pan: bool,
    pub invert_tilt: bool,
}

/// The commands of one recenter.
#[derive(Debug, Clone)]
pub enum RecenterPlan {
    /// Start a continuous move at `velocity`, wait `duration_ms`, then stop.
    Timed { velocity: MotionVector<Ratio>, duration_ms: u64 },
    /// Move once by `translation`.
    Single { translation: MotionVector<Ratio> },
}

/// `value`, negated when `invert` holds.
pub open spec fn oriented(value: Ratio, invert: bool) -> Ratio {
    if invert {
        Ratio { num: (-value.num) as i64, den: value.den }
    } else {
        value
    }
}

/// The pan of a recenter on `(x, y)` in a `width` by `height` picture:
/// `x / width`.
pub open spec fn recenter_pan(x: i32, width: i32) -> Ratio {
    Ratio { num: x as i64, den: width as i64 }
}

/// The tilt of a recenter: `-y / height`, since picture rows grow downward.
pub open spec fn recenter_tilt(y: i32, height: i32) -> Ratio {
    Ratio { num: (-(y as i64)) as i64, den: height as i64 }
}

/// No zoom.
pub open spec fn zero_ratio() -> Ratio {
    Ratio { num: 0, den: 1 }
}

/// Whether `v` carries the given components, oriented by `calibration`.
pub open spec fn carries(v: MotionVector<Ratio>, pan: Ratio, tilt: Ratio, calibration: AxisCalibration) -> bool {
    v.pan == oriented(pan, calibration.invert_pan) && v.tilt == oriented(
        tilt,
        calibration.invert_tilt,
    ) && v.zoom == zero_ratio()
}

fn orient(value: Ratio, invert: bool) -> (r: Ratio)
    requires
        value.num > i64::MIN,
    ensures
        r == oriented(value, invert),
{
    if invert {
        Ratio { num: -value.num, den: value.den }
    } else {
        value
    }
}

/// What planning the recenter on `(x, y)` in a `width` by `height` picture
/// gives: an error for a picture without area, else the plan that `strategy`
/// calls for, carrying the oriented displacement.
pub open spec fn recenter_outcome(
    strategy: MotionStrategy,
    calibration: AxisCalibration,
    x: i32,
    y: i32,
    width: i32,
    height: i32,
    r: Result<RecenterPlan, BindError>,
) -> bool {
    if width == 0 || height == 0 {
        r == Err::<RecenterPlan, BindError>(BindError::ConfigError)
    } else {
        r is Ok && match r->Ok_0 {
            RecenterPlan::Timed { velocity, duration_ms } => {
                &&& strategy == MotionStrategy::Continuous
                &&& carries(velocity, recenter_pan(x, width), recenter_tilt(y, height), calibration)
                &&& velocity.pan_tilt_space is None
                &&& velocity.zoom_space is None
                &&& is_recenter_duration(
                    duration_ms as int,
                    x as int,
                    y as int,
                    width as int,
                    height as int,
                )
            },
            RecenterPlan::Single { translation } => {
                &&& strategy == MotionStrategy::Relative
                &&& carries(translation, recenter_pan(x, width), recenter_tilt(y, height), calibration)
                &&& text_of(translation.pan_tilt_space) == Some(PAN_TILT_TRANSLATION_SPACE@)
                &&& text_of(translation.zoom_space) == Some(ZOOM_TRANSLATION_SPACE@)
            },
        }
    }
}

/// Plans the recenter of the picture on `(x, y)`, relative to its centre, in
/// a `width` by `height` picture. A picture without area is rejected; any
/// other gets a plan.
pub fn plan_recenter(
    strategy: MotionStrategy,
    calibration: AxisCalibration,
    x: i32,
    y: i32,
    width: i32,
    height: i32,
) -> (r: Result<RecenterPlan, BindError>)
    ensures
        recenter_outcome(strategy, calibration, x, y, width, height, r),
{
    if width == 0 || height == 0 {
        return Err(BindError::ConfigError);
    }
    let pan = orient(Ratio { num: x as i64, den: width as i64 }, calibration.invert_pan);
    let tilt = orient(Ratio { num: -(y as i64), den: height as i64 }, calibration.invert_tilt);
    let zoom = Ratio { num: 0, den: 1 };
    match strategy {
        MotionStrategy::Continuous => {
            let duration_ms = recenter_duration_ms(x, y, width, height);
            Ok(RecenterPlan::Timed { velocity: velocity_vector(pan, tilt, zoom), duration_ms })
        },
        MotionStrategy::Relative => {
            Ok(RecenterPlan::Single { translation: translation_vector(pan, tilt, zoom) })
        },
    }
}

/// A recenter on the centre of a picture with area is still planned: a
/// continuous move at zero velocity followed at once by a stop, or a single
/// relative move by zero.
pub proof fn lemma_centre_recenter(
    strategy: MotionStrategy,
    calibration: AxisCalibration,
    width: i32,
    height: i32,
    r: Result<RecenterPlan, BindError>,
)
    requires
        width != 0,
        height != 0,
        recenter_outcome(strategy, calibration, 0, 0, width, height, r),
    ensures
        r is Ok,
        match r->Ok_0 {
            RecenterPlan::Timed { velocity, duration_ms } => velocity.pan.num == 0
                && velocity.tilt.num == 0 && velocity.zoom.num == 0 && duration_ms == 0,
            RecenterPlan::Single { translation } => translation.pan.num == 0
                && translation.tilt.num == 0 && translation.zoom.num == 0,
        },
{
    match r->Ok_0 {
        RecenterPlan::Timed { velocity, duration_ms } => {
            lemma_duration_zero_at_centre(width as int, height as int, duration_ms as int);
        },
        RecenterPlan::Single { .. } => {},
    }
}

} // verus!
