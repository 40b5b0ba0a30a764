use onvif_ptz::binding::BindError;
use onvif_ptz::motion::{
    continuous_move_request, plan_recenter, recenter_duration_ms, relative_move_request,
    stop_request, translation_vector, velocity_vector, AxisCalibration, MotionStrategy, Ratio,
    RecenterPlan, CONTINUOUS_TIMEOUT_SECONDS, PAN_TILT_TRANSLATION_SPACE, ZOOM_TRANSLATION_SPACE,
};

const DEVICE_AXES: AxisCalibration = AxisCalibration { invert_pan: false, invert_tilt: true };

#[test]
fn recenter_duration_of_diagonal_point() {
    // 500 * sqrt(0.5) = 353.55..., rounded down
    assert_eq!(recenter_duration_ms(50, -50, 100, 100), 353);
}

#[test]
fn recenter_duration_at_centre_is_zero() {
    assert_eq!(recenter_duration_ms(0, 0, 640, 480), 0);
}

#[test]
fn recenter_duration_exact_values() {
    assert_eq!(recenter_duration_ms(100, 0, 100, 100), 500);
    assert_eq!(recenter_duration_ms(30, 40, 100, 100), 250);
    assert_eq!(recenter_duration_ms(-320, 0, 640, 480), 250);
    assert_eq!(recenter_duration_ms(1, 1, 3, 3), 235);
}

#[test]
fn recenter_duration_grows_with_displacement() {
    let mut last: u64 = 0;
    for x in 0..=100 {
        let d = recenter_duration_ms(x, x / 2, 100, 100);
        assert!(d >= last);
        last = d;
    }
}

#[test]
fn recenter_duration_at_extremes() {
    let d = recenter_duration_ms(i32::MIN, i32::MIN, 1, 1);
    let expected = 500.0 * ((2.0f64).sqrt() * 2147483648.0);
    assert!((d as f64 - expected).abs() < 2.0);
    assert_eq!(recenter_duration_ms(i32::MAX, 0, i32::MAX, i32::MIN), 500);
}

#[test]
fn continuous_recenter_plan() {
    let plan =
        plan_recenter(MotionStrategy::Continuous, DEVICE_AXES, 50, -50, 100, 100).unwrap();
    match plan {
        RecenterPlan::Timed { velocity, duration_ms } => {
            assert_eq!(velocity.pan, Ratio { num: 50, den: 100 });
            assert_eq!(velocity.tilt, Ratio { num: -50, den: 100 });
            assert_eq!(velocity.zoom, Ratio { num: 0, den: 1 });
            assert_eq!(velocity.pan_tilt_space, None);
            assert_eq!(velocity.zoom_space, None);
            assert_eq!(duration_ms, 353);
        }
        RecenterPlan::Single { .. } => panic!("expected a timed plan"),
    }
}

#[test]
fn relative_recenter_plan() {
    let plan = plan_recenter(
        MotionStrategy::Relative,
        AxisCalibration { invert_pan: false, invert_tilt: false },
        50,
        -50,
        100,
        100,
    )
    .unwrap();
    match plan {
        RecenterPlan::Single { translation } => {
            assert_eq!(translation.pan, Ratio { num: 50, den: 100 });
            assert_eq!(translation.tilt, Ratio { num: 50, den: 100 });
            assert_eq!(translation.pan_tilt_space.as_deref(), Some(PAN_TILT_TRANSLATION_SPACE));
            assert_eq!(translation.zoom_space.as_deref(), Some(ZOOM_TRANSLATION_SPACE));
        }
        RecenterPlan::Timed { .. } => panic!("expected a single move"),
    }
}

#[test]
fn recenter_on_empty_picture_is_config_error() {
    let r = plan_recenter(MotionStrategy::Continuous, DEVICE_AXES, 1, 1, 0, 100);
    assert_eq!(r.unwrap_err(), BindError::ConfigError);
    let r = plan_recenter(MotionStrategy::Relative, DEVICE_AXES, 1, 1, 100, 0);
    assert_eq!(r.unwrap_err(), BindError::ConfigError);
}

#[test]
fn velocity_carries_no_space() {
    let v = velocity_vector(0.5f64, -0.25, 0.0);
    assert_eq!((v.pan, v.tilt, v.zoom), (0.5, -0.25, 0.0));
    assert!(v.pan_tilt_space.is_none() && v.zoom_space.is_none());
}

#[test]
fn translation_carries_both_spaces() {
    let v = translation_vector(0.5f64, 0.0, 0.1);
    assert_eq!(v.pan_tilt_space.as_deref(), Some("relative_pan_tilt_translation_space"));
    assert_eq!(v.zoom_space.as_deref(), Some("relative_zoom_translation_space"));
}

#[test]
fn continuous_move_has_safety_timeout() {
    let m = continuous_move_request("tok".to_string(), -0.5f64, 0.0, 0.0);
    assert_eq!(m.profile_token, "tok");
    assert_eq!(m.timeout_seconds, CONTINUOUS_TIMEOUT_SECONDS);
    assert_eq!(m.timeout_seconds, 5);
    assert_eq!(m.velocity.pan, -0.5);
    assert!(m.velocity.pan_tilt_space.is_none());
}

#[test]
fn relative_move_has_default_speed() {
    let m = relative_move_request("tok".to_string(), 0.5f64, 0.0, 0.0);
    assert!(m.speed.is_none());
    assert_eq!(m.translation.pan, 0.5);
    assert!(m.translation.pan_tilt_space.is_some() && m.translation.zoom_space.is_some());
}

#[test]
fn stop_halts_both_axes() {
    let s = stop_request("tok".to_string());
    assert_eq!(s.profile_token, "tok");
    assert!(s.pan_tilt && s.zoom);
}

#[test]
fn centre_recenter_is_a_still_move_then_stop() {
    let plan = plan_recenter(MotionStrategy::Continuous, DEVICE_AXES, 0, 0, 640, 480).unwrap();
    match plan {
        RecenterPlan::Timed { velocity, duration_ms } => {
            assert_eq!(velocity.pan.num, 0);
            assert_eq!(velocity.tilt.num, 0);
            assert_eq!(velocity.zoom.num, 0);
            assert_eq!(duration_ms, 0);
        }
        RecenterPlan::Single { .. } => panic!("expected a timed plan"),
    }
}
