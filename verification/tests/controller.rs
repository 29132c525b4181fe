use pid_controller::pid::PidController;
use pid_controller::rat::Rat;

fn standard_controller() -> PidController {
    PidController::new(Rat::from_int(1), (Rat::from_int(-10), Rat::from_int(10)))
}

#[test]
fn construction_defaults() {
    let c = standard_controller();
    assert!(c.dt().rat_eq(&Rat::from_int(1)));
    assert!(c.kp().rat_eq(&Rat::from_int(0)));
    assert!(c.ki().rat_eq(&Rat::from_int(0)));
    assert!(c.kd().rat_eq(&Rat::from_int(0)));
    assert!(c.clamp_lo().rat_eq(&Rat::from_int(-10)));
    assert!(c.clamp_hi().rat_eq(&Rat::from_int(10)));
    assert!(c.smooth().rat_eq(&Rat::from_int(1)));
    assert!(c.p().rat_eq(&Rat::from_int(0)));
    assert!(c.i().rat_eq(&Rat::from_int(0)));
    assert!(c.d().rat_eq(&Rat::from_int(0)));
    assert!(c.e_prev().rat_eq(&Rat::from_int(0)));
    assert!(c.unclamped());
}

#[test]
fn gain_rejection() {
    let mut c = standard_controller();
    c.set_kp(Rat::from_int(2));
    assert!(c.kp().rat_eq(&Rat::from_int(2)));
    c.set_kp(Rat::from_int(-1));
    assert!(c.kp().rat_eq(&Rat::from_int(2)));
    c.set_ki(Rat::new(-1, 2));
    assert!(c.ki().rat_eq(&Rat::from_int(0)));
    c.set_kd(Rat::new(-7, 3));
    assert!(c.kd().rat_eq(&Rat::from_int(0)));
    c.set_smooth(Rat::new(3, 2));
    assert!(c.smooth().rat_eq(&Rat::from_int(1)));
    c.set_smooth(Rat::new(-1, 2));
    assert!(c.smooth().rat_eq(&Rat::from_int(1)));
    c.set_smooth(Rat::new(1, 2));
    assert!(c.smooth().rat_eq(&Rat::new(1, 2)));
}

#[test]
fn deterministic_scenario() {
    let mut c = standard_controller();
    c.set_kp(Rat::from_int(2));
    c.set_ki(Rat::from_int(1));
    c.set_kd(Rat::from_int(0));
    let u1 = c.step(Rat::from_int(1)).unwrap();
    assert!(c.i().rat_eq(&Rat::from_int(1)));
    assert!(u1.rat_eq(&Rat::from_int(3)));
    assert!(c.unclamped());
    assert!(c.e_prev().rat_eq(&Rat::from_int(1)));
    let u2 = c.step(Rat::from_int(1)).unwrap();
    assert!(c.i().rat_eq(&Rat::from_int(2)));
    assert!(c.d().rat_eq(&Rat::from_int(0)));
    assert!(u2.rat_eq(&Rat::from_int(4)));
}

#[test]
fn saturation_scenario() {
    let mut c = standard_controller();
    c.set_kp(Rat::from_int(20));
    let u1 = c.step(Rat::from_int(1)).unwrap();
    assert!(u1.rat_eq(&Rat::from_int(20)));
    assert!(!c.unclamped());
    let i_before = c.i();
    let _ = c.step(Rat::from_int(1)).unwrap();
    assert!(c.i().rat_eq(&i_before));
}

#[test]
fn anti_windup_resumes_inside_bounds() {
    let mut c = standard_controller();
    c.set_kp(Rat::from_int(20));
    let _ = c.step(Rat::from_int(1)).unwrap();
    assert!(c.i().rat_eq(&Rat::from_int(1)));
    assert!(!c.unclamped());
    // latch closed: integration frozen
    let _ = c.step(Rat::from_int(1)).unwrap();
    assert!(c.i().rat_eq(&Rat::from_int(1)));
    // zero error puts the raw output back inside the bounds
    let u = c.step(Rat::from_int(0)).unwrap();
    assert!(u.rat_eq(&Rat::from_int(0)));
    assert!(c.unclamped());
    assert!(c.i().rat_eq(&Rat::from_int(1)));
    // latch open again: integration resumes
    let _ = c.step(Rat::from_int(1)).unwrap();
    assert!(c.i().rat_eq(&Rat::from_int(2)));
}

#[test]
fn zero_gain_output_is_zero() {
    let mut c = standard_controller();
    let errors = [5i64, -3, 7, 0, 1_000_000];
    for &e in errors.iter() {
        let u = c.step(Rat::from_int(e)).unwrap();
        assert!(u.rat_eq(&Rat::from_int(0)));
        assert!(c.unclamped());
    }
}

#[test]
fn raw_backward_difference_with_smooth_one() {
    // dt = 1/2, first error 3: d = (3 - 0) / (1/2) = 6
    let mut c = PidController::new(Rat::new(1, 2), (Rat::from_int(-10), Rat::from_int(10)));
    let _ = c.step(Rat::from_int(3)).unwrap();
    assert!(c.d().rat_eq(&Rat::from_int(6)));
    // second error 1: d = (1 - 3) / (1/2) = -4
    let _ = c.step(Rat::from_int(1)).unwrap();
    assert!(c.d().rat_eq(&Rat::from_int(-4)));
}

#[test]
fn smooth_zero_freezes_derivative() {
    let mut c = standard_controller();
    c.set_smooth(Rat::from_int(0));
    let errors = [4i64, -2, 9];
    for &e in errors.iter() {
        let _ = c.step(Rat::from_int(e)).unwrap();
        assert!(c.d().rat_eq(&Rat::from_int(0)));
    }
}

#[test]
fn smooth_half_mixes_derivative() {
    // dt = 1, smooth = 1/2, d0 = 0, e = 1: d = (1/2)*1 + (1/2)*0 = 1/2
    let mut c = standard_controller();
    c.set_smooth(Rat::new(1, 2));
    let _ = c.step(Rat::from_int(1)).unwrap();
    assert!(c.d().rat_eq(&Rat::new(1, 2)));
    // same error again: d = (1/2)*0 + (1/2)*(1/2) = 1/4
    let _ = c.step(Rat::from_int(1)).unwrap();
    assert!(c.d().rat_eq(&Rat::new(1, 4)));
}

#[test]
fn p_slot_is_never_written() {
    let mut c = standard_controller();
    c.set_kp(Rat::from_int(2));
    let _ = c.step(Rat::from_int(1)).unwrap();
    let _ = c.step(Rat::from_int(-4)).unwrap();
    assert!(c.p().rat_eq(&Rat::from_int(0)));
}

#[test]
fn out_of_range_step_leaves_state_unchanged() {
    let mut c = standard_controller();
    let _ = c.step(Rat::from_int(5)).unwrap();
    assert!(c.i().rat_eq(&Rat::from_int(5)));
    // a tiny denominator blows the representable range inside the step
    let r = c.step(Rat::new(1, 1 << 40));
    assert!(r.is_none());
    assert!(c.i().rat_eq(&Rat::from_int(5)));
    assert!(c.e_prev().rat_eq(&Rat::from_int(5)));
    assert!(c.d().rat_eq(&Rat::from_int(5)));
    assert!(c.unclamped());
}
