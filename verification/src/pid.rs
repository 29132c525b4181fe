//! The discrete-time PID controller.
//!
//! [`PidController`] holds the tunable gains, the fixed sampling interval,
//! the anti-windup clamp bounds, and the recurrence state.  One call of
//! [`PidController::step`] consumes one error sample and returns the raw
//! (unclamped) control output.  The whole update rule is captured by the
//! spec function [`next_view`] over the controller's view, and `step`'s
//! contract states that the new state and the returned output are exactly
//! the ones that rule gives.

use vstd::prelude::*;

use crate::rat::{
    Frac, Rat, frac_add, frac_div, frac_eq, frac_in_bounds, frac_lt, frac_le, frac_mul, frac_one,
    frac_sub, frac_zero,
};

verus! {

/// The mathematical state of a controller: every stored field as an exact
/// rational value.
pub struct PidView {
    /// Sampling interval; positive.
    pub dt: Frac,
    /// Proportional gain; non-negative.
    pub kp: Frac,
    /// Integral gain; non-negative.
    pub ki: Frac,
    /// Derivative gain; non-negative.
    pub kd: Frac,
    /// Lower clamp bound of the anti-windup gate.
    pub clamp_lo: Frac,
    /// Upper clamp bound of the anti-windup gate.
    pub clamp_hi: Frac,
    /// Derivative smoothing coefficient, in `[0, 1]`; `1` means no smoothing.
    pub smooth: Frac,
    /// Diagnostic slot for a proportional term; the update rule never writes
    /// it, so it keeps its initial value.
    pub p: Frac,
    /// Accumulated integral term.
    pub i: Frac,
    /// Smoothed derivative term.
    pub d: Frac,
    /// Error sample of the previous step; zero before the first step.
    pub e_prev: Frac,
    /// Whether the raw output of the previous step fell strictly inside
    /// `(clamp_lo, clamp_hi)`; gates integration on the next step.
    pub unclamped: bool,
}

/// Well-formed controller state: every field representable, `dt > 0`,
/// `clamp_lo < clamp_hi`, non-negative gains, `smooth` in `[0, 1]`.
pub open spec fn view_wf(v: PidView) -> bool {
    &&& frac_in_bounds(v.dt)
    &&& frac_in_bounds(v.kp)
    &&& frac_in_bounds(v.ki)
    &&& frac_in_bounds(v.kd)
    &&& frac_in_bounds(v.clamp_lo)
    &&& frac_in_bounds(v.clamp_hi)
    &&& frac_in_bounds(v.smooth)
    &&& frac_in_bounds(v.p)
    &&& frac_in_bounds(v.i)
    &&& frac_in_bounds(v.d)
    &&& frac_in_bounds(v.e_prev)
    &&& v.dt.num > 0
    &&& frac_lt(v.clamp_lo, v.clamp_hi)
    &&& frac_le(frac_zero(), v.kp)
    &&& frac_le(frac_zero(), v.ki)
    &&& frac_le(frac_zero(), v.kd)
    &&& frac_le(frac_zero(), v.smooth)
    &&& frac_le(v.smooth, frac_one())
}

/// Whether an output `u` lies strictly inside the clamp interval of `v`.
pub open spec fn inside_bounds(v: PidView, u: Frac) -> bool {
    frac_lt(v.clamp_lo, u) && frac_lt(u, v.clamp_hi)
}

/// The integral term after one step on error `e`: integration happens only
/// while the previous output was unclamped (anti-windup gate).
pub open spec fn next_i(v: PidView, e: Frac) -> Frac {
    if v.unclamped {
        frac_add(v.i, frac_mul(v.dt, e))
    } else {
        v.i
    }
}

/// The derivative term after one step on error `e`:
/// `smooth * (e - e_prev) / dt + (1 - smooth) * d`.
pub open spec fn next_d(v: PidView, e: Frac) -> Frac {
    frac_add(
        frac_mul(v.smooth, frac_div(frac_sub(e, v.e_prev), v.dt)),
        frac_mul(frac_sub(frac_one(), v.smooth), v.d),
    )
}

/// The raw output of one step on error `e`:
/// `kp * e + ki * next_i + kd * next_d`.
pub open spec fn raw_output(v: PidView, e: Frac) -> Frac {
    frac_add(
        frac_add(frac_mul(v.kp, e), frac_mul(v.ki, next_i(v, e))),
        frac_mul(v.kd, next_d(v, e)),
    )
}

/// The whole state after one step on error `e`: the new integral and
/// derivative terms, the error latched as `e_prev`, and the anti-windup
/// latch recording whether the raw output stayed strictly inside the clamp
/// interval.  Gains, interval, bounds and the `p` slot are unchanged.
pub open spec fn next_view(v: PidView, e: Frac) -> PidView {
    PidView {
        i: next_i(v, e),
        d: next_d(v, e),
        e_prev: e,
        unclamped: inside_bounds(v, raw_output(v, e)),
        ..v
    }
}

/// Whether every intermediate fraction of one step on error `e` stays
/// within the representable range, so that `step` can return the exact
/// result.
pub open spec fn step_fits(v: PidView, e: Frac) -> bool {
    let de = frac_mul(v.dt, e);
    let diff = frac_sub(e, v.e_prev);
    let rawd = frac_div(diff, v.dt);
    let t1 = frac_mul(v.smooth, rawd);
    let t2 = frac_sub(frac_one(), v.smooth);
    let t3 = frac_mul(t2, v.d);
    let pa = frac_mul(v.kp, e);
    let pb = frac_mul(v.ki, next_i(v, e));
    &&& (v.unclamped ==> frac_in_bounds(de) && frac_in_bounds(frac_add(v.i, de)))
    &&& frac_in_bounds(diff)
    &&& frac_in_bounds(rawd)
    &&& frac_in_bounds(t1)
    &&& frac_in_bounds(t2)
    &&& frac_in_bounds(t3)
    &&& frac_in_bounds(next_d(v, e))
    &&& frac_in_bounds(pa)
    &&& frac_in_bounds(pb)
    &&& frac_in_bounds(frac_add(pa, pb))
    &&& frac_in_bounds(frac_mul(v.kd, next_d(v, e)))
    &&& frac_in_bounds(raw_output(v, e))
}

proof fn lemma_pos_mul(a: int, b: int) by (nonlinear_arith)
    requires
        1 <= a,
        1 <= b,
    ensures
        1 <= a * b,
{
}

/// The denominators that one step builds are positive, as every operation
/// multiplies positive denominators (division folds the positive sign of
/// `dt` into the denominator).
proof fn lemma_step_dens_pos(v: PidView, e: Frac)
    requires
        view_wf(v),
        1 <= e.den,
    ensures
        1 <= next_i(v, e).den,
        1 <= next_d(v, e).den,
        1 <= raw_output(v, e).den,
{
    let de: Frac = frac_mul(v.dt, e);
    lemma_pos_mul(v.dt.den, e.den);
    if v.unclamped {
        lemma_pos_mul(v.i.den, de.den);
    }
    let diff: Frac = frac_sub(e, v.e_prev);
    lemma_pos_mul(e.den, v.e_prev.den);
    let rd: Frac = frac_div(diff, v.dt);
    lemma_pos_mul(diff.den, v.dt.num);
    let t1: Frac = frac_mul(v.smooth, rd);
    lemma_pos_mul(v.smooth.den, rd.den);
    let t2: Frac = frac_sub(frac_one(), v.smooth);
    let t3: Frac = frac_mul(t2, v.d);
    lemma_pos_mul(t2.den, v.d.den);
    let nd: Frac = next_d(v, e);
    lemma_pos_mul(t1.den, t3.den);
    let i1: Frac = next_i(v, e);
    let pa: Frac = frac_mul(v.kp, e);
    lemma_pos_mul(v.kp.den, e.den);
    let pb: Frac = frac_mul(v.ki, i1);
    lemma_pos_mul(v.ki.den, i1.den);
    let pab: Frac = frac_add(pa, pb);
    lemma_pos_mul(pa.den, pb.den);
    let pc: Frac = frac_mul(v.kd, nd);
    lemma_pos_mul(v.kd.den, nd.den);
    lemma_pos_mul(pab.den, pc.den);
}

/// Anti-windup gating.  After a step whose raw output leaves the open clamp
/// interval, the latch closes and the following step leaves the integral
/// term exactly unchanged; after a step whose raw output stays inside, the
/// latch stays open and the following step accumulates `dt * e` onto the
/// integral term.
pub proof fn lemma_anti_windup(v: PidView, e1: Frac, e2: Frac)
    requires
        view_wf(v),
    ensures
        !inside_bounds(v, raw_output(v, e1)) ==> next_i(next_view(v, e1), e2) == next_view(
            v,
            e1,
        ).i,
        inside_bounds(v, raw_output(v, e1)) ==> next_i(next_view(v, e1), e2) == frac_add(
            next_view(v, e1).i,
            frac_mul(v.dt, e2),
        ),
{
}

/// Smoothing bounds.  With `smooth` equal to one, the derivative term after
/// a step is exactly the backward difference `(e - e_prev) / dt`.  With
/// `smooth` equal to zero, a step keeps the derivative term's value; in
/// particular a zero derivative term stays zero, whatever the errors.
pub proof fn lemma_smoothing_bounds(v: PidView, e: Frac)
    requires
        view_wf(v),
    ensures
        frac_eq(v.smooth, frac_one()) ==> frac_eq(
            next_d(v, e),
            frac_div(frac_sub(e, v.e_prev), v.dt),
        ),
        frac_eq(v.smooth, frac_zero()) ==> frac_eq(next_d(v, e), v.d),
        frac_eq(v.smooth, frac_zero()) && frac_eq(v.d, frac_zero()) ==> frac_eq(
            next_d(v, e),
            frac_zero(),
        ),
{
    let sn: int = v.smooth.num;
    let sd: int = v.smooth.den;
    let dn: int = v.d.num;
    let dd: int = v.d.den;
    let rd: Frac = frac_div(frac_sub(e, v.e_prev), v.dt);
    let rn: int = rd.num;
    let rdd: int = rd.den;
    let nd: Frac = next_d(v, e);
    assert(nd.num == (sn * rn) * (sd * dd) + ((sd - sn) * dn) * (sd * rdd));
    assert(nd.den == (sd * rdd) * (sd * dd));
    if frac_eq(v.smooth, frac_one()) {
        assert(sn == sd);
        assert(((sn * rn) * (sd * dd) + ((sd - sn) * dn) * (sd * rdd)) * rdd == rn * ((sd * rdd) * (
        sd * dd))) by (nonlinear_arith)
            requires
                sn == sd,
        ;
        assert(frac_eq(nd, rd));
    }
    if frac_eq(v.smooth, frac_zero()) {
        assert(sn == 0);
        assert(((sn * rn) * (sd * dd) + ((sd - sn) * dn) * (sd * rdd)) * dd == dn * ((sd * rdd) * (
        sd * dd))) by (nonlinear_arith)
            requires
                sn == 0,
        ;
        assert(frac_eq(nd, v.d));
        if frac_eq(v.d, frac_zero()) {
            assert(dn == 0);
            assert((sn * rn) * (sd * dd) + ((sd - sn) * dn) * (sd * rdd) == 0) by (nonlinear_arith)
                requires
                    sn == 0,
                    dn == 0,
            ;
            assert(frac_eq(nd, frac_zero()));
        }
    }
}

/// Zero-gain idempotence.  With all three gains equal to zero and a clamp
/// interval that strictly contains zero, the raw output of a step is
/// exactly zero for every error sample, and the anti-windup latch stays
/// open.
pub proof fn lemma_zero_gain(v: PidView, e: Frac)
    requires
        view_wf(v),
        frac_in_bounds(e),
        frac_eq(v.kp, frac_zero()),
        frac_eq(v.ki, frac_zero()),
        frac_eq(v.kd, frac_zero()),
        frac_lt(v.clamp_lo, frac_zero()),
        frac_lt(frac_zero(), v.clamp_hi),
    ensures
        frac_eq(raw_output(v, e), frac_zero()),
        next_view(v, e).unclamped,
{
    lemma_step_dens_pos(v, e);
    let i1: Frac = next_i(v, e);
    let nd: Frac = next_d(v, e);
    let pa: Frac = frac_mul(v.kp, e);
    let pb: Frac = frac_mul(v.ki, i1);
    let pab: Frac = frac_add(pa, pb);
    let pc: Frac = frac_mul(v.kd, nd);
    let u: Frac = raw_output(v, e);
    assert(v.kp.num == 0);
    assert(v.ki.num == 0);
    assert(v.kd.num == 0);
    assert(v.kp.num * e.num == 0) by (nonlinear_arith)
        requires
            v.kp.num == 0,
    ;
    assert(v.ki.num * i1.num == 0) by (nonlinear_arith)
        requires
            v.ki.num == 0,
    ;
    assert(v.kd.num * nd.num == 0) by (nonlinear_arith)
        requires
            v.kd.num == 0,
    ;
    assert(pa.num * pb.den + pb.num * pa.den == 0) by (nonlinear_arith)
        requires
            pa.num == 0,
            pb.num == 0,
    ;
    assert(pab.num * pc.den + pc.num * pab.den == 0) by (nonlinear_arith)
        requires
            pab.num == 0,
            pc.num == 0,
    ;
    assert(u.num * 1 == 0 * u.den) by (nonlinear_arith)
        requires
            u.num == 0,
    ;
    assert(frac_eq(u, frac_zero()));
    assert(v.clamp_lo.num < 0);
    assert(0 < v.clamp_hi.num);
    assert(v.clamp_lo.num * u.den <= -1) by (nonlinear_arith)
        requires
            v.clamp_lo.num <= -1,
            1 <= u.den,
    ;
    assert(u.num * v.clamp_lo.den == 0) by (nonlinear_arith)
        requires
            u.num == 0,
    ;
    assert(1 <= v.clamp_hi.num * u.den) by (nonlinear_arith)
        requires
            1 <= v.clamp_hi.num,
            1 <= u.den,
    ;
    assert(u.num * v.clamp_hi.den == 0) by (nonlinear_arith)
        requires
            u.num == 0,
    ;
    assert(frac_lt(v.clamp_lo, u));
    assert(frac_lt(u, v.clamp_hi));
}

/// A discrete-time PID controller over exact rationals.
#[derive(Clone, Copy, Debug)]
pub struct PidController {
    dt: Rat,
    kp: Rat,
    ki: Rat,
    kd: Rat,
    clamp_lo: Rat,
    clamp_hi: Rat,
    smooth: Rat,
    p: Rat,
    i: Rat,
    d: Rat,
    e_prev: Rat,
    unclamped: bool,
}

impl View for PidController {
    type V = PidView;

    closed spec fn view(&self) -> PidView {
        PidView {
            dt: self.dt@,
            kp: self.kp@,
            ki: self.ki@,
            kd: self.kd@,
            clamp_lo: self.clamp_lo@,
            clamp_hi: self.clamp_hi@,
            smooth: self.smooth@,
            p: self.p@,
            i: self.i@,
            d: self.d@,
            e_prev: self.e_prev@,
            unclamped: self.unclamped,
        }
    }
}

impl PidController {
    /// The stored state is well formed.
    pub open spec fn wf(self) -> bool {
        view_wf(self@)
    }

    /// A controller with sampling interval `dt` and anti-windup clamp
    /// interval `clamp`.  All gains start at zero, smoothing at one (off),
    /// the recurrence state at zero, and the anti-windup latch open.
    pub fn new(dt: Rat, clamp: (Rat, Rat)) -> (r: PidController)
        requires
            dt.wf(),
            clamp.0.wf(),
            clamp.1.wf(),
            dt@.num > 0,
            frac_lt(clamp.0@, clamp.1@),
        ensures
            r.wf(),
            r@ == (PidView {
                dt: dt@,
                kp: frac_zero(),
                ki: frac_zero(),
                kd: frac_zero(),
                clamp_lo: clamp.0@,
                clamp_hi: clamp.1@,
                smooth: frac_one(),
                p: frac_zero(),
                i: frac_zero(),
                d: frac_zero(),
                e_prev: frac_zero(),
                unclamped: true,
            }),
    {
        let zero = Rat::from_int(0);
        PidController {
            dt,
            kp: zero,
            ki: zero,
            kd: zero,
            clamp_lo: clamp.0,
            clamp_hi: clamp.1,
            smooth: Rat::from_int(1),
            p: zero,
            i: zero,
            d: zero,
            e_prev: zero,
            unclamped: true,
        }
    }

    /// One step of the recurrence on error sample `e`.
    ///
    /// Returns the raw output `kp*e + ki*i + kd*d` without clamping it;
    /// the clamp interval only decides the anti-windup latch for the next
    /// step.  Returns `None`, leaving the state untouched, exactly when an
    /// intermediate value of this step leaves the representable range.
    pub fn step(&mut self, e: Rat) -> (r: Option<Rat>)
        requires
            old(self).wf(),
            e.wf(),
        ensures
            final(self).wf(),
            r is Some <==> step_fits(old(self)@, e@),
            r matches Some(u) ==> u.wf() && u@ == raw_output(old(self)@, e@) && final(self)@
                == next_view(old(self)@, e@),
            r is None ==> final(self)@ == old(self)@,
    {
        let i_next: Rat;
        if self.unclamped {
            let de: Rat = match self.dt.checked_mul(&e) {
                Some(x) => x,
                None => { return None; },
            };
            i_next = match self.i.checked_add(&de) {
                Some(x) => x,
                None => { return None; },
            };
        } else {
            i_next = self.i;
        }
        let diff: Rat = match e.checked_sub(&self.e_prev) {
            Some(x) => x,
            None => { return None; },
        };
        let rawd: Rat = match diff.checked_div(&self.dt) {
            Some(x) => x,
            None => { return None; },
        };
        let t1: Rat = match self.smooth.checked_mul(&rawd) {
            Some(x) => x,
            None => { return None; },
        };
        let one = Rat::from_int(1);
        let t2: Rat = match one.checked_sub(&self.smooth) {
            Some(x) => x,
            None => { return None; },
        };
        let t3: Rat = match t2.checked_mul(&self.d) {
            Some(x) => x,
            None => { return None; },
        };
        let d_next: Rat = match t1.checked_add(&t3) {
            Some(x) => x,
            None => { return None; },
        };
        let pa: Rat = match self.kp.checked_mul(&e) {
            Some(x) => x,
            None => { return None; },
        };
        let pb: Rat = match self.ki.checked_mul(&i_next) {
            Some(x) => x,
            None => { return None; },
        };
        let pab: Rat = match pa.checked_add(&pb) {
            Some(x) => x,
            None => { return None; },
        };
        let pc: Rat = match self.kd.checked_mul(&d_next) {
            Some(x) => x,
            None => { return None; },
        };
        let u: Rat = match pab.checked_add(&pc) {
            Some(x) => x,
            None => { return None; },
        };
        let inside: bool = self.clamp_lo.lt(&u) && u.lt(&self.clamp_hi);
        self.i = i_next;
        self.d = d_next;
        self.e_prev = e;
        self.unclamped = inside;
        Some(u)
    }

    /// Set the proportional gain; a negative argument is silently ignored
    /// and the prior value kept.
    pub fn set_kp(&mut self, kp: Rat)
        requires
            old(self).wf(),
            kp.wf(),
        ensures
            final(self).wf(),
            frac_le(frac_zero(), kp@) ==> final(self)@ == (PidView { kp: kp@, ..old(self)@ }),
            !frac_le(frac_zero(), kp@) ==> final(self)@ == old(self)@,
    {
        let zero = Rat::from_int(0);
        if zero.le(&kp) {
            self.kp = kp;
        }
    }

    /// Set the integral gain; a negative argument is silently ignored.
    pub fn set_ki(&mut self, ki: Rat)
        requires
            old(self).wf(),
            ki.wf(),
        ensures
            final(self).wf(),
            frac_le(frac_zero(), ki@) ==> final(self)@ == (PidView { ki: ki@, ..old(self)@ }),
            !frac_le(frac_zero(), ki@) ==> final(self)@ == old(self)@,
    {
        let zero = Rat::from_int(0);
        if zero.le(&ki) {
            self.ki = ki;
        }
    }

    /// Set the derivative gain; a negative argument is silently ignored.
    pub fn set_kd(&mut self, kd: Rat)
        requires
            old(self).wf(),
            kd.wf(),
        ensures
            final(self).wf(),
            frac_le(frac_zero(), kd@) ==> final(self)@ == (PidView { kd: kd@, ..old(self)@ }),
            !frac_le(frac_zero(), kd@) ==> final(self)@ == old(self)@,
    {
        let zero = Rat::from_int(0);
        if zero.le(&kd) {
            self.kd = kd;
        }
    }

    /// Set the derivative smoothing coefficient; an argument outside
    /// `[0, 1]` is silently ignored.
    pub fn set_smooth(&mut self, smooth: Rat)
        requires
            old(self).wf(),
            smooth.wf(),
        ensures
            final(self).wf(),
            frac_le(frac_zero(), smooth@) && frac_le(smooth@, frac_one()) ==> final(self)@ == (
            PidView { smooth: smooth@, ..old(self)@ }),
            !(frac_le(frac_zero(), smooth@) && frac_le(smooth@, frac_one())) ==> final(self)@
                == old(self)@,
    {
        let zero = Rat::from_int(0);
        let one = Rat::from_int(1);
        if zero.le(&smooth) && smooth.le(&one) {
            self.smooth = smooth;
        }
    }

    /// The sampling interval.
    pub fn dt(&self) -> (r: Rat)
        ensures
            r@ == self@.dt,
    {
        self.dt
    }

    /// The proportional gain.
    pub fn kp(&self) -> (r: Rat)
        ensures
            r@ == self@.kp,
    {
        self.kp
    }

    /// The integral gain.
    pub fn ki(&self) -> (r: Rat)
        ensures
            r@ == self@.ki,
    {
        self.ki
    }

    /// The derivative gain.
    pub fn kd(&self) -> (r: Rat)
        ensures
            r@ == self@.kd,
    {
        self.kd
    }

    /// The lower clamp bound.
    pub fn clamp_lo(&self) -> (r: Rat)
        ensures
            r@ == self@.clamp_lo,
    {
        self.clamp_lo
    }

    /// The upper clamp bound.
    pub fn clamp_hi(&self) -> (r: Rat)
        ensures
            r@ == self@.clamp_hi,
    {
        self.clamp_hi
    }

    /// The smoothing coefficient.
    pub fn smooth(&self) -> (r: Rat)
        ensures
            r@ == self@.smooth,
    {
        self.smooth
    }

    /// The proportional diagnostic slot.  The update rule never writes it,
    /// so it keeps the zero it was constructed with.
    pub fn p(&self) -> (r: Rat)
        ensures
            r@ == self@.p,
    {
        self.p
    }

    /// The accumulated integral term.
    pub fn i(&self) -> (r: Rat)
        ensures
            r@ == self@.i,
    {
        self.i
    }

    /// The smoothed derivative term.
    pub fn d(&self) -> (r: Rat)
        ensures
            r@ == self@.d,
    {
        self.d
    }

    /// Whether the raw output of the most recent step fell strictly inside
    /// the clamp interval.
    pub fn unclamped(&self) -> (r: bool)
        ensures
            r == self@.unclamped,
    {
        self.unclamped
    }

    /// The error sample of the most recent step.
    pub fn e_prev(&self) -> (r: Rat)
        ensures
            r@ == self@.e_prev,
    {
        self.e_prev
    }
}

} // verus!
