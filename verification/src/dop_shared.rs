//! Shared interface of the solver family: run statistics, the error type,
//! and the capability traits through which the scheduler reaches the
//! caller's time scale, state arithmetic and dynamics.
//!
//! Each executable capability comes with a spec-level model function and an
//! `ensures` tying the call to its model, so the scheduler's contracts can
//! state exactly which value every update computes.

use vstd::prelude::*;

verus! {

/// Counters accumulated over one integration run: the number of derivative
/// evaluations and the number of accepted steps. With a fixed step size no
/// step is ever rejected, so the two advance in lockstep.
#[derive(Clone, Copy, Debug, PartialEq, Eq, Structural)]
pub struct Stats {
    pub num_eval: u32,
    pub accepted_steps: u32,
}

impl Stats {
    /// Fresh statistics: all counters zero.
    pub fn new() -> (r: Stats)
        ensures
            r.num_eval == 0,
            r.accepted_steps == 0,
    {
        Stats { num_eval: 0, accepted_steps: 0 }
    }
}

/// Failure of an integration run. The scheduler validates before any state
/// is mutated, so an error means the run never started.
#[derive(Clone, Copy, Debug, PartialEq, Eq, Structural)]
pub enum IntegrationError {
    /// The step-size and time-range configuration asks for more steps than
    /// the run statistics can count.
    InvalidConfiguration,
}

/// The independent variable (usually time) together with the step sizes
/// taken along it. The scheduler never inspects a value of this type; it
/// only advances it step by step and derives its loop counts from it.
pub trait TimeOps: Sized + Copy {
    /// Model of `plus`: the point one step of size `h` past `self`.
    spec fn spec_plus(self, h: Self) -> Self;

    /// Model of `span_steps`: the whole number of steps of size `h` that
    /// cover the interval from `self` to `end`.
    spec fn spec_span_steps(self, end: Self, h: Self) -> usize;

    /// Model of `ratio_steps`: the whole number of steps of size `h` that
    /// make up one step of size `self`.
    spec fn spec_ratio_steps(self, h: Self) -> usize;

    /// The point one step of size `h` past `self`.
    fn plus(self, h: Self) -> (r: Self)
        ensures
            r == self.spec_plus(h),
    ;

    /// How many steps of size `h` cover the interval from `self` to `end`:
    /// the ratio `(end - self) / h` rounded up to a whole count.
    fn span_steps(self, end: Self, h: Self) -> (r: usize)
        ensures
            r == self.spec_span_steps(end, h),
    ;

    /// How many steps of size `h` make up one step of size `self`:
    /// the ratio `self / h` rounded up to a whole count.
    fn ratio_steps(self, h: Self) -> (r: usize)
        ensures
            r == self.spec_ratio_steps(h),
    ;
}

/// The dependent variable: a state vector under the vector-space operations
/// the Euler update needs. The scheduler treats states as opaque values and
/// combines them only through these operations.
pub trait StateOps<T>: Sized {
    /// Model of `plus`: the componentwise sum `self + delta`.
    spec fn spec_plus(&self, delta: &Self) -> Self;

    /// Model of `scaled`: the state scaled by a step size, `self * h`.
    spec fn spec_scaled(&self, h: T) -> Self;

    /// The componentwise sum `self + delta`.
    fn plus(&self, delta: &Self) -> (r: Self)
        ensures
            r == self.spec_plus(delta),
    ;

    /// The state scaled by a step size: `self * h`.
    fn scaled(&self, h: T) -> (r: Self)
        ensures
            r == self.spec_scaled(h),
    ;

    /// An exact copy of the state, recorded into the output trace.
    fn dup(&self) -> (r: Self)
        ensures
            r == *self,
    ;
}

/// The dynamics supplied by the caller: the derivative of the continuous
/// dynamics, the instantaneous event update, and a notification hook fired
/// at the report rate. All three are total over the domain traversed.
pub trait System<T, Y> {
    /// Model of `ode`: the derivative at `(x, y)`.
    spec fn spec_ode(&self, x: T, y: &Y) -> Y;

    /// Model of `event`: the instantaneous delta at `(x, y)`.
    spec fn spec_event(&self, x: T, y: &Y) -> Y;

    /// The derivative `dy/dx = f(x, y)` of the continuous dynamics.
    fn ode(&self, x: T, y: &Y) -> (r: Y)
        ensures
            r == self.spec_ode(x, y),
    ;

    /// An instantaneous state delta applied at the observation rate;
    /// simulated time does not advance when it is applied.
    fn event(&self, x: T, y: &Y) -> (r: Y)
        ensures
            r == self.spec_event(x, y),
    ;

    /// Notification hook fired once before stepping begins and once per
    /// report step; purely an observer, it returns nothing.
    fn observer(&self, x: T, y: &Y);
}

} // verus!
