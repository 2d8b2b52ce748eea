//! Runs of the multi-rate Euler scheduler over nalgebra state vectors.

use nalgebra::{DVector, SVector, Vector2};
use ode_solvers::{Euler, StateOps, System, TimeOps};

#[derive(Clone, Copy, Debug, PartialEq)]
struct Time(f64);

// The spec_* items are the trait's erased model functions; their bodies
// mirror the executable operations and are never called at run time.
impl TimeOps for Time {
    fn spec_plus(self, h: Self) -> Self {
        Time(self.0 + h.0)
    }

    fn spec_span_steps(self, end: Self, h: Self) -> usize {
        ((end.0 - self.0) / h.0).ceil() as usize
    }

    fn spec_ratio_steps(self, h: Self) -> usize {
        (self.0 / h.0).ceil() as usize
    }

    fn plus(self, h: Self) -> Self {
        Time(self.0 + h.0)
    }

    fn span_steps(self, end: Self, h: Self) -> usize {
        ((end.0 - self.0) / h.0).ceil() as usize
    }

    fn ratio_steps(self, h: Self) -> usize {
        (self.0 / h.0).ceil() as usize
    }
}

#[derive(Clone, Copy, Debug, PartialEq)]
struct State2(SVector<f64, 2>);

impl StateOps<Time> for State2 {
    fn spec_plus(&self, delta: &Self) -> Self {
        State2(self.0 + delta.0)
    }

    fn spec_scaled(&self, h: Time) -> Self {
        State2(self.0 * h.0)
    }

    fn plus(&self, delta: &Self) -> Self {
        State2(self.0 + delta.0)
    }

    fn scaled(&self, h: Time) -> Self {
        State2(self.0 * h.0)
    }

    fn dup(&self) -> Self {
        *self
    }
}

#[derive(Clone, Debug, PartialEq)]
struct StateDyn(DVector<f64>);

impl StateOps<Time> for StateDyn {
    fn spec_plus(&self, delta: &Self) -> Self {
        StateDyn(&self.0 + &delta.0)
    }

    fn spec_scaled(&self, h: Time) -> Self {
        StateDyn(&self.0 * h.0)
    }

    fn plus(&self, delta: &Self) -> Self {
        StateDyn(&self.0 + &delta.0)
    }

    fn scaled(&self, h: Time) -> Self {
        StateDyn(&self.0 * h.0)
    }

    fn dup(&self) -> Self {
        self.clone()
    }
}

struct PlaneSys {
    slope: Vector2<f64>,
    kick: Vector2<f64>,
}

impl System<Time, State2> for PlaneSys {
    fn spec_ode(&self, _x: Time, _y: &State2) -> State2 {
        State2(self.slope)
    }

    fn spec_event(&self, _x: Time, _y: &State2) -> State2 {
        State2(self.kick)
    }

    fn ode(&self, _x: Time, _y: &State2) -> State2 {
        State2(self.slope)
    }

    fn event(&self, _x: Time, _y: &State2) -> State2 {
        State2(self.kick)
    }

    fn observer(&self, _x: Time, _y: &State2) {}
}

struct DynSys;

impl System<Time, StateDyn> for DynSys {
    fn spec_ode(&self, _x: Time, y: &StateDyn) -> StateDyn {
        StateDyn(DVector::from_element(y.0.len(), 2.0))
    }

    fn spec_event(&self, _x: Time, y: &StateDyn) -> StateDyn {
        StateDyn(DVector::zeros(y.0.len()))
    }

    fn ode(&self, _x: Time, y: &StateDyn) -> StateDyn {
        StateDyn(DVector::from_element(y.0.len(), 2.0))
    }

    fn event(&self, _x: Time, y: &StateDyn) -> StateDyn {
        StateDyn(DVector::zeros(y.0.len()))
    }

    fn observer(&self, _x: Time, _y: &StateDyn) {}
}

#[test]
fn fixed_dimension_run() {
    let sys = PlaneSys { slope: Vector2::new(1.0, 2.0), kick: Vector2::zeros() };
    let mut e = Euler::new(
        sys,
        Time(0.0),
        State2(Vector2::zeros()),
        Time(1.0),
        vec![Time(0.5), Time(0.5), Time(1.0)],
    );
    let stats = e.integrate().unwrap();
    assert_eq!(stats.num_eval, 2);
    let last = e.y_out().last().unwrap().0;
    assert_eq!(last, Vector2::new(1.0, 2.0));
}

#[test]
fn fixed_dimension_run_with_events() {
    let sys = PlaneSys { slope: Vector2::new(1.0, 2.0), kick: Vector2::new(0.5, 0.0) };
    let mut e = Euler::new(
        sys,
        Time(0.0),
        State2(Vector2::zeros()),
        Time(1.0),
        vec![Time(0.5), Time(0.5), Time(1.0)],
    );
    let stats = e.integrate().unwrap();
    assert_eq!(stats.num_eval, 2);
    // Two observation steps: each applies the kick, then one Euler step.
    let last = e.y_out().last().unwrap().0;
    assert_eq!(last, Vector2::new(2.0, 2.0));
    let times: Vec<f64> = e.x_out().iter().map(|t| t.0).collect();
    assert_eq!(times, vec![0.0, 1.0, 1.0]);
}

#[test]
fn dynamic_dimension_run() {
    let mut e = Euler::new(
        DynSys,
        Time(0.0),
        StateDyn(DVector::from_vec(vec![0.0, 1.0, 2.0])),
        Time(1.0),
        vec![Time(0.25), Time(0.5), Time(0.5)],
    );
    let stats = e.integrate().unwrap();
    assert_eq!(stats.num_eval, 4);
    // dy/dx = 2 in every component over one unit of time.
    let last = &e.y_out().last().unwrap().0;
    assert_eq!(last, &DVector::from_vec(vec![2.0, 3.0, 4.0]));
}
