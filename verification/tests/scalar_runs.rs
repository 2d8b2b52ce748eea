//! Runs of the multi-rate Euler scheduler over a one-dimensional f64 state.

use ode_solvers::{Euler, IntegrationError, StateOps, Stats, System, TimeOps};

#[derive(Clone, Copy, Debug, PartialEq)]
struct Time(f64);

// The spec_* items are the trait's erased model functions; their bodies
// mirror the executable operations and are never called at run time.
impl TimeOps for Time {
    fn spec_plus(self, h: Self) -> Self {
        Time(self.0 + h.0)
    }

    fn spec_span_steps(self, end: Self, h: Self) -> usize {
        ((end.0 - self.0) / h.0).ceil() as usize
    }

    fn spec_ratio_steps(self, h: Self) -> usize {
        (self.0 / h.0).ceil() as usize
    }

    fn plus(self, h: Self) -> Self {
        Time(self.0 + h.0)
    }

    fn span_steps(self, end: Self, h: Self) -> usize {
        ((end.0 - self.0) / h.0).ceil() as usize
    }

    fn ratio_steps(self, h: Self) -> usize {
        (self.0 / h.0).ceil() as usize
    }
}

#[derive(Clone, Copy, Debug, PartialEq)]
struct State1(f64);

impl StateOps<Time> for State1 {
    fn spec_plus(&self, delta: &Self) -> Self {
        State1(self.0 + delta.0)
    }

    fn spec_scaled(&self, h: Time) -> Self {
        State1(self.0 * h.0)
    }

    fn plus(&self, delta: &Self) -> Self {
        State1(self.0 + delta.0)
    }

    fn scaled(&self, h: Time) -> Self {
        State1(self.0 * h.0)
    }

    fn dup(&self) -> Self {
        *self
    }
}

/// dy/dx = k, with an event that adds a fixed delta at each observation step.
struct ConstSys {
    k: f64,
    event_delta: f64,
}

impl System<Time, State1> for ConstSys {
    fn spec_ode(&self, _x: Time, _y: &State1) -> State1 {
        State1(self.k)
    }

    fn spec_event(&self, _x: Time, _y: &State1) -> State1 {
        State1(self.event_delta)
    }

    fn ode(&self, _x: Time, _y: &State1) -> State1 {
        State1(self.k)
    }

    fn event(&self, _x: Time, _y: &State1) -> State1 {
        State1(self.event_delta)
    }

    fn observer(&self, _x: Time, _y: &State1) {}
}

fn make(k: f64, event_delta: f64, x0: f64, y0: f64, x_end: f64, h: [f64; 3]) -> Euler<Time, State1, ConstSys> {
    Euler::new(
        ConstSys { k, event_delta },
        Time(x0),
        State1(y0),
        Time(x_end),
        vec![Time(h[0]), Time(h[1]), Time(h[2])],
    )
}

#[test]
fn stats_new_zeroed() {
    let s = Stats::new();
    assert_eq!(s.num_eval, 0);
    assert_eq!(s.accepted_steps, 0);
}

#[test]
fn step_count_determinism() {
    let mut e = make(1.0, 0.0, 0.0, 0.0, 1.0, [0.1, 0.1, 1.0]);
    let stats = e.integrate().unwrap();
    let c = e.counts();
    assert_eq!(c.num_report_steps, 1);
    assert_eq!(c.num_obs_per_report, 10);
    assert_eq!(c.num_event_per_obs, 1);
    assert_eq!(stats.num_eval, 10);
}

#[test]
fn statistics_accounting() {
    let mut e = make(2.0, 0.0, 0.0, 1.0, 2.0, [0.125, 0.25, 0.5]);
    let stats = e.integrate().unwrap();
    let c = e.counts();
    assert_eq!(c.num_report_steps, 4);
    assert_eq!(c.num_obs_per_report, 2);
    assert_eq!(c.num_event_per_obs, 2);
    let total = (c.num_report_steps * c.num_obs_per_report * c.num_event_per_obs) as u32;
    assert_eq!(stats.num_eval, total);
    assert_eq!(stats.accepted_steps, total);
    assert_eq!(stats.num_eval, stats.accepted_steps);
}

#[test]
fn output_cadence() {
    // The report rate evenly divides the interval: two report steps.
    let mut e = make(1.0, 0.0, 0.0, 0.0, 1.0, [0.25, 0.5, 0.5]);
    e.integrate().unwrap();
    let c = e.counts();
    assert_eq!(c.num_report_steps, 2);
    assert_eq!(e.x_out().len(), c.num_report_steps + 2);
    assert_eq!(e.y_out().len(), c.num_report_steps + 2);
    let times: Vec<f64> = e.x_out().iter().map(|t| t.0).collect();
    assert_eq!(times, vec![0.0, 0.5, 1.0, 1.0]);
}

#[test]
fn time_monotonicity() {
    let mut e = make(1.5, 0.0, 0.0, 0.25, 2.0, [0.25, 0.5, 1.0]);
    e.integrate().unwrap();
    let times = e.x_out();
    assert_eq!(times[0].0, 0.0);
    for w in times.windows(2) {
        assert!(w[0].0 <= w[1].0);
    }
}

#[test]
fn euler_consistency_exact() {
    // dy/dx = 3 with step 0.25 adds exactly 0.75 per event step.
    // 8 event steps in total: y = 1 + 8 * 0.75 = 7.
    let mut e = make(3.0, 0.0, 0.0, 1.0, 2.0, [0.25, 0.25, 2.0]);
    let stats = e.integrate().unwrap();
    assert_eq!(stats.num_eval, 8);
    assert_eq!(e.y_out().last().unwrap().0, 7.0);
}

#[test]
fn euler_consistency_independent_of_rates() {
    // Same event step and interval under two observation/report layouts:
    // the trajectory endpoint must be bitwise identical.
    let mut a = make(3.0, 0.0, 0.0, 1.0, 2.0, [0.25, 0.25, 2.0]);
    let mut b = make(3.0, 0.0, 0.0, 1.0, 2.0, [0.25, 0.5, 1.0]);
    let sa = a.integrate().unwrap();
    let sb = b.integrate().unwrap();
    assert_eq!(sa.num_eval, 8);
    assert_eq!(sb.num_eval, 8);
    assert_eq!(a.y_out().last().unwrap().0, b.y_out().last().unwrap().0);
    assert_eq!(a.y_out().last().unwrap().0, 7.0);
}

#[test]
fn event_idempotence() {
    // A zero-delta event must leave the trajectory identical to the plain
    // Euler recurrence with no event update at all.
    let (x0, y0, x_end) = (0.0, 0.25, 1.0);
    let h = [0.125, 0.25, 0.5];
    let k = 1.75;
    let mut e = make(k, 0.0, x0, y0, x_end, h);
    e.integrate().unwrap();
    let c = e.counts();

    let mut y = y0;
    let mut expected = vec![y];
    for _ in 0..c.num_report_steps {
        for _ in 0..c.num_obs_per_report {
            for _ in 0..c.num_event_per_obs {
                y = y + k * h[0];
            }
        }
        expected.push(y);
    }
    expected.push(y);

    let got: Vec<f64> = e.y_out().iter().map(|s| s.0).collect();
    assert_eq!(got, expected);
}

#[test]
fn event_applied_once_per_observation_step() {
    // One report step of two observation steps, one event step each:
    // y goes 0 -> +10 (event) -> 10.5 (step) -> +10 (event) -> 21 (step).
    let mut e = make(1.0, 10.0, 0.0, 0.0, 1.0, [0.5, 0.5, 1.0]);
    let stats = e.integrate().unwrap();
    assert_eq!(stats.num_eval, 2);
    let got: Vec<f64> = e.y_out().iter().map(|s| s.0).collect();
    assert_eq!(got, vec![0.0, 21.0, 21.0]);
}

#[test]
fn empty_interval_records_initial_and_final_samples() {
    // x_end == x0: zero report steps, no derivative evaluations, and the
    // trace still holds the initial and the final sample.
    let mut e = make(1.0, 0.0, 1.0, 4.0, 1.0, [0.5, 0.5, 0.5]);
    let stats = e.integrate().unwrap();
    let c = e.counts();
    assert_eq!(c.num_report_steps, 0);
    assert_eq!(stats.num_eval, 0);
    assert_eq!(stats.accepted_steps, 0);
    let times: Vec<f64> = e.x_out().iter().map(|t| t.0).collect();
    assert_eq!(times, vec![1.0, 1.0]);
    let states: Vec<f64> = e.y_out().iter().map(|s| s.0).collect();
    assert_eq!(states, vec![4.0, 4.0]);
}

#[test]
fn ceil_overshoots_past_end() {
    // The report rate does not divide the interval: the rounded-up loop
    // count runs slightly past x_end, with no clamping at the boundary.
    let mut e = make(1.0, 0.0, 0.0, 0.0, 0.75, [0.25, 0.25, 0.5]);
    e.integrate().unwrap();
    assert_eq!(e.counts().num_report_steps, 2);
    let times: Vec<f64> = e.x_out().iter().map(|t| t.0).collect();
    assert_eq!(times, vec![0.0, 0.5, 1.0, 1.0]);
}

#[test]
fn second_run_appends_to_the_trace() {
    let mut e = make(1.0, 0.0, 0.0, 0.0, 1.0, [0.5, 0.5, 1.0]);
    e.integrate().unwrap();
    assert_eq!(e.x_out().len(), 3);
    // The first run ended at x_end, so the second derives zero report
    // steps and only appends its initial and final samples.
    e.integrate().unwrap();
    assert_eq!(e.counts().num_report_steps, 0);
    assert_eq!(e.x_out().len(), 5);
    let times: Vec<f64> = e.x_out().iter().map(|t| t.0).collect();
    assert_eq!(times, vec![0.0, 1.0, 1.0, 1.0, 1.0]);
}

#[test]
fn oversized_configuration_is_rejected() {
    // More event steps than the u32 statistics counters can record.
    let mut e = make(1.0, 0.0, 0.0, 0.0, 1.0e10, [1.0, 1.0, 1.0]);
    let r = e.integrate();
    assert_eq!(r, Err(IntegrationError::InvalidConfiguration));
    // The run failed before any state was mutated: no samples recorded.
    assert_eq!(e.x_out().len(), 0);
    assert_eq!(e.y_out().len(), 0);
}
