//! Explicit Euler method with fixed step size and a multi-rate schedule.
//!
//! The scheduler owns three nested loops. The innermost advances the state
//! with one derivative-based update per event-size step and is the only
//! level that advances time. The middle level applies one instantaneous
//! event update before each burst of continuous steps. The outermost level
//! fires the observer and records an output sample once per report step.

use vstd::prelude::*;

use crate::dop_shared::{IntegrationError, StateOps, Stats, System, TimeOps};

verus! {

/// The three nested loop counts of one run, each derived from the step-size
/// configuration by rounding the corresponding ratio up to a whole count.
#[derive(Clone, Copy, Debug, PartialEq, Eq, Structural)]
pub struct StepCounts {
    /// Outermost count: steps of report size covering the whole interval.
    pub num_report_steps: usize,
    /// Middle count: observation-size steps per report-size step.
    pub num_obs_per_report: usize,
    /// Innermost count: event-size steps per observation-size step.
    pub num_event_per_obs: usize,
}

impl StepCounts {
    /// Total number of event-size steps in one full run.
    pub open spec fn total(self) -> int {
        self.num_report_steps * self.num_obs_per_report * self.num_event_per_obs
    }

    /// The total step count of a run is never negative. Together with the
    /// contract of [`Euler::integrate`], which advances both statistics
    /// counters by exactly this total, it shows that the counters never
    /// decrease across a run.
    pub proof fn lemma_total_nonneg(self)
        ensures
            self.total() >= 0,
    {
        assert(self.num_report_steps * self.num_obs_per_report * self.num_event_per_obs >= 0)
            by (nonlinear_arith)
            requires
                self.num_report_steps >= 0,
                self.num_obs_per_report >= 0,
                self.num_event_per_obs >= 0,
        ;
    }

    /// Whether a full run of these counts fits into the statistics counters
    /// starting from the counter values in `s`.
    fn fits_budget(self, s: Stats) -> (b: bool)
        ensures
            b <==> (s.num_eval + self.total() <= u32::MAX
                && s.accepted_steps + self.total() <= u32::MAX),
    {
        let r = self.num_report_steps;
        let o = self.num_obs_per_report;
        let e = self.num_event_per_obs;
        if r == 0 || o == 0 || e == 0 {
            proof {
                assert(r * o * e == 0) by (nonlinear_arith)
                    requires r == 0 || o == 0 || e == 0;
            }
            true
        } else {
            let ru = r as u128;
            let ou = o as u128;
            let eu = e as u128;
            proof {
                assert(ru * ou <= 0xffff_ffff_ffff_ffff_ffff_ffff_ffff_ffff) by (nonlinear_arith)
                    requires ru <= 0xffff_ffff_ffff_ffff, ou <= 0xffff_ffff_ffff_ffff;
            }
            let p1: u128 = ru * ou;
            if p1 > 0xffff_ffff {
                proof {
                    assert(p1 * eu >= p1) by (nonlinear_arith)
                        requires eu >= 1, p1 >= 0;
                }
                false
            } else {
                proof {
                    assert(p1 * eu <= 0xffff_ffff_ffff_ffff_ffff_ffff_ffff_ffff) by (nonlinear_arith)
                        requires p1 <= 0xffff_ffff, eu <= 0xffff_ffff_ffff_ffff;
                }
                let p2: u128 = p1 * eu;
                let limit_eval: u128 = 0xffff_ffff - (s.num_eval as u128);
                let limit_accepted: u128 = 0xffff_ffff - (s.accepted_steps as u128);
                p2 <= limit_eval && p2 <= limit_accepted
            }
        }
    }
}

/// In a run of `r` report steps, `o` observation steps per report step and
/// `e` event steps per observation step, the event step reached after `i`
/// full report steps, `j` full observation steps and `k` event steps lies
/// strictly below the total step count.
proof fn lemma_flat_index_bound(i: int, j: int, k: int, r: int, o: int, e: int)
    requires
        0 <= i < r,
        0 <= j < o,
        0 <= k < e,
    ensures
        (i * o + j) * e + k < (r * o) * e,
{
    assert((i * o + j) * e + k < (r * o) * e) by (nonlinear_arith)
        requires 0 <= i < r, 0 <= j < o, 0 <= k < e;
}

/// The point reached from `(x, y)` after `e` consecutive forward Euler
/// steps of size `h`: each step moves to
/// `(x + h, y + f(x, y) * h)` in model terms.
pub open spec fn burst_point<T: TimeOps, Y: StateOps<T>, F: System<T, Y>>(
    f: F,
    x: T,
    y: Y,
    h: T,
    e: nat,
) -> (T, Y)
    decreases e,
{
    if e == 0 {
        (x, y)
    } else {
        burst_point(
            f,
            x.spec_plus(h),
            y.spec_plus(&f.spec_ode(x, &y).spec_scaled(h)),
            h,
            (e - 1) as nat,
        )
    }
}

/// The point reached from `(x, y)` after `o` observation steps, each one
/// instantaneous event update followed by a burst of `e` Euler steps of
/// size `h`.
pub open spec fn obs_point<T: TimeOps, Y: StateOps<T>, F: System<T, Y>>(
    f: F,
    x: T,
    y: Y,
    h: T,
    o: nat,
    e: nat,
) -> (T, Y)
    decreases o,
{
    if o == 0 {
        (x, y)
    } else {
        let p = burst_point(f, x, y.spec_plus(&f.spec_event(x, &y)), h, e);
        obs_point(f, p.0, p.1, h, (o - 1) as nat, e)
    }
}

/// The point reached from `(x, y)` after `r` full report steps of `o`
/// observation steps each, with `e` Euler steps of size `h` per
/// observation step: the state trajectory of the multi-rate schedule.
pub open spec fn report_point<T: TimeOps, Y: StateOps<T>, F: System<T, Y>>(
    f: F,
    x: T,
    y: Y,
    h: T,
    r: nat,
    o: nat,
    e: nat,
) -> (T, Y)
    decreases r,
{
    if r == 0 {
        (x, y)
    } else {
        let p = obs_point(f, x, y, h, o, e);
        report_point(f, p.0, p.1, h, (r - 1) as nat, o, e)
    }
}

/// Unfolds one burst from the back: the point after `e + 1` Euler steps is
/// one Euler step past the point after `e` of them.
proof fn lemma_burst_snoc<T: TimeOps, Y: StateOps<T>, F: System<T, Y>>(
    f: F,
    x: T,
    y: Y,
    h: T,
    e: nat,
)
    ensures
        burst_point(f, x, y, h, (e + 1) as nat) == ({
            let p = burst_point(f, x, y, h, e);
            (p.0.spec_plus(h), p.1.spec_plus(&f.spec_ode(p.0, &p.1).spec_scaled(h)))
        }),
    decreases e,
{
    let x1 = x.spec_plus(h);
    let y1 = y.spec_plus(&f.spec_ode(x, &y).spec_scaled(h));
    assert(burst_point(f, x, y, h, (e + 1) as nat) == burst_point(f, x1, y1, h, e));
    if e == 0 {
        assert(burst_point(f, x1, y1, h, 0) == (x1, y1));
        assert(burst_point(f, x, y, h, 0) == (x, y));
    } else {
        lemma_burst_snoc(f, x1, y1, h, (e - 1) as nat);
        assert(burst_point(f, x, y, h, e) == burst_point(f, x1, y1, h, (e - 1) as nat));
    }
}

/// Unfolds one observation block from the back: the point after `o + 1`
/// observation steps is one event update and one burst past the point
/// after `o` of them.
proof fn lemma_obs_snoc<T: TimeOps, Y: StateOps<T>, F: System<T, Y>>(
    f: F,
    x: T,
    y: Y,
    h: T,
    o: nat,
    e: nat,
)
    ensures
        obs_point(f, x, y, h, (o + 1) as nat, e) == ({
            let p = obs_point(f, x, y, h, o, e);
            burst_point(f, p.0, p.1.spec_plus(&f.spec_event(p.0, &p.1)), h, e)
        }),
    decreases o,
{
    let p1 = burst_point(f, x, y.spec_plus(&f.spec_event(x, &y)), h, e);
    assert(obs_point(f, x, y, h, (o + 1) as nat, e) == obs_point(f, p1.0, p1.1, h, o, e));
    if o == 0 {
        assert(obs_point(f, p1.0, p1.1, h, 0, e) == p1);
        assert(obs_point(f, x, y, h, 0, e) == (x, y));
    } else {
        lemma_obs_snoc(f, p1.0, p1.1, h, (o - 1) as nat, e);
        assert(obs_point(f, x, y, h, o, e) == obs_point(f, p1.0, p1.1, h, (o - 1) as nat, e));
    }
}

/// Unfolds one report block from the back: the point after `r + 1` report
/// steps is one observation block past the point after `r` of them.
proof fn lemma_report_snoc<T: TimeOps, Y: StateOps<T>, F: System<T, Y>>(
    f: F,
    x: T,
    y: Y,
    h: T,
    r: nat,
    o: nat,
    e: nat,
)
    ensures
        report_point(f, x, y, h, (r + 1) as nat, o, e) == ({
            let p = report_point(f, x, y, h, r, o, e);
            obs_point(f, p.0, p.1, h, o, e)
        }),
    decreases r,
{
    let p1 = obs_point(f, x, y, h, o, e);
    assert(report_point(f, x, y, h, (r + 1) as nat, o, e)
        == report_point(f, p1.0, p1.1, h, r, o, e));
    if r == 0 {
        assert(report_point(f, p1.0, p1.1, h, 0, o, e) == p1);
        assert(report_point(f, x, y, h, 0, o, e) == (x, y));
    } else {
        lemma_report_snoc(f, p1.0, p1.1, h, (r - 1) as nat, o, e);
        assert(report_point(f, x, y, h, r, o, e)
            == report_point(f, p1.0, p1.1, h, (r - 1) as nat, o, e));
    }
}

/// One burst concatenates: `a + b` consecutive Euler steps reach the same
/// point as `a` steps followed by `b` more from where those end.
proof fn lemma_burst_concat<T: TimeOps, Y: StateOps<T>, F: System<T, Y>>(
    f: F,
    x: T,
    y: Y,
    h: T,
    a: nat,
    b: nat,
)
    ensures
        burst_point(f, x, y, h, a + b) == ({
            let p = burst_point(f, x, y, h, a);
            burst_point(f, p.0, p.1, h, b)
        }),
    decreases a,
{
    if a == 0 {
        assert(burst_point(f, x, y, h, 0) == (x, y));
    } else {
        let x1 = x.spec_plus(h);
        let y1 = y.spec_plus(&f.spec_ode(x, &y).spec_scaled(h));
        assert(burst_point(f, x, y, h, a + b)
            == burst_point(f, x1, y1, h, (a + b - 1) as nat));
        assert(burst_point(f, x, y, h, a) == burst_point(f, x1, y1, h, (a - 1) as nat));
        lemma_burst_concat(f, x1, y1, h, (a - 1) as nat, b);
    }
}

/// A dynamics provider whose event update leaves every state unchanged:
/// at every point, adding the event delta gives the state back.
pub open spec fn event_is_noop<T: TimeOps, Y: StateOps<T>, F: System<T, Y>>(f: F) -> bool {
    forall|x: T, y: Y| #[trigger] y.spec_plus(&f.spec_event(x, &y)) == y
}

/// Under a no-op event, one observation block of `o` bursts of `e` steps
/// is the same as `o * e` consecutive Euler steps.
proof fn lemma_obs_noop<T: TimeOps, Y: StateOps<T>, F: System<T, Y>>(
    f: F,
    x: T,
    y: Y,
    h: T,
    o: nat,
    e: nat,
)
    requires
        event_is_noop::<T, Y, F>(f),
    ensures
        obs_point(f, x, y, h, o, e) == burst_point(f, x, y, h, o * e),
    decreases o,
{
    if o == 0 {
        assert(obs_point(f, x, y, h, 0, e) == (x, y));
        assert(o * e == 0) by (nonlinear_arith)
            requires o == 0;
        assert(burst_point(f, x, y, h, 0) == (x, y));
    } else {
        assert(y.spec_plus(&f.spec_event(x, &y)) == y);
        let p = burst_point(f, x, y, h, e);
        assert(obs_point(f, x, y, h, o, e) == obs_point(f, p.0, p.1, h, (o - 1) as nat, e));
        lemma_obs_noop(f, p.0, p.1, h, (o - 1) as nat, e);
        let om: nat = (o - 1) as nat;
        lemma_burst_concat(f, x, y, h, e, om * e);
        assert(e + om * e == o * e) by (nonlinear_arith)
            requires om == o - 1;
    }
}

/// Law (event idempotence): if the event update leaves every state
/// unchanged, the multi-rate trajectory coincides with the plain Euler
/// recurrence over the same total number of event-size steps — the event
/// applier is a true no-op and the observation/report blocking leaves no
/// trace on the state.
pub proof fn lemma_event_noop_trajectory<T: TimeOps, Y: StateOps<T>, F: System<T, Y>>(
    f: F,
    x: T,
    y: Y,
    h: T,
    r: nat,
    o: nat,
    e: nat,
)
    requires
        event_is_noop::<T, Y, F>(f),
    ensures
        report_point(f, x, y, h, r, o, e) == burst_point(f, x, y, h, (r * o) * e),
    decreases r,
{
    if r == 0 {
        assert(report_point(f, x, y, h, 0, o, e) == (x, y));
        assert((r * o) * e == 0) by (nonlinear_arith)
            requires r == 0;
        assert(burst_point(f, x, y, h, 0) == (x, y));
    } else {
        let p = obs_point(f, x, y, h, o, e);
        lemma_obs_noop(f, x, y, h, o, e);
        assert(report_point(f, x, y, h, r, o, e)
            == report_point(f, p.0, p.1, h, (r - 1) as nat, o, e));
        lemma_event_noop_trajectory(f, p.0, p.1, h, (r - 1) as nat, o, e);
        let rm: nat = (r - 1) as nat;
        lemma_burst_concat(f, x, y, h, o * e, (rm * o) * e);
        assert(o * e + (rm * o) * e == (r * o) * e) by (nonlinear_arith)
            requires rm == r - 1;
    }
}

/// Law (rate independence): under a no-op event, two step-size layouts
/// with the same total number of event-size steps produce the same final
/// point — the observation and report rates only decide when samples are
/// recorded, never the trajectory.
pub proof fn lemma_rate_independence<T: TimeOps, Y: StateOps<T>, F: System<T, Y>>(
    f: F,
    x: T,
    y: Y,
    h: T,
    r1: nat,
    o1: nat,
    e1: nat,
    r2: nat,
    o2: nat,
    e2: nat,
)
    requires
        event_is_noop::<T, Y, F>(f),
        (r1 * o1) * e1 == (r2 * o2) * e2,
    ensures
        report_point(f, x, y, h, r1, o1, e1) == report_point(f, x, y, h, r2, o2, e2),
{
    lemma_event_noop_trajectory(f, x, y, h, r1, o1, e1);
    lemma_event_noop_trajectory(f, x, y, h, r2, o2, e2);
}

/// Parameters and mutable state of one numerical integration: the dynamics
/// `f`, the current point `(x, y)`, the end of the interval, the step-size
/// triple (finest to coarsest), the derived loop counts, the recorded
/// output trace and the run statistics.
pub struct Euler<T, Y, F> where T: TimeOps, Y: StateOps<T>, F: System<T, Y> {
    f: F,
    x: T,
    y: Y,
    x_end: T,
    step_size: Vec<T>,
    counts: StepCounts,
    x_out: Vec<T>,
    y_out: Vec<Y>,
    stats: Stats,
}

impl<T: TimeOps, Y: StateOps<T>, F: System<T, Y>> Euler<T, Y, F> {
    /// The recorded output times.
    pub closed spec fn out_times(&self) -> Seq<T> {
        self.x_out@
    }

    /// The recorded output states, parallel to `out_times`.
    pub closed spec fn out_states(&self) -> Seq<Y> {
        self.y_out@
    }

    /// The dynamics provider.
    pub closed spec fn spec_f(&self) -> F {
        self.f
    }

    /// Current value of the independent variable.
    pub closed spec fn spec_x(&self) -> T {
        self.x
    }

    /// Current state vector.
    pub closed spec fn spec_y(&self) -> Y {
        self.y
    }

    /// Final value of the independent variable.
    pub closed spec fn spec_x_end(&self) -> T {
        self.x_end
    }

    /// The configured step sizes, finest to coarsest.
    pub closed spec fn spec_step_size(&self) -> Seq<T> {
        self.step_size@
    }

    /// The loop counts derived for the most recent run.
    pub closed spec fn spec_counts(&self) -> StepCounts {
        self.counts
    }

    /// The run statistics accumulated so far.
    pub closed spec fn spec_stats(&self) -> Stats {
        self.stats
    }

    /// A well-formed integrator carries exactly three step sizes —
    /// event, observation and report size — and its two output traces
    /// are parallel sequences of equal length.
    pub open spec fn wf(&self) -> bool {
        self.spec_step_size().len() == 3
        && self.out_times().len() == self.out_states().len()
    }

    /// Sets up an integration of the dynamics `f` from `(x, y)` to `x_end`
    /// under the step-size triple `step_size`, with an empty output trace
    /// and zeroed statistics.
    pub fn new(f: F, x: T, y: Y, x_end: T, step_size: Vec<T>) -> (r: Self)
        requires
            step_size@.len() == 3,
        ensures
            r.wf(),
            r.spec_f() == f,
            r.spec_x() == x,
            r.spec_y() == y,
            r.spec_x_end() == x_end,
            r.spec_step_size() == step_size@,
            r.out_times() == Seq::<T>::empty(),
            r.out_states() == Seq::<Y>::empty(),
            r.spec_stats().num_eval == 0,
            r.spec_stats().accepted_steps == 0,
    {
        Euler {
            f,
            x,
            y,
            x_end,
            step_size,
            counts: StepCounts {
                num_report_steps: 0,
                num_obs_per_report: 0,
                num_event_per_obs: 0,
            },
            x_out: Vec::new(),
            y_out: Vec::new(),
            stats: Stats::new(),
        }
    }

    /// Performs one step of the forward Euler method: samples the
    /// derivative once at the current point and forms
    /// `(x + h_event, y + f(x, y) * h_event)`, where `h_event` is the
    /// finest step size — the only granularity that advances time.
    fn step(&self) -> (r: (T, Y))
        requires
            self.wf(),
        ensures
            r.0 == self.x.spec_plus(self.spec_step_size()[0]),
            r.1 == self.y.spec_plus(
                &self.f.spec_ode(self.x, &self.y).spec_scaled(self.spec_step_size()[0]),
            ),
    {
        let dy = self.f.ode(self.x, &self.y);
        let x_new = self.x.plus(self.step_size[0]);
        let y_new = self.y.plus(&dy.scaled(self.step_size[0]));
        (x_new, y_new)
    }

    /// Performs one instantaneous event update: samples the event delta
    /// once at the current point and forms `y + event(x, y)`.
    /// The independent variable is not advanced by an event.
    fn e_step(&self) -> (r: Y)
        ensures
            r == self.y.spec_plus(&self.f.spec_event(self.x, &self.y)),
    {
        let dy = self.f.event(self.x, &self.y);
        self.y.plus(&dy)
    }

    /// Core integration method: runs the full multi-rate schedule.
    ///
    /// The loop counts are derived from the configuration first; if a full
    /// run would overflow the statistics counters, the run fails before any
    /// state is mutated. Otherwise the run records an initial output
    /// sample, fires the observer, executes all
    /// `num_report_steps * num_obs_per_report * num_event_per_obs` event
    /// steps with one event update per observation step, records one
    /// sample and one observer call per report step, and closes with a
    /// final output sample. Both statistics counters advance by exactly
    /// the total step count, and every recorded report sample as well as
    /// the final point equals the corresponding point of the model
    /// trajectory [`report_point`], taken from the starting point under
    /// the event step size and the derived loop counts.
    pub fn integrate(&mut self) -> (r: Result<Stats, IntegrationError>)
        requires
            old(self).wf(),
        ensures
            final(self).wf(),
            final(self).spec_f() == old(self).spec_f(),
            final(self).spec_x_end() == old(self).spec_x_end(),
            final(self).spec_step_size() == old(self).spec_step_size(),
            final(self).spec_counts() == (StepCounts {
                num_report_steps: old(self).spec_x().spec_span_steps(
                    old(self).spec_x_end(),
                    old(self).spec_step_size()[2],
                ),
                num_obs_per_report: old(self).spec_step_size()[2].spec_ratio_steps(
                    old(self).spec_step_size()[1],
                ),
                num_event_per_obs: old(self).spec_step_size()[1].spec_ratio_steps(
                    old(self).spec_step_size()[0],
                ),
            }),
            match r {
                Ok(s) => {
                    &&& s == final(self).spec_stats()
                    &&& old(self).spec_stats().num_eval + final(self).spec_counts().total()
                        <= u32::MAX
                    &&& old(self).spec_stats().accepted_steps + final(self).spec_counts().total()
                        <= u32::MAX
                    &&& final(self).spec_stats().num_eval
                        == old(self).spec_stats().num_eval + final(self).spec_counts().total()
                    &&& final(self).spec_stats().accepted_steps
                        == old(self).spec_stats().accepted_steps
                            + final(self).spec_counts().total()
                    &&& final(self).out_times().len()
                        == old(self).out_times().len()
                            + final(self).spec_counts().num_report_steps + 2
                    &&& final(self).out_states().len()
                        == old(self).out_states().len()
                            + final(self).spec_counts().num_report_steps + 2
                    &&& final(self).out_times().subrange(0, old(self).out_times().len() as int)
                        == old(self).out_times()
                    &&& final(self).out_states().subrange(0, old(self).out_states().len() as int)
                        == old(self).out_states()
                    &&& final(self).out_times()[old(self).out_times().len() as int]
                        == old(self).spec_x()
                    &&& final(self).out_states()[old(self).out_states().len() as int]
                        == old(self).spec_y()
                    &&& final(self).out_times().last() == final(self).spec_x()
                    &&& final(self).out_states().last() == final(self).spec_y()
                    &&& final(self).out_times()[(old(self).out_times().len() as int)
                            + (final(self).spec_counts().num_report_steps as int)]
                        == final(self).spec_x()
                    &&& final(self).out_states()[(old(self).out_states().len() as int)
                            + (final(self).spec_counts().num_report_steps as int)]
                        == final(self).spec_y()
                    &&& final(self).spec_x() == report_point(
                        old(self).spec_f(),
                        old(self).spec_x(),
                        old(self).spec_y(),
                        old(self).spec_step_size()[0],
                        final(self).spec_counts().num_report_steps as nat,
                        final(self).spec_counts().num_obs_per_report as nat,
                        final(self).spec_counts().num_event_per_obs as nat,
                    ).0
                    &&& final(self).spec_y() == report_point(
                        old(self).spec_f(),
                        old(self).spec_x(),
                        old(self).spec_y(),
                        old(self).spec_step_size()[0],
                        final(self).spec_counts().num_report_steps as nat,
                        final(self).spec_counts().num_obs_per_report as nat,
                        final(self).spec_counts().num_event_per_obs as nat,
                    ).1
                    &&& forall|n: int|
                        old(self).out_times().len() + 1 <= n
                            <= old(self).out_times().len()
                                + final(self).spec_counts().num_report_steps
                        ==> #[trigger] final(self).out_times()[n]
                            == report_point(
                                old(self).spec_f(),
                                old(self).spec_x(),
                                old(self).spec_y(),
                                old(self).spec_step_size()[0],
                                (n - old(self).out_times().len()) as nat,
                                final(self).spec_counts().num_obs_per_report as nat,
                                final(self).spec_counts().num_event_per_obs as nat,
                            ).0
                    &&& forall|n: int|
                        old(self).out_states().len() + 1 <= n
                            <= old(self).out_states().len()
                                + final(self).spec_counts().num_report_steps
                        ==> #[trigger] final(self).out_states()[n]
                            == report_point(
                                old(self).spec_f(),
                                old(self).spec_x(),
                                old(self).spec_y(),
                                old(self).spec_step_size()[0],
                                (n - old(self).out_states().len()) as nat,
                                final(self).spec_counts().num_obs_per_report as nat,
                                final(self).spec_counts().num_event_per_obs as nat,
                            ).1
                },
                Err(e) => {
                    &&& e == IntegrationError::InvalidConfiguration
                    &&& !(old(self).spec_stats().num_eval + final(self).spec_counts().total()
                            <= u32::MAX
                        && old(self).spec_stats().accepted_steps
                            + final(self).spec_counts().total() <= u32::MAX)
                    &&& final(self).out_times() == old(self).out_times()
                    &&& final(self).out_states() == old(self).out_states()
                    &&& final(self).spec_stats() == old(self).spec_stats()
                    &&& final(self).spec_x() == old(self).spec_x()
                    &&& final(self).spec_y() == old(self).spec_y()
                },
            },
    {
        let ghost prev = *self;

        let h_event = self.step_size[0];
        let h_obs = self.step_size[1];
        let h_report = self.step_size[2];
        let num_steps = self.x.span_steps(self.x_end, h_report);
        let num_steps_per_obs = h_report.ratio_steps(h_obs);
        let num_steps_per_event = h_obs.ratio_steps(h_event);
        self.counts = StepCounts {
            num_report_steps: num_steps,
            num_obs_per_report: num_steps_per_obs,
            num_event_per_obs: num_steps_per_event,
        };

        if !self.counts.fits_budget(self.stats) {
            return Err(IntegrationError::InvalidConfiguration);
        }

        // Save initial values and fire the observer once before stepping.
        self.x_out.push(self.x);
        self.y_out.push(self.y.dup());
        self.f.observer(self.x, &self.y);

        let ghost t_len: int = prev.x_out@.len() as int;
        let ghost s_len: int = prev.y_out@.len() as int;

        proof {
            assert((0 * num_steps_per_obs) * num_steps_per_event == 0) by (nonlinear_arith);
            assert((0 * num_steps_per_obs + 0) * num_steps_per_event + 0 == 0)
                by (nonlinear_arith);
        }

        let mut i: usize = 0;
        while i < num_steps
            invariant
                self.wf(),
                i <= num_steps,
                self.counts == (StepCounts {
                    num_report_steps: num_steps,
                    num_obs_per_report: num_steps_per_obs,
                    num_event_per_obs: num_steps_per_event,
                }),
                self.x_end == prev.x_end,
                self.step_size@ == prev.step_size@,
                t_len == prev.x_out@.len(),
                s_len == prev.y_out@.len(),
                self.f == prev.f,
                h_event == prev.step_size@[0],
                (self.x, self.y) == report_point(prev.f, prev.x, prev.y, h_event,
                    i as nat, num_steps_per_obs as nat, num_steps_per_event as nat),
                forall|m: int| 1 <= m <= i ==> #[trigger] self.x_out@[t_len + m]
                    == report_point(prev.f, prev.x, prev.y, h_event, m as nat,
                        num_steps_per_obs as nat, num_steps_per_event as nat).0,
                forall|m: int| 1 <= m <= i ==> #[trigger] self.y_out@[s_len + m]
                    == report_point(prev.f, prev.x, prev.y, h_event, m as nat,
                        num_steps_per_obs as nat, num_steps_per_event as nat).1,
                prev.stats.num_eval + self.counts.total() <= u32::MAX,
                prev.stats.accepted_steps + self.counts.total() <= u32::MAX,
                self.stats.num_eval == prev.stats.num_eval
                    + (i * num_steps_per_obs) * num_steps_per_event,
                self.stats.accepted_steps == prev.stats.accepted_steps
                    + (i * num_steps_per_obs) * num_steps_per_event,
                self.x_out@.len() == t_len + 1 + i,
                self.y_out@.len() == s_len + 1 + i,
                forall|n: int| 0 <= n < t_len ==> #[trigger] self.x_out@[n] == prev.x_out@[n],
                forall|n: int| 0 <= n < s_len ==> #[trigger] self.y_out@[n] == prev.y_out@[n],
                self.x_out@[t_len] == prev.x,
                self.y_out@[s_len] == prev.y,
                self.x_out@[t_len + i] == self.x,
                self.y_out@[s_len + i] == self.y,
            decreases num_steps - i,
        {
            proof {
                assert((i * num_steps_per_obs + 0) * num_steps_per_event + 0
                    == (i * num_steps_per_obs) * num_steps_per_event) by (nonlinear_arith);
            }
            let ghost mx = self.x;
            let ghost my = self.y;
            let mut j: usize = 0;
            while j < num_steps_per_obs
                invariant
                    self.wf(),
                    j <= num_steps_per_obs,
                    i < num_steps,
                    self.counts == (StepCounts {
                        num_report_steps: num_steps,
                        num_obs_per_report: num_steps_per_obs,
                        num_event_per_obs: num_steps_per_event,
                    }),
                    self.x_end == prev.x_end,
                    self.step_size@ == prev.step_size@,
                    t_len == prev.x_out@.len(),
                    s_len == prev.y_out@.len(),
                    self.f == prev.f,
                    h_event == prev.step_size@[0],
                    (self.x, self.y) == obs_point(prev.f, mx, my, h_event,
                        j as nat, num_steps_per_event as nat),
                    forall|m: int| 1 <= m <= i ==> #[trigger] self.x_out@[t_len + m]
                        == report_point(prev.f, prev.x, prev.y, h_event, m as nat,
                            num_steps_per_obs as nat, num_steps_per_event as nat).0,
                    forall|m: int| 1 <= m <= i ==> #[trigger] self.y_out@[s_len + m]
                        == report_point(prev.f, prev.x, prev.y, h_event, m as nat,
                            num_steps_per_obs as nat, num_steps_per_event as nat).1,
                    prev.stats.num_eval + self.counts.total() <= u32::MAX,
                    prev.stats.accepted_steps + self.counts.total() <= u32::MAX,
                    self.stats.num_eval == prev.stats.num_eval
                        + (i * num_steps_per_obs + j) * num_steps_per_event,
                    self.stats.accepted_steps == prev.stats.accepted_steps
                        + (i * num_steps_per_obs + j) * num_steps_per_event,
                    self.x_out@.len() == t_len + 1 + i,
                    self.y_out@.len() == s_len + 1 + i,
                    forall|n: int| 0 <= n < t_len
                        ==> #[trigger] self.x_out@[n] == prev.x_out@[n],
                    forall|n: int| 0 <= n < s_len
                        ==> #[trigger] self.y_out@[n] == prev.y_out@[n],
                    self.x_out@[t_len] == prev.x,
                    self.y_out@[s_len] == prev.y,
                decreases num_steps_per_obs - j,
            {
                let ghost ox = self.x;
                let ghost oy = self.y;
                let y_event = self.e_step();
                self.y = y_event;
                let ghost ex = self.x;
                let ghost ey = self.y;
                let mut k: usize = 0;
                while k < num_steps_per_event
                    invariant
                        self.wf(),
                        k <= num_steps_per_event,
                        j < num_steps_per_obs,
                        i < num_steps,
                        self.counts == (StepCounts {
                            num_report_steps: num_steps,
                            num_obs_per_report: num_steps_per_obs,
                            num_event_per_obs: num_steps_per_event,
                        }),
                        self.x_end == prev.x_end,
                        self.step_size@ == prev.step_size@,
                        t_len == prev.x_out@.len(),
                        s_len == prev.y_out@.len(),
                        self.f == prev.f,
                        h_event == prev.step_size@[0],
                        (self.x, self.y) == burst_point(prev.f, ex, ey, h_event, k as nat),
                        forall|m: int| 1 <= m <= i ==> #[trigger] self.x_out@[t_len + m]
                            == report_point(prev.f, prev.x, prev.y, h_event, m as nat,
                                num_steps_per_obs as nat, num_steps_per_event as nat).0,
                        forall|m: int| 1 <= m <= i ==> #[trigger] self.y_out@[s_len + m]
                            == report_point(prev.f, prev.x, prev.y, h_event, m as nat,
                                num_steps_per_obs as nat, num_steps_per_event as nat).1,
                        prev.stats.num_eval + self.counts.total() <= u32::MAX,
                        prev.stats.accepted_steps + self.counts.total() <= u32::MAX,
                        self.stats.num_eval == prev.stats.num_eval
                            + ((i * num_steps_per_obs + j) * num_steps_per_event + k),
                        self.stats.accepted_steps == prev.stats.accepted_steps
                            + ((i * num_steps_per_obs + j) * num_steps_per_event + k),
                        self.x_out@.len() == t_len + 1 + i,
                        self.y_out@.len() == s_len + 1 + i,
                        forall|n: int| 0 <= n < t_len
                            ==> #[trigger] self.x_out@[n] == prev.x_out@[n],
                        forall|n: int| 0 <= n < s_len
                            ==> #[trigger] self.y_out@[n] == prev.y_out@[n],
                        self.x_out@[t_len] == prev.x,
                        self.y_out@[s_len] == prev.y,
                    decreases num_steps_per_event - k,
                {
                    proof {
                        lemma_flat_index_bound(
                            i as int, j as int, k as int,
                            num_steps as int, num_steps_per_obs as int,
                            num_steps_per_event as int,
                        );
                    }
                    let (x_new, y_new) = self.step();
                    self.x = x_new;
                    self.y = y_new;
                    self.stats.num_eval = self.stats.num_eval + 1;
                    self.stats.accepted_steps = self.stats.accepted_steps + 1;
                    proof {
                        lemma_burst_snoc(prev.f, ex, ey, h_event, k as nat);
                    }
                    k = k + 1;
                }
                proof {
                    let ghost a: int = i * num_steps_per_obs + j;
                    assert(a * num_steps_per_event + num_steps_per_event
                        == (a + 1) * num_steps_per_event) by (nonlinear_arith);
                    lemma_obs_snoc(prev.f, mx, my, h_event, j as nat,
                        num_steps_per_event as nat);
                }
                j = j + 1;
            }
            proof {
                assert((i * num_steps_per_obs + num_steps_per_obs) * num_steps_per_event
                    == ((i + 1) * num_steps_per_obs) * num_steps_per_event) by (nonlinear_arith);
                lemma_report_snoc(prev.f, prev.x, prev.y, h_event, i as nat,
                    num_steps_per_obs as nat, num_steps_per_event as nat);
            }
            // Fire the observer and record one output sample per report step.
            self.f.observer(self.x, &self.y);
            let ghost ts = self.x_out@;
            let ghost ss = self.y_out@;
            self.x_out.push(self.x);
            self.y_out.push(self.y.dup());
            proof {
                assert(self.x_out@[t_len] == ts[t_len]);
                assert(self.y_out@[s_len] == ss[s_len]);
                assert(forall|n: int| 0 <= n < t_len
                    ==> #[trigger] self.x_out@[n] == ts[n]);
                assert(forall|n: int| 0 <= n < s_len
                    ==> #[trigger] self.y_out@[n] == ss[n]);
                assert(forall|m: int| 1 <= m <= i
                    ==> #[trigger] self.x_out@[t_len + m] == ts[t_len + m]);
                assert(forall|m: int| 1 <= m <= i
                    ==> #[trigger] self.y_out@[s_len + m] == ss[s_len + m]);
                assert(self.x_out@[t_len + i + 1] == self.x);
                assert(self.y_out@[s_len + i + 1] == self.y);
            }
            i = i + 1;
        }

        // Record the final state.
        let ghost ts = self.x_out@;
        let ghost ss = self.y_out@;
        self.x_out.push(self.x);
        self.y_out.push(self.y.dup());

        proof {
            assert(forall|n: int| 0 <= n < t_len
                ==> #[trigger] self.x_out@[n] == ts[n]);
            assert(forall|n: int| 0 <= n < s_len
                ==> #[trigger] self.y_out@[n] == ss[n]);
            assert(self.x_out@.subrange(0, t_len) =~= prev.x_out@);
            assert(self.y_out@.subrange(0, s_len) =~= prev.y_out@);
            assert(self.x_out@[t_len] == ts[t_len]);
            assert(self.y_out@[s_len] == ss[s_len]);
            assert(forall|m: int| 1 <= m <= num_steps as int
                ==> #[trigger] self.x_out@[t_len + m] == ts[t_len + m]);
            assert(forall|m: int| 1 <= m <= num_steps as int
                ==> #[trigger] self.y_out@[s_len + m] == ss[s_len + m]);
            assert forall|n: int| t_len + 1 <= n <= t_len + num_steps as int
                implies self.x_out@[n] == report_point(prev.f, prev.x, prev.y, h_event,
                    (n - t_len) as nat, num_steps_per_obs as nat,
                    num_steps_per_event as nat).0
            by {
                assert(self.x_out@[t_len + (n - t_len)]
                    == report_point(prev.f, prev.x, prev.y, h_event,
                        (n - t_len) as nat, num_steps_per_obs as nat,
                        num_steps_per_event as nat).0);
            }
            assert forall|n: int| s_len + 1 <= n <= s_len + num_steps as int
                implies self.y_out@[n] == report_point(prev.f, prev.x, prev.y, h_event,
                    (n - s_len) as nat, num_steps_per_obs as nat,
                    num_steps_per_event as nat).1
            by {
                assert(self.y_out@[s_len + (n - s_len)]
                    == report_point(prev.f, prev.x, prev.y, h_event,
                        (n - s_len) as nat, num_steps_per_obs as nat,
                        num_steps_per_event as nat).1);
            }
        }
        Ok(self.stats)
    }

    /// Getter for the independent variable's recorded output.
    pub fn x_out(&self) -> (r: &Vec<T>)
        ensures
            r@ == self.out_times(),
    {
        &self.x_out
    }

    /// Getter for the dependent variables' recorded output.
    pub fn y_out(&self) -> (r: &Vec<Y>)
        ensures
            r@ == self.out_states(),
    {
        &self.y_out
    }

    /// Getter for the loop counts derived in the most recent run.
    pub fn counts(&self) -> (r: StepCounts)
        ensures
            r == self.spec_counts(),
    {
        self.counts
    }
}

} // verus!
