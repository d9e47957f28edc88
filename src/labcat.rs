use vstd::prelude::*;
use crate::memory::{BaseMemory, discard_limit, kept_upto, lemma_forget_bound};
use crate::utils::is_rect;

verus! {

/// Why an optimization run stopped.
#[derive(Debug, Clone, Copy, PartialEq, Eq, Structural)]
pub enum TermCond {
    MachineEpsilonReached,
    TargetTolReached,
    TargetValReached,
    MaxItersReached,
    MaxTimeReached,
    DidNotConverge,
}

/// What the run loop does once a termination condition holds.
#[derive(Debug, Clone, Copy, PartialEq, Eq, Structural)]
pub enum RunAction {
    /// Report the summary and stop.
    Finish,
    /// Keep only the best point, draw a new initial design and go on.
    Restart,
}

/// Where the next query point comes from.
#[derive(Debug, Clone, Copy, PartialEq, Eq, Structural)]
pub enum AskSource {
    /// The initial design point with this index.
    Design(usize),
    /// The acquisition optimizer over the trust region.
    Acquisition,
}

/// Phase of the ask/tell loop.
#[derive(Debug, Clone, Copy, PartialEq, Eq, Structural)]
pub enum Phase {
    /// Initial design points are still being evaluated.
    Init,
    /// The steady-state loop.
    Nominal,
}

/// Size of the initial design in `d` dimensions.
pub open spec fn spec_f_init(d: int) -> int {
    2 * d + 1
}

/// Most points one forgetting step may discard in `d` dimensions.
pub open spec fn spec_f_discard(d: int) -> int {
    7 * d
}

/// Largest dimension the orchestrator accepts, so that all counts fit.
pub const MAX_DIM: usize = 1_000_000;

/// Size of the initial design in `d` dimensions.
pub fn f_init(d: usize) -> (r: usize)
    requires
        d <= MAX_DIM,
    ensures
        r == spec_f_init(d as int),
{
    2 * d + 1
}

/// Most points one forgetting step may discard in `d` dimensions.
pub fn f_discard(d: usize) -> (r: usize)
    requires
        d <= MAX_DIM,
    ensures
        r == spec_f_discard(d as int),
{
    7 * d
}

/// Number of uniform draws the acquisition fallback may make in `d` dimensions.
pub fn fallback_budget(d: usize) -> (r: usize)
    requires
        d <= MAX_DIM,
    ensures
        r == 100 * d,
{
    100 * d
}

/// The termination condition that holds, in priority order: output scale
/// collapsed (below machine epsilon when that is the tolerance, else below the
/// configured tolerance), target value reached, sample budget spent, time spent.
pub open spec fn spec_check_converged(
    scale_below_tol: bool,
    tol_is_machine_eps: bool,
    target_reached: bool,
    n_samples: usize,
    max_samples: Option<usize>,
    time_exceeded: bool,
) -> Option<TermCond> {
    if scale_below_tol {
        if tol_is_machine_eps {
            Some(TermCond::MachineEpsilonReached)
        } else {
            Some(TermCond::TargetTolReached)
        }
    } else if target_reached {
        Some(TermCond::TargetValReached)
    } else if max_samples matches Some(m) && n_samples >= m {
        Some(TermCond::MaxItersReached)
    } else if time_exceeded {
        Some(TermCond::MaxTimeReached)
    } else {
        None
    }
}

/// The termination condition that holds, in priority order.
pub fn check_converged(
    scale_below_tol: bool,
    tol_is_machine_eps: bool,
    target_reached: bool,
    n_samples: usize,
    max_samples: Option<usize>,
    time_exceeded: bool,
) -> (r: Option<TermCond>)
    ensures
        r == spec_check_converged(
            scale_below_tol,
            tol_is_machine_eps,
            target_reached,
            n_samples,
            max_samples,
            time_exceeded,
        ),
{
    if scale_below_tol {
        if tol_is_machine_eps {
            return Some(TermCond::MachineEpsilonReached);
        } else {
            return Some(TermCond::TargetTolReached);
        }
    }
    if target_reached {
        return Some(TermCond::TargetValReached);
    }
    if let Some(m) = max_samples {
        if n_samples >= m {
            return Some(TermCond::MaxItersReached);
        }
    }
    if time_exceeded {
        return Some(TermCond::MaxTimeReached);
    }
    None
}

/// What the run loop does on a termination condition: with restarts on, the
/// sample and time budgets end the run and every other condition restarts it;
/// with restarts off, every condition ends it.
pub open spec fn spec_after_termination(term: TermCond, restarts: bool) -> RunAction {
    if restarts && term != TermCond::MaxItersReached && term != TermCond::MaxTimeReached {
        RunAction::Restart
    } else {
        RunAction::Finish
    }
}

/// What the run loop does on a termination condition.
pub fn after_termination(term: TermCond, restarts: bool) -> (r: RunAction)
    ensures
        r == spec_after_termination(term, restarts),
{
    if restarts {
        match term {
            TermCond::MaxItersReached => RunAction::Finish,
            TermCond::MaxTimeReached => RunAction::Finish,
            _ => RunAction::Restart,
        }
    } else {
        RunAction::Finish
    }
}

/// The message that reports each termination condition.
pub open spec fn spec_reason(term: TermCond) -> Seq<char> {
    match term {
        TermCond::MachineEpsilonReached => "Machine Epsilon reached!"@,
        TermCond::TargetTolReached => "Target tolerance reached!"@,
        TermCond::TargetValReached => "Target value reached!"@,
        TermCond::MaxItersReached => "Maximum sampling iterations reached!"@,
        TermCond::MaxTimeReached => "Maximum wall-time reached!"@,
        TermCond::DidNotConverge => "Did not converge!"@,
    }
}

/// The outcome of a finished run: why it stopped, how many samples it used,
/// and the best point found with its value.
#[derive(Debug, Clone)]
pub struct OptimizationSummary<T> {
    term_reason: TermCond,
    n_samples: usize,
    min_x: Vec<T>,
    min_y: T,
}

impl<T: Copy> OptimizationSummary<T> {
    /// The fields, as given.
    pub closed spec fn parts(&self) -> (TermCond, usize, Seq<T>, T) {
        (self.term_reason, self.n_samples, self.min_x@, self.min_y)
    }

    /// A summary of the given fields.
    pub fn new(term_reason: TermCond, n_samples: usize, min_x: Vec<T>, min_y: T) -> (r: Self)
        ensures
            r.parts() == (term_reason, n_samples, min_x@, min_y),
    {
        OptimizationSummary { term_reason, n_samples, min_x, min_y }
    }

    /// Why the run stopped.
    pub fn term_cond(&self) -> (r: TermCond)
        ensures
            r == self.parts().0,
    {
        self.term_reason
    }

    /// The message that reports why the run stopped.
    pub fn reason(&self) -> (r: &'static str)
        ensures
            r@ == spec_reason(self.parts().0),
    {
        match self.term_reason {
            TermCond::MachineEpsilonReached => "Machine Epsilon reached!",
            TermCond::TargetTolReached => "Target tolerance reached!",
            TermCond::TargetValReached => "Target value reached!",
            TermCond::MaxItersReached => "Maximum sampling iterations reached!",
            TermCond::MaxTimeReached => "Maximum wall-time reached!",
            TermCond::DidNotConverge => "Did not converge!",
        }
    }

    /// Number of samples the run evaluated.
    pub fn n_samples(&self) -> (r: usize)
        ensures
            r == self.parts().1,
    {
        self.n_samples
    }

    /// The best input found.
    pub fn min_x(&self) -> (r: &Vec<T>)
        ensures
            r@ == self.parts().2,
    {
        &self.min_x
    }

    /// The best value found.
    pub fn min_y(&self) -> (r: T)
        ensures
            r == self.parts().3,
    {
        self.min_y
    }
}

/// The ask/tell state of an optimization run: the latent observations, the
/// size of the current initial design, and the sample count against its budget.
#[derive(Debug, Clone)]
pub struct Orchestrator<T> {
    mem: BaseMemory<T>,
    n_design: usize,
    n_samples: usize,
    max_samples: Option<usize>,
    restarts: bool,
}

impl<T: Copy> Orchestrator<T> {
    /// The memory is well formed and of a dimension between 1 and `MAX_DIM`.
    pub closed spec fn wf(&self) -> bool {
        &&& self.mem.wf()
        &&& 1 <= self.mem.spec_dim() <= MAX_DIM
    }

    /// The dimension of the inputs.
    pub closed spec fn spec_dim(&self) -> nat {
        self.mem.spec_dim()
    }

    /// The stored latent inputs.
    pub closed spec fn xs(&self) -> Seq<Seq<T>> {
        self.mem.xs()
    }

    /// The stored latent outputs.
    pub closed spec fn ys(&self) -> Seq<T> {
        self.mem.ys()
    }

    /// How many points the current initial design holds, the kept best point
    /// of a restart included.
    pub closed spec fn spec_n_design(&self) -> nat {
        self.n_design as nat
    }

    /// Samples evaluated so far over the whole run.
    pub closed spec fn spec_n_samples(&self) -> nat {
        self.n_samples as nat
    }

    /// The configured sample budget.
    pub closed spec fn spec_max_samples(&self) -> Option<usize> {
        self.max_samples
    }

    /// Whether a collapse or target condition restarts the run.
    pub closed spec fn spec_restarts(&self) -> bool {
        self.restarts
    }

    /// The phase that the stored count and the design size give.
    pub open spec fn spec_phase(&self) -> Phase {
        if self.ys().len() < self.spec_n_design() {
            Phase::Init
        } else {
            Phase::Nominal
        }
    }

    /// A fresh run in `d` dimensions, starting with an initial design of
    /// `f_init(d)` points.
    pub fn new(d: usize, max_samples: Option<usize>, restarts: bool) -> (r: Self)
        requires
            1 <= d <= MAX_DIM,
        ensures
            r.wf(),
            r.spec_dim() == d,
            r.ys().len() == 0,
            r.xs().len() == 0,
            r.spec_n_design() == spec_f_init(d as int),
            r.spec_n_samples() == 0,
            r.spec_max_samples() == max_samples,
            r.spec_restarts() == restarts,
    {
        let n_design = f_init(d);
        Orchestrator { mem: BaseMemory::new(d), n_design, n_samples: 0, max_samples, restarts }
    }

    /// The dimension of the inputs.
    pub fn dim(&self) -> (r: usize)
        ensures
            r == self.spec_dim(),
    {
        self.mem.dim()
    }

    /// Number of stored observations.
    pub fn n(&self) -> (r: usize)
        requires
            self.wf(),
        ensures
            r == self.ys().len(),
    {
        self.mem.n()
    }

    /// Size of the current initial design.
    pub fn n_design(&self) -> (r: usize)
        ensures
            r == self.spec_n_design(),
    {
        self.n_design
    }

    /// Samples evaluated so far.
    pub fn n_samples(&self) -> (r: usize)
        ensures
            r == self.spec_n_samples(),
    {
        self.n_samples
    }

    /// The stored latent observations.
    pub fn memory(&self) -> (r: &BaseMemory<T>)
        ensures
            r.xs() == self.xs(),
            r.ys() == self.ys(),
            r.spec_dim() == self.spec_dim(),
            self.wf() ==> r.wf(),
    {
        &self.mem
    }

    /// The current phase.
    pub fn phase(&self) -> (r: Phase)
        requires
            self.wf(),
        ensures
            r == self.spec_phase(),
    {
        if self.mem.n() < self.n_design {
            Phase::Init
        } else {
            Phase::Nominal
        }
    }

    /// Where the next query point comes from: the next unevaluated design
    /// point while in the initial phase, the acquisition optimizer afterwards.
    pub fn ask_source(&self) -> (r: AskSource)
        requires
            self.wf(),
        ensures
            self.spec_phase() == Phase::Init ==> r == AskSource::Design(self.ys().len() as usize),
            self.spec_phase() == Phase::Nominal ==> r == AskSource::Acquisition,
    {
        let n = self.mem.n();
        if n < self.n_design {
            AskSource::Design(n)
        } else {
            AskSource::Acquisition
        }
    }

    /// Records an observation, already in latent coordinates, and counts the
    /// sample. Returns whether the transform, tuning and refit pipeline runs
    /// now, which it does once the initial design has been fully evaluated.
    pub fn tell(&mut self, x: &Vec<T>, y: T) -> (r: bool)
        requires
            old(self).wf(),
            x.len() == old(self).spec_dim(),
            old(self).spec_n_samples() < usize::MAX,
        ensures
            final(self).wf(),
            final(self).spec_dim() == old(self).spec_dim(),
            final(self).xs() == old(self).xs().push(x@),
            final(self).ys() == old(self).ys().push(y),
            final(self).spec_n_samples() == old(self).spec_n_samples() + 1,
            final(self).spec_n_design() == old(self).spec_n_design(),
            final(self).spec_max_samples() == old(self).spec_max_samples(),
            final(self).spec_restarts() == old(self).spec_restarts(),
            r == (final(self).spec_phase() == Phase::Nominal),
    {
        self.mem.append(x, y);
        self.n_samples = self.n_samples + 1;
        self.n_design <= self.mem.n()
    }

    /// Replaces the latent observations with re-expressed ones of the same
    /// count, as the coordinate transform does.
    pub fn set_observations(&mut self, xs: &Vec<Vec<T>>, ys: &Vec<T>)
        requires
            old(self).wf(),
            xs.len() == ys.len(),
            ys.len() == old(self).ys().len(),
            is_rect(xs@, old(self).spec_dim() as int),
        ensures
            final(self).wf(),
            final(self).spec_dim() == old(self).spec_dim(),
            final(self).xs() == crate::utils::cols_view(xs@),
            final(self).ys() == ys@,
            final(self).spec_n_samples() == old(self).spec_n_samples(),
            final(self).spec_n_design() == old(self).spec_n_design(),
            final(self).spec_max_samples() == old(self).spec_max_samples(),
            final(self).spec_restarts() == old(self).spec_restarts(),
    {
        let d = self.mem.dim();
        let mut m: BaseMemory<T> = BaseMemory::new(d);
        m.append_mult(xs, ys);
        assert(m.xs() =~= crate::utils::cols_view(xs@));
        assert(m.ys() =~= ys@);
        self.mem = m;
    }

    /// Forgets stale points: removes, in storage order, up to `f_discard(d)` of
    /// the points flagged as outside the trust region, never going below the
    /// size of the initial design. Returns how many were removed.
    pub fn forget(&mut self, outside: &Vec<bool>) -> (r: usize)
        requires
            old(self).wf(),
            outside.len() == old(self).ys().len(),
        ensures
            final(self).wf(),
            final(self).spec_dim() == old(self).spec_dim(),
            final(self).ys() == kept_upto(
                old(self).ys(),
                outside@,
                outside.len() as int,
                discard_limit(
                    outside.len() as int,
                    spec_f_discard(old(self).spec_dim() as int),
                    old(self).spec_n_design() as int,
                ),
            ),
            final(self).xs() == kept_upto(
                old(self).xs(),
                outside@,
                outside.len() as int,
                discard_limit(
                    outside.len() as int,
                    spec_f_discard(old(self).spec_dim() as int),
                    old(self).spec_n_design() as int,
                ),
            ),
            final(self).ys().len() + r == old(self).ys().len(),
            final(self).ys().len() <= old(self).ys().len(),
            r <= spec_f_discard(old(self).spec_dim() as int),
            old(self).ys().len() >= old(self).spec_n_design() ==> final(self).ys().len()
                >= old(self).spec_n_design(),
            final(self).spec_n_samples() == old(self).spec_n_samples(),
            final(self).spec_n_design() == old(self).spec_n_design(),
            final(self).spec_max_samples() == old(self).spec_max_samples(),
            final(self).spec_restarts() == old(self).spec_restarts(),
    {
        let m = f_discard(self.mem.dim());
        let r = self.mem.forget(outside, m, self.n_design);
        proof {
            lemma_forget_bound(old(self).ys(), outside@, m as int, self.n_design as int);
            crate::memory::lemma_forget_counts(
                old(self).ys(),
                outside@,
                outside.len() as int,
                discard_limit(outside.len() as int, m as int, self.n_design as int),
            );
        }
        r
    }

    /// Restarts the run around observation `best`: every other point is
    /// dropped and a smaller initial design of `f_init(d - 1)` new points
    /// follows the kept one.
    pub fn restart(&mut self, best: usize)
        requires
            old(self).wf(),
            best < old(self).ys().len(),
        ensures
            final(self).wf(),
            final(self).spec_dim() == old(self).spec_dim(),
            final(self).xs() == seq![old(self).xs()[best as int]],
            final(self).ys() == seq![old(self).ys()[best as int]],
            final(self).spec_n_design() == spec_f_init(old(self).spec_dim() - 1) + 1,
            final(self).spec_phase() == Phase::Init,
            final(self).spec_n_samples() == old(self).spec_n_samples(),
            final(self).spec_max_samples() == old(self).spec_max_samples(),
            final(self).spec_restarts() == old(self).spec_restarts(),
    {
        self.mem.retain_only(best);
        let d = self.mem.dim();
        self.n_design = f_init(d - 1) + 1;
    }

    /// The termination condition that holds after a `tell`, given the tests
    /// on floating-point state made by the caller.
    pub fn check(
        &self,
        scale_below_tol: bool,
        tol_is_machine_eps: bool,
        target_reached: bool,
        time_exceeded: bool,
    ) -> (r: Option<TermCond>)
        ensures
            r == spec_check_converged(
                scale_below_tol,
                tol_is_machine_eps,
                target_reached,
                self.spec_n_samples() as usize,
                self.spec_max_samples(),
                time_exceeded,
            ),
    {
        check_converged(
            scale_below_tol,
            tol_is_machine_eps,
            target_reached,
            self.n_samples,
            self.max_samples,
            time_exceeded,
        )
    }

    /// What the run loop does on a termination condition, under this run's
    /// restart setting.
    pub fn on_termination(&self, term: TermCond) -> (r: RunAction)
        ensures
            r == spec_after_termination(term, self.spec_restarts()),
    {
        after_termination(term, self.restarts)
    }
}

} // verus!
