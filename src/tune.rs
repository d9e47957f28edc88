use vstd::prelude::*;

verus! {

/// Number of trial steps each branch of the line search may take.
pub const BACKTRACK_N: u32 = 5;

/// Why a tuning step could not complete.
#[derive(Debug, Clone, Copy, PartialEq, Eq, Structural)]
pub enum TuneError {
    /// The covariance matrix could not be factorized.
    FitFailed,
}

/// A strategy that adjusts a surrogate's hyperparameters.
pub trait SurrogateTuning<S> {
    fn tune(&self, sur: &mut S) -> Result<(), TuneError>;
}

/// Something that carries a tuning strategy.
pub trait TuningStrategy<S> {
    type TuningType: SurrogateTuning<S>;

    fn tuning_strategy(&self) -> &Self::TuningType;

    fn tuning_strategy_mut(&mut self) -> &mut Self::TuningType;
}

/// The strategy that leaves the hyperparameters as they are.
#[derive(Debug, Clone, Copy, Default, PartialEq, Eq, Structural)]
pub struct NoTuning {}

impl<S> SurrogateTuning<S> for NoTuning {
    fn tune(&self, _sur: &mut S) -> Result<(), TuneError> {
        Ok(())
    }
}

/// Which step direction the line search is currently trying.
#[derive(Debug, Clone, Copy, PartialEq, Eq, Structural)]
pub enum TuneBranch {
    /// The damped Newton step `H⁻¹·g`, scaled by `0.5^k` on trial `k`.
    Newton,
    /// The plain gradient step, scaled by `0.1^k` on trial `k`.
    Gradient,
}

/// What the tuner does next.
#[derive(Debug, Clone, Copy, PartialEq, Eq, Structural)]
pub enum TuneStep {
    /// Evaluate the penalized likelihood at the given branch and trial.
    Trial(TuneBranch, u32),
    /// Keep the hyperparameters of the given branch and trial.
    Accept(TuneBranch, u32),
    /// Restore the baseline hyperparameters and refit.
    Revert,
}

/// The first step: Newton where the length-scale block of the negative
/// Hessian is positive-definite, the gradient otherwise.
pub open spec fn spec_first_step(hessian_valid: bool) -> TuneStep {
    if hessian_valid {
        TuneStep::Trial(TuneBranch::Newton, 0)
    } else {
        TuneStep::Trial(TuneBranch::Gradient, 0)
    }
}

/// The step after a trial, given whether it improved on the baseline.
pub open spec fn spec_next_step(branch: TuneBranch, attempt: u32, improved: bool) -> TuneStep {
    if improved {
        TuneStep::Accept(branch, attempt)
    } else if attempt + 1 < BACKTRACK_N {
        TuneStep::Trial(branch, (attempt + 1) as u32)
    } else {
        match branch {
            TuneBranch::Newton => TuneStep::Trial(TuneBranch::Gradient, 0),
            TuneBranch::Gradient => TuneStep::Revert,
        }
    }
}

/// Where the line search ends up when the trials report `outcomes` in turn.
pub open spec fn run_trials(step: TuneStep, outcomes: Seq<bool>) -> TuneStep
    decreases outcomes.len(),
{
    match step {
        TuneStep::Trial(b, a) => if outcomes.len() == 0 {
            step
        } else {
            run_trials(spec_next_step(b, a, outcomes[0]), outcomes.drop_first())
        },
        _ => step,
    }
}

/// The largest number of failed trials the search can still take from a step.
pub open spec fn trials_left(step: TuneStep) -> int {
    match step {
        TuneStep::Trial(TuneBranch::Newton, a) => 2 * BACKTRACK_N - a,
        TuneStep::Trial(TuneBranch::Gradient, a) => BACKTRACK_N - a,
        _ => 0,
    }
}

/// The divisor `base^attempt` of the trial step, with base 2 for Newton and
/// 10 for the gradient.
pub open spec fn step_divisor(branch: TuneBranch, attempt: nat) -> nat
    decreases attempt,
{
    if attempt == 0 {
        1
    } else {
        let b: nat = match branch {
            TuneBranch::Newton => 2,
            TuneBranch::Gradient => 10,
        };
        b * step_divisor(branch, (attempt - 1) as nat)
    }
}

/// The penalized maximum-likelihood tuner: a damped Newton search falling back
/// to a gradient search, both backtracking, reverting when neither improves.
#[allow(non_camel_case_types)]
#[derive(Debug, Clone, Copy)]
pub struct LABCAT_GPTune<T> {
    prior_sigma: T,
}

impl<T: Copy> LABCAT_GPTune<T> {
    /// The standard deviation of the Gaussian prior on the log length-scales.
    pub closed spec fn spec_prior_sigma(&self) -> T {
        self.prior_sigma
    }

    /// A tuner with the given prior standard deviation.
    pub fn new(prior_sigma: T) -> (r: Self)
        ensures
            r.spec_prior_sigma() == prior_sigma,
    {
        LABCAT_GPTune { prior_sigma }
    }

    /// The standard deviation of the prior on the log length-scales.
    pub fn prior_sigma(&self) -> (r: &T)
        ensures
            *r == self.spec_prior_sigma(),
    {
        &self.prior_sigma
    }

    /// The first step of a tuning round.
    pub fn first_step(hessian_valid: bool) -> (r: TuneStep)
        ensures
            r == spec_first_step(hessian_valid),
    {
        if hessian_valid {
            TuneStep::Trial(TuneBranch::Newton, 0)
        } else {
            TuneStep::Trial(TuneBranch::Gradient, 0)
        }
    }

    /// The step after a trial; `improved` is whether the penalized likelihood
    /// at the trial point was strictly above the baseline.
    pub fn next_step(branch: TuneBranch, attempt: u32, improved: bool) -> (r: TuneStep)
        requires
            attempt < BACKTRACK_N,
        ensures
            r == spec_next_step(branch, attempt, improved),
    {
        if improved {
            TuneStep::Accept(branch, attempt)
        } else if attempt + 1 < BACKTRACK_N {
            TuneStep::Trial(branch, attempt + 1)
        } else {
            match branch {
                TuneBranch::Newton => TuneStep::Trial(TuneBranch::Gradient, 0),
                TuneBranch::Gradient => TuneStep::Revert,
            }
        }
    }

    /// The divisor of the trial step: the step taken is `delta / divisor`.
    pub fn step_divisor(branch: TuneBranch, attempt: u32) -> (r: u64)
        requires
            attempt < BACKTRACK_N,
        ensures
            r as nat == step_divisor(branch, attempt as nat),
    {
        let base: u64 = match branch {
            TuneBranch::Newton => 2,
            TuneBranch::Gradient => 10,
        };
        let mut r: u64 = 1;
        let mut k: u32 = 0;
        while k < attempt
            invariant
                k <= attempt < BACKTRACK_N,
                base == (match branch {
                    TuneBranch::Newton => 2nat,
                    TuneBranch::Gradient => 10nat,
                }),
                r as nat == step_divisor(branch, k as nat),
                r <= 10000,
            decreases attempt - k,
        {
            r = r * base;
            k = k + 1;
            proof {
                lemma_divisor_bound(branch, k as nat);
            }
        }
        r
    }
}

proof fn lemma_divisor_bound(branch: TuneBranch, k: nat)
    requires
        k <= 4,
    ensures
        step_divisor(branch, k) <= 10000,
{
    reveal_with_fuel(step_divisor, 5);
}

/// When no trial improves on the baseline, the search reverts, after at most
/// `trials_left` trials.
pub proof fn lemma_revert_when_nothing_improves(step: TuneStep, outcomes: Seq<bool>)
    requires
        step matches TuneStep::Trial(_, a) && a < BACKTRACK_N,
        outcomes.len() >= trials_left(step),
        forall|k: int| 0 <= k < outcomes.len() ==> !outcomes[k],
    ensures
        run_trials(step, outcomes) == TuneStep::Revert,
    decreases outcomes.len(),
{
    if let TuneStep::Trial(b, a) = step {
        let nx = spec_next_step(b, a, outcomes[0]);
        if nx != TuneStep::Revert {
            lemma_revert_when_nothing_improves(nx, outcomes.drop_first());
        }
    }
}

/// The tuner never leaves the surrogate worse than it found it: a round ends
/// by accepting only a trial that improved on the baseline, and ends by
/// reverting to the baseline when no trial improves.
pub proof fn lemma_tune_never_worse(hessian_valid: bool, outcomes: Seq<bool>)
    ensures
        run_trials(spec_first_step(hessian_valid), outcomes) matches TuneStep::Accept(_, _)
            ==> exists|k: int| 0 <= k < outcomes.len() && outcomes[k],
        (outcomes.len() >= 2 * BACKTRACK_N && forall|k: int| 0 <= k < outcomes.len() ==> !outcomes[k])
            ==> run_trials(spec_first_step(hessian_valid), outcomes) == TuneStep::Revert,
{
    lemma_accept_needs_improvement(spec_first_step(hessian_valid), outcomes);
    if outcomes.len() >= 2 * BACKTRACK_N && forall|k: int| 0 <= k < outcomes.len() ==> !outcomes[k] {
        lemma_revert_when_nothing_improves(spec_first_step(hessian_valid), outcomes);
    }
}

/// Starting from a trial, the search accepts only after some trial improved.
pub proof fn lemma_accept_needs_improvement(step: TuneStep, outcomes: Seq<bool>)
    requires
        step matches TuneStep::Trial(_, _),
    ensures
        run_trials(step, outcomes) matches TuneStep::Accept(_, _) ==> exists|k: int|
            0 <= k < outcomes.len() && outcomes[k],
    decreases outcomes.len(),
{
    if let TuneStep::Trial(b, a) = step {
        if outcomes.len() > 0 {
            let nx = spec_next_step(b, a, outcomes[0]);
            if outcomes[0] {
                assert(0 <= 0 < outcomes.len() && outcomes[0]);
            } else if nx matches TuneStep::Trial(_, _) {
                lemma_accept_needs_improvement(nx, outcomes.drop_first());
                if run_trials(step, outcomes) matches TuneStep::Accept(_, _) {
                    let k = choose|k: int| 0 <= k < outcomes.drop_first().len() && outcomes.drop_first()[k];
                    assert(outcomes[k + 1]);
                }
            }
        }
    }
}

} // verus!
