use vstd::prelude::*;

verus! {

/// How a bound-constrained minimization ended with a usable point.
#[derive(Debug, Clone, Copy, PartialEq, Eq, Structural)]
pub enum ConvergenceTypes {
    PgtolReached,
    TermCondReached,
    LinesearchExhausted,
    MaxItersReached,
}

/// What the driver does after the solver has taken a step and set its task code.
#[derive(Debug, Clone, Copy, PartialEq, Eq, Structural)]
pub enum TaskVerdict {
    /// Call the solver again.
    Continue,
    /// Stop: with the reason for a usable point, or `None` for a failure that
    /// left no usable point.
    Stop(Option<ConvergenceTypes>),
}

/// Task codes of the solver in which it asks for the objective and gradient
/// at a new point.
pub open spec fn spec_needs_evaluation(task: i64) -> bool {
    10 <= task <= 15
}

/// The verdict for a task code, given the iterations so far and the iteration
/// cap (0 for none). Checked in order: iteration finished, cap reached,
/// projected-gradient tolerance, function tolerance, line search exhausted,
/// error codes.
pub open spec fn spec_task_verdict(task: i64, iters: i64, max_iter: u32) -> TaskVerdict {
    if task == 2 {
        TaskVerdict::Continue
    } else if max_iter > 0 && iters >= max_iter {
        TaskVerdict::Stop(Some(ConvergenceTypes::MaxItersReached))
    } else if task == 21 {
        TaskVerdict::Stop(Some(ConvergenceTypes::PgtolReached))
    } else if task == 22 {
        TaskVerdict::Stop(Some(ConvergenceTypes::TermCondReached))
    } else if task == 3 {
        TaskVerdict::Stop(Some(ConvergenceTypes::LinesearchExhausted))
    } else if 200 <= task <= 240 {
        TaskVerdict::Stop(None)
    } else {
        TaskVerdict::Continue
    }
}

/// Whether the solver asks for the objective and gradient at its current point.
pub fn needs_evaluation(task: i64) -> (r: bool)
    ensures
        r == spec_needs_evaluation(task),
{
    10 <= task && task <= 15
}

/// The verdict for a task code.
pub fn task_verdict(task: i64, iters: i64, max_iter: u32) -> (r: TaskVerdict)
    ensures
        r == spec_task_verdict(task, iters, max_iter),
{
    if task == 2 {
        TaskVerdict::Continue
    } else if max_iter > 0 && iters >= max_iter as i64 {
        TaskVerdict::Stop(Some(ConvergenceTypes::MaxItersReached))
    } else if task == 21 {
        TaskVerdict::Stop(Some(ConvergenceTypes::PgtolReached))
    } else if task == 22 {
        TaskVerdict::Stop(Some(ConvergenceTypes::TermCondReached))
    } else if task == 3 {
        TaskVerdict::Stop(Some(ConvergenceTypes::LinesearchExhausted))
    } else if 200 <= task && task <= 240 {
        TaskVerdict::Stop(None)
    } else {
        TaskVerdict::Continue
    }
}

/// The solver's per-variable bound code: 0 free, 1 lower only, 2 both, 3 upper only.
pub open spec fn bound_code(has_lower: bool, has_upper: bool) -> i64 {
    if has_lower && has_upper {
        2
    } else if has_lower {
        1
    } else if has_upper {
        3
    } else {
        0
    }
}

/// Whether a bound code carries a lower bound.
pub open spec fn code_has_lower(code: i64) -> bool {
    code == 1 || code == 2
}

/// Whether a bound code carries an upper bound.
pub open spec fn code_has_upper(code: i64) -> bool {
    code == 2 || code == 3
}

/// A valid bound code.
pub open spec fn valid_code(code: i64) -> bool {
    0 <= code <= 3
}

/// The bound code after giving the variable a lower bound; a code that
/// already has one is unchanged.
pub fn with_lower_bound(code: i64) -> (r: i64)
    requires
        valid_code(code),
    ensures
        r == bound_code(true, code_has_upper(code)),
        code_has_lower(code) ==> r == code,
{
    if code == 1 || code == 2 {
        code
    } else {
        let t = code - 1;
        if t < 0 {
            -t
        } else {
            t
        }
    }
}

/// The bound code after giving the variable an upper bound; a code that
/// already has one is unchanged.
pub fn with_upper_bound(code: i64) -> (r: i64)
    requires
        valid_code(code),
    ensures
        r == bound_code(code_has_lower(code), true),
        code_has_upper(code) ==> r == code,
{
    if code == 3 || code == 2 {
        code
    } else {
        3 - code
    }
}

/// Length of the solver's real workspace for `n` variables and `m` stored
/// corrections: `2mn + 5n + 11m² + 8m`.
pub open spec fn spec_workspace_len(n: int, m: int) -> int {
    2 * m * n + 5 * n + 11 * m * m + 8 * m
}

/// Length of the solver's real workspace.
pub fn workspace_len(n: usize, m: usize) -> (r: usize)
    requires
        n <= 1_000_000,
        m <= 100,
    ensures
        r == spec_workspace_len(n as int, m as int),
{
    assert(2 * m * n <= 200_000_000) by (nonlinear_arith)
        requires
            n <= 1_000_000,
            m <= 100,
    ;
    assert(11 * m * m <= 110_000) by (nonlinear_arith)
        requires
            m <= 100,
    ;
    2 * m * n + 5 * n + 11 * m * m + 8 * m
}

} // verus!
