//! The secant method.
//!
//! One iteration on the iterates `x0`, `x1` of a residual function `f` goes:
//!
//! 1. `f(x0)`, `f(x1)` and the gap `f(x1) - f(x0)` are computed;
//! 2. if `|f(x1)| <= ftol`, the run succeeds at `x1`;
//! 3. else if `|f(x1) - f(x0)| <= ftol`, the slope is degenerate and the run
//!    fails;
//! 4. else the update `x2 = x1 - f(x1) * (x1 - x0) / (f(x1) - f(x0))` and the
//!    step `x2 - x1` are computed;
//! 5. if `|x2 - x1| <= xtol`, the run succeeds at `x2`;
//! 6. else the iterates become `x1`, `x2`, and the next iteration begins, or
//!    the run fails when `max_iter` iterations are used up.
//!
//! [`SecantSolver`] makes the decisions of a run, one report at a time, for a
//! caller that computes the numbers itself. [`secant`] runs the whole method,
//! computing with the numerics it is handed.

use crate::binary64::Binary64;
use crate::numerics::{Functions, Numerics};
use vstd::prelude::*;

verus! {

/// What convergence criterion triggered success.
#[derive(Debug, Clone, Copy, PartialEq, Eq, Structural)]
pub enum ConvergenceType {
    /// The last step was within the step tolerance: `|x_n - x_{n-1}| <= xtol`.
    XTolerance,
    /// The residual was within the residual tolerance: `|f(x_n)| <= ftol`.
    FTolerance,
}

/// Errors that can end a run of the secant method.
#[derive(Debug, Clone, Copy, PartialEq, Eq, Structural)]
pub enum SecantError {
    /// Neither tolerance was met within the maximum number of iterations.
    MaxIterationsExceeded,
    /// The denominator `f(x1) - f(x0)` was within the residual tolerance of
    /// zero: a repeated root, a flat residual, or stagnation.
    DivisionByZero,
}

/// Result of a successful run.
#[derive(Debug, Clone, Copy)]
pub struct SecantOk {
    /// Estimated root.
    pub root: Binary64,
    /// Number of iterations completed before the one that succeeded.
    pub iterations: usize,
    /// Which convergence criterion ended the run.
    pub convergence_type: ConvergenceType,
}

/// Where a run stands: what the solver waits for, or how it ended.
#[derive(Debug, Clone, Copy)]
pub enum SecantStage {
    /// The residual at the newer iterate and the residual gap are wanted.
    Residuals,
    /// The secant update is wanted. The fields repeat what was reported.
    Update { residual: Binary64, gap: Binary64 },
    /// The run is over.
    Finished(Result<SecantOk, SecantError>),
}

/// A run of the secant method.
#[derive(Debug, Clone, Copy)]
pub struct SecantSolver {
    /// The older iterate.
    pub x0: Binary64,
    /// The newer iterate.
    pub x1: Binary64,
    /// Absolute tolerance on the step between iterates.
    pub xtol: Binary64,
    /// Absolute tolerance on the residual.
    pub ftol: Binary64,
    /// Maximum number of iterations.
    pub max_iter: usize,
    /// Number of iterations completed.
    pub iteration: usize,
    /// What comes next.
    pub stage: SecantStage,
}

/// Whether `|x| <= tolerance` holds of the values. False when either is a NaN.
pub open spec fn within(x: Binary64, tolerance: Binary64) -> bool {
    x@.abs().le(tolerance@)
}

/// Decides `|x| <= tolerance`.
pub fn is_within(x: Binary64, tolerance: Binary64) -> (r: bool)
    ensures
        r == within(x, tolerance),
{
    x.abs().le(tolerance)
}

impl SecantSolver {
    /// The counter agrees with the stage: an unfinished run has iterations
    /// left, and a success reports the iteration it happened in.
    pub open spec fn wf(self) -> bool {
        match self.stage {
            SecantStage::Finished(Ok(ok)) => ok.iterations == self.iteration && self.iteration
                < self.max_iter,
            SecantStage::Finished(Err(_)) => self.iteration <= self.max_iter,
            _ => self.iteration < self.max_iter,
        }
    }

    /// The run before its first iteration. With no iteration allowed it has
    /// already failed.
    pub open spec fn start(
        x0: Binary64,
        x1: Binary64,
        xtol: Binary64,
        ftol: Binary64,
        max_iter: usize,
    ) -> SecantSolver {
        SecantSolver {
            x0,
            x1,
            xtol,
            ftol,
            max_iter,
            iteration: 0,
            stage: if max_iter == 0 {
                SecantStage::Finished(Err(SecantError::MaxIterationsExceeded))
            } else {
                SecantStage::Residuals
            },
        }
    }

    /// The run after `residual = f(x1)` and `gap = f(x1) - f(x0)` are
    /// reported. The residual tolerance is tried on the residual first, then
    /// on the gap. A run that does not wait for residuals is left as it is.
    pub open spec fn after_residuals(self, residual: Binary64, gap: Binary64) -> SecantSolver {
        if self.stage is Residuals {
            SecantSolver {
                stage: if within(residual, self.ftol) {
                    SecantStage::Finished(
                        Ok(
                            SecantOk {
                                root: self.x1,
                                iterations: self.iteration,
                                convergence_type: ConvergenceType::FTolerance,
                            },
                        ),
                    )
                } else if within(gap, self.ftol) {
                    SecantStage::Finished(Err(SecantError::DivisionByZero))
                } else {
                    SecantStage::Update { residual, gap }
                },
                ..self
            }
        } else {
            self
        }
    }

    /// The run after the secant update `candidate` and `step = candidate - x1`
    /// are reported. A step within the step tolerance ends the run at the
    /// candidate. Otherwise the iterates shift, and the run goes on if
    /// iterations are left. A run that does not wait for an update is left as
    /// it is.
    pub open spec fn after_update(self, candidate: Binary64, step: Binary64) -> SecantSolver {
        if self.stage is Update {
            if within(step, self.xtol) {
                SecantSolver {
                    stage: SecantStage::Finished(
                        Ok(
                            SecantOk {
                                root: candidate,
                                iterations: self.iteration,
                                convergence_type: ConvergenceType::XTolerance,
                            },
                        ),
                    ),
                    ..self
                }
            } else if self.iteration + 1 < self.max_iter {
                SecantSolver {
                    x0: self.x1,
                    x1: candidate,
                    iteration: (self.iteration + 1) as usize,
                    stage: SecantStage::Residuals,
                    ..self
                }
            } else {
                SecantSolver {
                    x0: self.x1,
                    x1: candidate,
                    iteration: self.max_iter,
                    stage: SecantStage::Finished(Err(SecantError::MaxIterationsExceeded)),
                    ..self
                }
            }
        } else {
            self
        }
    }

    /// Starts a run from the initial estimates `x0` and `x1`.
    pub fn new(x0: Binary64, x1: Binary64, xtol: Binary64, ftol: Binary64, max_iter: usize) -> (r:
        SecantSolver)
        ensures
            r == SecantSolver::start(x0, x1, xtol, ftol, max_iter),
            r.wf(),
    {
        let stage = if max_iter == 0 {
            SecantStage::Finished(Err(SecantError::MaxIterationsExceeded))
        } else {
            SecantStage::Residuals
        };
        SecantSolver { x0, x1, xtol, ftol, max_iter, iteration: 0, stage }
    }

    /// Takes the residual at the newer iterate and the residual gap.
    pub fn report_residuals(&mut self, residual: Binary64, gap: Binary64)
        ensures
            *final(self) == old(self).after_residuals(residual, gap),
            old(self).wf() ==> final(self).wf(),
    {
        if let SecantStage::Residuals = self.stage {
            if is_within(residual, self.ftol) {
                self.stage = SecantStage::Finished(
                    Ok(
                        SecantOk {
                            root: self.x1,
                            iterations: self.iteration,
                            convergence_type: ConvergenceType::FTolerance,
                        },
                    ),
                );
            } else if is_within(gap, self.ftol) {
                self.stage = SecantStage::Finished(Err(SecantError::DivisionByZero));
            } else {
                self.stage = SecantStage::Update { residual, gap };
            }
        }
    }

    /// Takes the secant update and the step that it makes.
    pub fn report_update(&mut self, candidate: Binary64, step: Binary64)
        ensures
            *final(self) == old(self).after_update(candidate, step),
            old(self).wf() ==> final(self).wf(),
    {
        if let SecantStage::Update { .. } = self.stage {
            if is_within(step, self.xtol) {
                self.stage = SecantStage::Finished(
                    Ok(
                        SecantOk {
                            root: candidate,
                            iterations: self.iteration,
                            convergence_type: ConvergenceType::XTolerance,
                        },
                    ),
                );
            } else {
                self.x0 = self.x1;
                self.x1 = candidate;
                if self.iteration < self.max_iter && self.max_iter - self.iteration > 1 {
                    self.iteration = self.iteration + 1;
                    self.stage = SecantStage::Residuals;
                } else {
                    self.iteration = self.max_iter;
                    self.stage = SecantStage::Finished(Err(SecantError::MaxIterationsExceeded));
                }
            }
        }
    }

    /// How the run ended, once it has.
    pub fn outcome(&self) -> (r: Option<Result<SecantOk, SecantError>>)
        ensures
            r == match self.stage {
                SecantStage::Finished(result) => Some(result),
                _ => None,
            },
    {
        match self.stage {
            SecantStage::Finished(result) => Some(result),
            _ => None,
        }
    }
}

/// The numbers computed in one iteration on the iterates `x0`, `x1`. A run
/// reads the residual, the gap, the candidate and the step; the others are
/// what those were made from.
pub struct Iteration {
    /// `f(x0)`.
    pub older_residual: Binary64,
    /// `f(x1)`.
    pub residual: Binary64,
    /// `f(x1) - f(x0)`.
    pub gap: Binary64,
    /// `x1 - x0`.
    pub spread: Binary64,
    /// `f(x1) * (x1 - x0)`.
    pub numerator: Binary64,
    /// `f(x1) * (x1 - x0) / (f(x1) - f(x0))`.
    pub ratio: Binary64,
    /// The secant update `x2`: `x1` less the ratio.
    pub candidate: Binary64,
    /// `x2 - x1`.
    pub step: Binary64,
}

/// One iteration on the iterates `x0`, `x1`, with residual and operations
/// given as functions.
pub open spec fn iteration_of(
    residual: spec_fn(Binary64) -> Binary64,
    functions: Functions,
    x0: Binary64,
    x1: Binary64,
) -> Iteration {
    let f0 = residual(x0);
    let f1 = residual(x1);
    let gap = (functions.difference)(f1, f0);
    let spread = (functions.difference)(x1, x0);
    let numerator = (functions.product)(f1, spread);
    let ratio = (functions.quotient)(numerator, gap);
    let candidate = (functions.difference)(x1, ratio);
    Iteration {
        older_residual: f0,
        residual: f1,
        gap,
        spread,
        numerator,
        ratio,
        candidate,
        step: (functions.difference)(candidate, x1),
    }
}

/// The secant method as a recursion: the outcome of iterations `i` and later
/// on the iterates `x0`, `x1`, with residual and operations given as
/// functions.
pub open spec fn secant_outcome(
    residual: spec_fn(Binary64) -> Binary64,
    functions: Functions,
    x0: Binary64,
    x1: Binary64,
    xtol: Binary64,
    ftol: Binary64,
    max_iter: usize,
    i: usize,
) -> Result<SecantOk, SecantError>
    decreases max_iter - i,
{
    if i >= max_iter {
        Err(SecantError::MaxIterationsExceeded)
    } else {
        let now = iteration_of(residual, functions, x0, x1);
        if within(now.residual, ftol) {
            Ok(SecantOk { root: x1, iterations: i, convergence_type: ConvergenceType::FTolerance })
        } else if within(now.gap, ftol) {
            Err(SecantError::DivisionByZero)
        } else if within(now.step, xtol) {
            Ok(
                SecantOk {
                    root: now.candidate,
                    iterations: i,
                    convergence_type: ConvergenceType::XTolerance,
                },
            )
        } else {
            secant_outcome(
                residual,
                functions,
                x1,
                now.candidate,
                xtol,
                ftol,
                max_iter,
                (i + 1) as usize,
            )
        }
    }
}

impl SecantSolver {
    /// The run after the reports of one whole iteration.
    pub open spec fn after_iteration(self, seen: Iteration) -> SecantSolver {
        self.after_residuals(seen.residual, seen.gap).after_update(seen.candidate, seen.step)
    }

    /// The run after the iterations `seen`, in order.
    pub open spec fn after_iterations(self, seen: Seq<Iteration>) -> SecantSolver
        decreases seen.len(),
    {
        if seen.len() == 0 {
            self
        } else {
            self.after_iterations(seen.drop_last()).after_iteration(seen.last())
        }
    }

    /// The run taken to its end, with residual and operations given as
    /// functions.
    spec fn driven(
        self,
        residual: spec_fn(Binary64) -> Binary64,
        functions: Functions,
    ) -> SecantSolver
        decreases self.max_iter - self.iteration,
    {
        if self.stage is Residuals && self.iteration < self.max_iter {
            let next = self.after_iteration(iteration_of(residual, functions, self.x0, self.x1));
            if next.stage is Residuals {
                next.driven(residual, functions)
            } else {
                next
            }
        } else {
            self
        }
    }
}

/// The residual tolerance is tried on the residual before it is tried on the
/// gap: a residual within tolerance ends the run in success whatever the gap.
pub proof fn lemma_residual_is_tried_first(solver: SecantSolver, residual: Binary64, gap: Binary64)
    requires
        solver.stage is Residuals,
        within(residual, solver.ftol),
    ensures
        solver.after_residuals(residual, gap).stage == SecantStage::Finished(
            Ok(
                SecantOk {
                    root: solver.x1,
                    iterations: solver.iteration,
                    convergence_type: ConvergenceType::FTolerance,
                },
            ),
        ),
{
}

/// A run is over once `max_iter` iterations have reported, whatever they
/// reported, and a success names an iteration below `max_iter`.
pub proof fn lemma_run_ends(
    x0: Binary64,
    x1: Binary64,
    xtol: Binary64,
    ftol: Binary64,
    max_iter: usize,
    seen: Seq<Iteration>,
)
    ensures
        SecantSolver::start(x0, x1, xtol, ftol, max_iter).after_iterations(seen).wf(),
        seen.len() >= max_iter ==> SecantSolver::start(x0, x1, xtol, ftol, max_iter).after_iterations(
            seen,
        ).stage is Finished,
        SecantSolver::start(x0, x1, xtol, ftol, max_iter).after_iterations(seen).stage
            matches SecantStage::Finished(Ok(ok)) ==> ok.iterations < max_iter && ok.iterations
            < seen.len(),
{
    lemma_iterations_count(x0, x1, xtol, ftol, max_iter, seen);
}

/// After `n` iterations a run is over or has counted `n` iterations and waits
/// for residuals.
proof fn lemma_iterations_count(
    x0: Binary64,
    x1: Binary64,
    xtol: Binary64,
    ftol: Binary64,
    max_iter: usize,
    seen: Seq<Iteration>,
)
    ensures
        ({
            let run = SecantSolver::start(x0, x1, xtol, ftol, max_iter).after_iterations(seen);
            &&& run.wf()
            &&& run.max_iter == max_iter
            &&& match run.stage {
                SecantStage::Residuals => run.iteration == seen.len(),
                SecantStage::Update { .. } => false,
                SecantStage::Finished(Ok(ok)) => ok.iterations < seen.len(),
                SecantStage::Finished(Err(_)) => true,
            }
        }),
    decreases seen.len(),
{
    if seen.len() > 0 {
        lemma_iterations_count(x0, x1, xtol, ftol, max_iter, seen.drop_last());
    }
}

/// What a success of the secant recursion is worth. It names an iteration
/// from `i` on and below `max_iter`. By the residual tolerance, the residual
/// at the root is within `ftol`. By the step tolerance, the root is the
/// secant update of two points, and lies within `xtol` of the newer of them.
pub proof fn lemma_success_meets_tolerance(
    residual: spec_fn(Binary64) -> Binary64,
    functions: Functions,
    x0: Binary64,
    x1: Binary64,
    xtol: Binary64,
    ftol: Binary64,
    max_iter: usize,
    i: usize,
)
    ensures
        secant_outcome(residual, functions, x0, x1, xtol, ftol, max_iter, i) matches Ok(ok) ==> {
            &&& i <= ok.iterations < max_iter
            &&& ok.convergence_type == ConvergenceType::FTolerance ==> within(
                residual(ok.root),
                ftol,
            )
            &&& ok.convergence_type == ConvergenceType::XTolerance ==> exists|
                a: Binary64,
                b: Binary64,
            |
                ok.root == (#[trigger] iteration_of(residual, functions, a, b)).candidate && within(
                    (functions.difference)(ok.root, b),
                    xtol,
                )
        },
    decreases max_iter - i,
{
    if i < max_iter {
        let now = iteration_of(residual, functions, x0, x1);
        if !within(now.residual, ftol) && !within(now.gap, ftol) && !within(now.step, xtol) {
            lemma_success_meets_tolerance(
                residual,
                functions,
                x1,
                now.candidate,
                xtol,
                ftol,
                max_iter,
                (i + 1) as usize,
            );
        }
    }
}

/// Taken to its end with residual and operations given as functions, a run
/// ends as the secant recursion does.
proof fn lemma_driven_run_is_secant(
    residual: spec_fn(Binary64) -> Binary64,
    functions: Functions,
    x0: Binary64,
    x1: Binary64,
    xtol: Binary64,
    ftol: Binary64,
    max_iter: usize,
)
    ensures
        SecantSolver::start(x0, x1, xtol, ftol, max_iter).driven(residual, functions).stage
            == SecantStage::Finished(
            secant_outcome(residual, functions, x0, x1, xtol, ftol, max_iter, 0),
        ),
{
    let run = SecantSolver::start(x0, x1, xtol, ftol, max_iter);
    if max_iter > 0 {
        lemma_driven_from(residual, functions, run);
    }
}

/// The same, from any iteration on.
proof fn lemma_driven_from(
    residual: spec_fn(Binary64) -> Binary64,
    functions: Functions,
    run: SecantSolver,
)
    requires
        run.stage is Residuals,
        run.iteration < run.max_iter,
    ensures
        run.driven(residual, functions).stage == SecantStage::Finished(
            secant_outcome(
                residual,
                functions,
                run.x0,
                run.x1,
                run.xtol,
                run.ftol,
                run.max_iter,
                run.iteration,
            ),
        ),
    decreases run.max_iter - run.iteration,
{
    let next = run.after_iteration(iteration_of(residual, functions, run.x0, run.x1));
    if next.stage is Residuals {
        lemma_driven_from(residual, functions, next);
    } else if next.stage == SecantStage::Finished(Err(SecantError::MaxIterationsExceeded)) {
        // The recursion's next call finds no iteration left.
        assert(secant_outcome(
            residual,
            functions,
            next.x0,
            next.x1,
            run.xtol,
            run.ftol,
            run.max_iter,
            run.max_iter,
        ) is Err);
    }
}

impl<Add, Sub, Mul, Div, Sqrt, Ln, Exp, Cdf> Numerics<Add, Sub, Mul, Div, Sqrt, Ln, Exp, Cdf> where
    Add: Fn(Binary64, Binary64) -> Binary64,
    Sub: Fn(Binary64, Binary64) -> Binary64,
    Mul: Fn(Binary64, Binary64) -> Binary64,
    Div: Fn(Binary64, Binary64) -> Binary64,
    Sqrt: Fn(Binary64) -> Binary64,
    Ln: Fn(Binary64) -> Binary64,
    Exp: Fn(Binary64) -> Binary64,
    Cdf: Fn(Binary64) -> Binary64,
 {
    /// Whether `seen` may be what these numerics compute in one iteration of
    /// the run `before`, when `yields(x, y)` says that the residual at `x` may
    /// come out as `y`. The update is computed only where the run asks for it.
    pub open spec fn iterates(
        self,
        yields: spec_fn(Binary64, Binary64) -> bool,
        before: SecantSolver,
        seen: Iteration,
    ) -> bool {
        &&& before.stage is Residuals
        &&& yields(before.x0, seen.older_residual)
        &&& yields(before.x1, seen.residual)
        &&& self.subtracts(seen.residual, seen.older_residual, seen.gap)
        &&& before.after_residuals(seen.residual, seen.gap).stage is Update ==> {
            &&& self.subtracts(before.x1, before.x0, seen.spread)
            &&& self.multiplies(seen.residual, seen.spread, seen.numerator)
            &&& self.divides(seen.numerator, seen.gap, seen.ratio)
            &&& self.subtracts(before.x1, seen.ratio, seen.candidate)
            &&& self.subtracts(seen.candidate, before.x1, seen.step)
        }
    }

    /// Whether `seen` may be the iterations of the run `start`, each computed
    /// on the iterates that the earlier ones led to.
    pub open spec fn runs(
        self,
        yields: spec_fn(Binary64, Binary64) -> bool,
        start: SecantSolver,
        seen: Seq<Iteration>,
    ) -> bool
        decreases seen.len(),
    {
        seen.len() > 0 ==> {
            &&& self.runs(yields, start, seen.drop_last())
            &&& self.iterates(yields, start.after_iterations(seen.drop_last()), seen.last())
        }
    }

    /// Iterations that may be computed with residuals under one description
    /// may be computed under any weaker one.
    pub proof fn lemma_runs_weakens(
        self,
        yields: spec_fn(Binary64, Binary64) -> bool,
        weaker: spec_fn(Binary64, Binary64) -> bool,
        start: SecantSolver,
        seen: Seq<Iteration>,
    )
        requires
            self.runs(yields, start, seen),
            forall|x: Binary64, y: Binary64| #[trigger] yields(x, y) ==> weaker(x, y),
        ensures
            self.runs(weaker, start, seen),
        decreases seen.len(),
    {
        if seen.len() > 0 {
            self.lemma_runs_weakens(yields, weaker, start, seen.drop_last());
        }
    }

    /// Iterations computed by operations that are functions, on residuals
    /// that are a function of the iterate, lead where the run taken to its end
    /// with those functions leads, as far as they go.
    proof fn lemma_runs_as_driven(
        self,
        yields: spec_fn(Binary64, Binary64) -> bool,
        start: SecantSolver,
        seen: Seq<Iteration>,
        residual: spec_fn(Binary64) -> Binary64,
        functions: Functions,
    )
        requires
            start.wf(),
            self.runs(yields, start, seen),
            forall|x: Binary64, y: Binary64| #[trigger] yields(x, y) ==> y == residual(x),
            self.computes(functions),
        ensures
            start.after_iterations(seen).wf(),
            start.after_iterations(seen).driven(residual, functions) == start.driven(
                residual,
                functions,
            ),
        decreases seen.len(),
    {
        if seen.len() > 0 {
            self.lemma_runs_as_driven(yields, start, seen.drop_last(), residual, functions);
            let before = start.after_iterations(seen.drop_last());
            let exact = iteration_of(residual, functions, before.x0, before.x1);
            assert(before.after_iteration(seen.last()) == before.after_iteration(exact));
        }
    }

    /// Where the residual is a function of the iterate and the operations are
    /// functions, iterations that end a run end it as the secant recursion on
    /// those functions does.
    pub proof fn lemma_runs_as_secant(
        self,
        yields: spec_fn(Binary64, Binary64) -> bool,
        x0: Binary64,
        x1: Binary64,
        xtol: Binary64,
        ftol: Binary64,
        max_iter: usize,
        seen: Seq<Iteration>,
        residual: spec_fn(Binary64) -> Binary64,
        functions: Functions,
    )
        requires
            self.runs(yields, SecantSolver::start(x0, x1, xtol, ftol, max_iter), seen),
            SecantSolver::start(x0, x1, xtol, ftol, max_iter).after_iterations(seen).stage
                is Finished,
            forall|x: Binary64, y: Binary64| #[trigger] yields(x, y) ==> y == residual(x),
            self.computes(functions),
        ensures
            SecantSolver::start(x0, x1, xtol, ftol, max_iter).after_iterations(seen).stage
                == SecantStage::Finished(
                secant_outcome(residual, functions, x0, x1, xtol, ftol, max_iter, 0),
            ),
    {
        let start = SecantSolver::start(x0, x1, xtol, ftol, max_iter);
        self.lemma_runs_as_driven(yields, start, seen, residual, functions);
        lemma_driven_run_is_secant(residual, functions, x0, x1, xtol, ftol, max_iter);
    }
}

/// What `f` may return: `outputs(f)(x, y)` says that `f(x)` may come out as
/// `y`.
pub open spec fn outputs<F: Fn(Binary64) -> Binary64>(f: F) -> spec_fn(Binary64, Binary64) -> bool {
    |x: Binary64, y: Binary64| f.ensures((x,), y)
}

/// Whether `f` returns nothing but what `residual` gives.
pub open spec fn evaluates<F: Fn(Binary64) -> Binary64>(
    f: F,
    residual: spec_fn(Binary64) -> Binary64,
) -> bool {
    forall|x: Binary64, y: Binary64| #[trigger] f.ensures((x,), y) ==> y == residual(x)
}

/// Secant root-finding method: runs it on the residual function `f` from the
/// initial estimates `x0` and `x1`, with absolute tolerance `xtol` on the step,
/// absolute tolerance `ftol` on the residual and at most `max_iter`
/// iterations.
///
/// The result is how a run ends that is told what `f` and `numerics` returned,
/// iteration by iteration. Where `f` and the operations are functions, that is
/// the outcome of the secant recursion on them.
pub fn secant<F, Add, Sub, Mul, Div, Sqrt, Ln, Exp, Cdf>(
    f: F,
    numerics: &Numerics<Add, Sub, Mul, Div, Sqrt, Ln, Exp, Cdf>,
    x0: Binary64,
    x1: Binary64,
    xtol: Binary64,
    ftol: Binary64,
    max_iter: usize,
) -> (r: Result<SecantOk, SecantError>) where
    F: Fn(Binary64) -> Binary64,
    Add: Fn(Binary64, Binary64) -> Binary64,
    Sub: Fn(Binary64, Binary64) -> Binary64,
    Mul: Fn(Binary64, Binary64) -> Binary64,
    Div: Fn(Binary64, Binary64) -> Binary64,
    Sqrt: Fn(Binary64) -> Binary64,
    Ln: Fn(Binary64) -> Binary64,
    Exp: Fn(Binary64) -> Binary64,
    Cdf: Fn(Binary64) -> Binary64,

    requires
        forall|x: Binary64| f.requires((x,)),
        numerics.total(),
    ensures
        exists|seen: Seq<Iteration>|
            {
                &&& numerics.runs(
                    outputs(f),
                    SecantSolver::start(x0, x1, xtol, ftol, max_iter),
                    seen,
                )
                &&& #[trigger] SecantSolver::start(x0, x1, xtol, ftol, max_iter).after_iterations(
                    seen,
                ).stage == SecantStage::Finished(r)
            },
        forall|residual: spec_fn(Binary64) -> Binary64, functions: Functions|
            #[trigger] evaluates(f, residual) && #[trigger] numerics.computes(functions) ==> r
                == secant_outcome(residual, functions, x0, x1, xtol, ftol, max_iter, 0),
{
    let ghost yields = outputs(f);
    let ghost start = SecantSolver::start(x0, x1, xtol, ftol, max_iter);
    let ghost mut seen: Seq<Iteration> = Seq::empty();
    let mut solver = SecantSolver::new(x0, x1, xtol, ftol, max_iter);
    loop
        invariant
            forall|x: Binary64| f.requires((x,)),
            numerics.total(),
            yields == outputs(f),
            start == SecantSolver::start(x0, x1, xtol, ftol, max_iter),
            solver == start.after_iterations(seen),
            solver.wf(),
            !(solver.stage is Update),
            numerics.runs(yields, start, seen),
        decreases
            if solver.stage is Finished {
                0
            } else {
                1 + solver.max_iter - solver.iteration
            },
    {
        if let SecantStage::Finished(result) = solver.stage {
            proof {
                assert forall|residual: spec_fn(Binary64) -> Binary64, functions: Functions|
                    #[trigger] evaluates(f, residual) && #[trigger] numerics.computes(
                        functions,
                    ) implies result == secant_outcome(
                    residual,
                    functions,
                    x0,
                    x1,
                    xtol,
                    ftol,
                    max_iter,
                    0,
                ) by {
                    numerics.lemma_runs_as_secant(
                        yields,
                        x0,
                        x1,
                        xtol,
                        ftol,
                        max_iter,
                        seen,
                        residual,
                        functions,
                    );
                }
            }
            return result;
        }
        let f0 = f(solver.x0);
        let f1 = f(solver.x1);
        let gap = (numerics.difference)(f1, f0);
        let ghost mut now = Iteration {
            older_residual: f0,
            residual: f1,
            gap,
            spread: gap,
            numerator: gap,
            ratio: gap,
            candidate: gap,
            step: gap,
        };
        solver.report_residuals(f1, gap);
        if let SecantStage::Update { .. } = solver.stage {
            let spread = (numerics.difference)(solver.x1, solver.x0);
            let numerator = (numerics.product)(f1, spread);
            let ratio = (numerics.quotient)(numerator, gap);
            let candidate = (numerics.difference)(solver.x1, ratio);
            let step = (numerics.difference)(candidate, solver.x1);
            solver.report_update(candidate, step);
            proof {
                now = Iteration {
                    older_residual: f0,
                    residual: f1,
                    gap,
                    spread,
                    numerator,
                    ratio,
                    candidate,
                    step,
                };
            }
        }
        proof {
            assert(seen.push(now).drop_last() == seen);
            seen = seen.push(now);
        }
    }
}

} // verus!
