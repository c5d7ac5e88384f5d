//! The sampling core: sub-sample geometry, escape bookkeeping and the grid.

use crate::config::SampleConfig;
use crate::progress::ProgressCounter;
use vstd::prelude::*;

verus! {

/// Number of jittered sub-samples taken along one side of a pixel: the
/// integer square root of the requested samples-per-pixel count. Requests
/// that are not perfect squares are truncated toward the nearest lower
/// perfect square.
pub fn samples_side(samples: u32) -> (side: u32)
    ensures
        side * side <= samples,
        samples < (side + 1) * (side + 1),
{
    let mut side: u64 = 0;
    while (side + 1) * (side + 1) <= samples as u64
        invariant
            side * side <= samples,
            side <= 0xFFFF,
            (side + 1) * (side + 1) <= 0x1_0000_0000u64,
        decreases 0x10000 - side,
    {
        proof {
            assert(side + 2 <= 0x10000) by (nonlinear_arith)
                requires
                    (side + 1) * (side + 1) <= samples as u64,
                    samples <= 0xFFFF_FFFFu32,
                    side <= 0xFFFF,
            ;
            assert((side + 2) * (side + 2) <= 0x1_0000_0000) by (nonlinear_arith)
                requires
                    side + 2 <= 0x10000,
            ;
        }
        side = side + 1;
    }
    assert(side * side <= samples < (side + 1) * (side + 1));
    side as u32
}

/// With a single requested sample per pixel the sub-sample grid collapses to
/// one cell: the only side length within the truncation bounds for a request
/// of one is one itself, so the supersampler reduces to a single evaluation.
pub proof fn lemma_single_sample_single_cell(side: u32)
    requires
        side * side <= 1,
        1 < (side + 1) * (side + 1),
    ensures
        side == 1,
{
    if side == 0 {
        assert((side + 1) * (side + 1) == 1) by (nonlinear_arith)
            requires
                side == 0,
        ;
    }
    if side >= 2 {
        assert(side * side >= 4) by (nonlinear_arith)
            requires
                side >= 2,
        ;
    }
}

/// The sub-cell indices visited by the supersampler for a pixel, in
/// evaluation order: (0,0), (0,1), ..., (0,side-1), (1,0), ... — the first
/// component advancing once the second has swept a full side.
pub fn subsample_pairs(side: u32) -> (pairs: Vec<(u32, u32)>)
    requires
        side * side <= u32::MAX,
    ensures
        pairs@.len() == side * side,
        forall|i: int| 0 <= i < pairs@.len() ==> #[trigger] pairs@[i]
            == (((i / (side as int)) as u32, (i % (side as int)) as u32)),
{
    let total: u32 = side * side;
    let mut pairs: Vec<(u32, u32)> = Vec::new();
    let mut i: u32 = 0;
    while i < total
        invariant
            total == side * side,
            i <= total,
            pairs@.len() == i,
            forall|j: int| 0 <= j < i ==> #[trigger] pairs@[j]
                == (((j / (side as int)) as u32, (j % (side as int)) as u32)),
        decreases total - i,
    {
        let dx = i / side;
        let dy = i % side;
        pairs.push((dx, dy));
        i = i + 1;
    }
    pairs
}

/// The escape values of the sub-samples that diverged, in sample order;
/// bounded sub-samples contribute nothing.
pub open spec fn present_values(samples: Seq<Option<u64>>) -> Seq<u64>
    decreases samples.len(),
{
    if samples.len() == 0 {
        Seq::empty()
    } else {
        match samples.last() {
            Option::Some(value) => present_values(samples.drop_last()).push(value),
            Option::None => present_values(samples.drop_last()),
        }
    }
}

/// No escape value is collected exactly when every sub-sample stayed bounded.
pub proof fn lemma_present_values_all_absent(samples: Seq<Option<u64>>)
    ensures
        present_values(samples).len() == 0
            <==> (forall|i: int| 0 <= i < samples.len() ==> samples[i] is None),
    decreases samples.len(),
{
    if samples.len() > 0 {
        lemma_present_values_all_absent(samples.drop_last());
        assert(forall|i: int| 0 <= i < samples.len() - 1
            ==> samples.drop_last()[i] == #[trigger] samples[i]);
        assert(samples.last() == samples[samples.len() - 1]);
    }
}

/// Collect the escape values of the sub-samples that diverged. The pixel's
/// aggregate is the mean of these; when the result is empty the pixel is
/// classified as bounded (absent), never as an average over nothing.
pub fn diverged_values(samples: &Vec<Option<u64>>) -> (diverged: Vec<u64>)
    ensures
        diverged@ == present_values(samples@),
        diverged@.len() == 0
            <==> (forall|i: int| 0 <= i < samples@.len() ==> samples@[i] is None),
{
    let mut diverged: Vec<u64> = Vec::new();
    let mut i: usize = 0;
    while i < samples.len()
        invariant
            i <= samples@.len(),
            diverged@ == present_values(samples@.take(i as int)),
        decreases samples@.len() - i,
    {
        let sample = samples[i];
        proof {
            assert(samples@.take(i + 1).drop_last() =~= samples@.take(i as int));
            assert(samples@.take(i + 1).last() == samples@[i as int]);
        }
        match sample {
            Option::Some(value) => diverged.push(value),
            Option::None => {},
        }
        i = i + 1;
    }
    proof {
        assert(samples@.take(samples@.len() as int) =~= samples@);
        lemma_present_values_all_absent(samples@);
    }
    diverged
}

/// Decision reached after one squaring step of the orbit z -> z^2 + c.
#[derive(Clone, Copy, Debug, PartialEq, Eq, Structural)]
pub enum EscapeDecision {
    /// The orbit exceeded the divergence threshold at this step; the payload
    /// is the 1-indexed iteration at which it escaped.
    Escaped(u32),
    /// The orbit has not escaped yet and iterations remain.
    Continue,
    /// The orbit stayed within the threshold through the last iteration and
    /// is assumed bounded.
    Bounded,
}

/// What the escape-time evaluator concludes after testing the orbit once.
///
/// `iteration` counts the squaring steps completed before this one
/// (0-indexed); `exceeded` says whether the magnitude of the freshly
/// computed orbit value exceeds the divergence threshold. The first
/// exceedance reports the 1-indexed iteration number; once `max_iterations`
/// steps have passed without exceedance the orbit is assumed bounded.
pub fn escape_decision(iteration: u32, max_iterations: u32, exceeded: bool) -> (decision:
    EscapeDecision)
    requires
        iteration < max_iterations,
    ensures
        exceeded ==> decision == EscapeDecision::Escaped((iteration + 1) as u32),
        !exceeded && iteration + 1 < max_iterations ==> decision == EscapeDecision::Continue,
        !exceeded && iteration + 1 == max_iterations ==> decision == EscapeDecision::Bounded,
{
    if exceeded {
        EscapeDecision::Escaped(iteration + 1)
    } else if iteration + 1 < max_iterations {
        EscapeDecision::Continue
    } else {
        EscapeDecision::Bounded
    }
}

/// `trace` is a possible orbit prefix under `step` starting from `start`:
/// its first state is `start`, and the step function can produce each later
/// state from its predecessor with the threshold test still quiet.
pub open spec fn quiet_orbit<F: Fn((u64, u64)) -> ((u64, u64), bool)>(
    step: F,
    trace: Seq<(u64, u64)>,
    start: (u64, u64),
) -> bool {
    &&& trace.len() >= 1
    &&& trace[0] == start
    &&& forall|i: int| 0 <= i < trace.len() - 1 ==> call_ensures(
        step,
        (#[trigger] trace[i],),
        (trace[i + 1], false),
    )
}

/// Run the escape-time evaluation for one point. Starting from the orbit
/// state `z0`, the caller's step function is applied up to `max_iterations`
/// times; each application squares-and-shifts the orbit and reports whether
/// the new magnitude exceeds the divergence threshold. The first exceedance
/// ends the evaluation with the 1-indexed iteration count and the orbit
/// value that escaped; an orbit still quiet after `max_iterations` steps is
/// assumed bounded and yields nothing, as does `max_iterations == 0`.
///
/// The step function is opaque here, so the contract speaks of traces: an
/// escape at iteration k exhibits k - 1 quiet steps and one step that
/// tripped the test, and a bounded outcome exhibits `max_iterations` quiet
/// steps.
#[verifier::rlimit(50)]
pub fn escape_time<F: Fn((u64, u64)) -> ((u64, u64), bool) + Copy>(
    step: F,
    z0: (u64, u64),
    max_iterations: u32,
) -> (outcome: Option<(u32, (u64, u64))>)
    requires
        forall|args: ((u64, u64),)| #[trigger] call_requires(step, args),
    ensures
        match outcome {
            Option::Some(escape) => {
                &&& 1 <= escape.0 <= max_iterations
                &&& exists|trace: Seq<(u64, u64)>|
                    #[trigger] quiet_orbit(step, trace, z0) && trace.len() == escape.0
                        && call_ensures(step, (trace.last(),), (escape.1, true))
            },
            Option::None => exists|trace: Seq<(u64, u64)>|
                #[trigger] quiet_orbit(step, trace, z0) && trace.len() == max_iterations + 1,
        },
{
    let ghost mut trace: Seq<(u64, u64)> = seq![z0];
    let mut z = z0;
    let mut iteration: u32 = 0;
    while iteration < max_iterations
        invariant
            iteration <= max_iterations,
            forall|args: ((u64, u64),)| #[trigger] call_requires(step, args),
            quiet_orbit(step, trace, z0),
            trace.len() == iteration + 1,
            trace.last() == z,
        decreases max_iterations - iteration,
    {
        let stepped = step(z);
        let z_next = stepped.0;
        let exceeded = stepped.1;
        match escape_decision(iteration, max_iterations, exceeded) {
            EscapeDecision::Escaped(k) => {
                return Some((k, z_next));
            },
            EscapeDecision::Continue => {},
            EscapeDecision::Bounded => {
                proof {
                    let extended = trace.push(z_next);
                    assert(extended.last() == z_next);
                    assert(forall|i: int| 0 <= i < trace.len() ==> extended[i] == trace[i]);
                    assert(quiet_orbit(step, extended, z0));
                    trace = extended;
                }
                return None;
            },
        }
        proof {
            let extended = trace.push(z_next);
            assert(extended.last() == z_next);
            assert(forall|i: int| 0 <= i < trace.len() ==> extended[i] == trace[i]);
            assert(quiet_orbit(step, extended, z0));
            trace = extended;
        }
        z = z_next;
        iteration = iteration + 1;
    }
    None
}

/// The completed sample grid: one optional escape value per pixel, stored as
/// IEEE-754 double bit patterns, in column-major order (`grid[x][y]`).
pub struct SampleResult {
    /// Width of the grid, in pixels.
    pub x_res: u32,
    /// Height of the grid, in pixels.
    pub y_res: u32,
    /// The escape values; `grid[x][y]` belongs to pixel (x, y).
    pub grid: Vec<Vec<Option<u64>>>,
}

impl SampleResult {
    /// The grid has exactly `x_res` columns of `y_res` cells each.
    pub open spec fn wf(self) -> bool {
        &&& self.grid@.len() == self.x_res
        &&& forall|x: int| 0 <= x < self.grid@.len() ==> (#[trigger] self.grid@[x])@.len()
            == self.y_res
    }

    /// The escape value recorded for pixel (x, y).
    pub open spec fn cell(self, x: int, y: int) -> Option<u64> {
        self.grid@[x]@[y]
    }
}

/// One worker's unit of work: evaluate every pixel of column `x` in row
/// order, reporting each completed cell to the progress counter. Columns are
/// the partition unit of the grid: a worker owns a whole column and nothing
/// else, so no two workers ever touch the same cell.
pub fn sample_column<F: Fn(u32, u32) -> Option<u64>>(
    evaluate_pixel: F,
    x: u32,
    y_res: u32,
    progress: &mut ProgressCounter,
) -> (column: Vec<Option<u64>>)
    requires
        forall|args: (u32, u32)| #[trigger] call_requires(evaluate_pixel, args),
        old(progress).count + y_res <= u64::MAX,
    ensures
        column@.len() == y_res,
        forall|y: int| 0 <= y < y_res ==> call_ensures(
            evaluate_pixel,
            (x, y as u32),
            #[trigger] column@[y],
        ),
        final(progress).count == old(progress).count + y_res,
{
    let mut column: Vec<Option<u64>> = Vec::new();
    let mut y: u32 = 0;
    while y < y_res
        invariant
            y <= y_res,
            column@.len() == y,
            forall|args: (u32, u32)| #[trigger] call_requires(evaluate_pixel, args),
            forall|j: int| 0 <= j < y ==> call_ensures(
                evaluate_pixel,
                (x, j as u32),
                #[trigger] column@[j],
            ),
            progress.count == old(progress).count + y,
            old(progress).count + y_res <= u64::MAX,
        decreases y_res - y,
    {
        let value = evaluate_pixel(x, y);
        column.push(value);
        progress.increment(1);
        y = y + 1;
    }
    column
}

/// Populate the full grid: one call of the per-pixel evaluator for each of
/// the x_res * y_res pixels, each result written to its own cell exactly
/// once, and one progress report per completed cell — so the counter
/// advances by exactly x_res * y_res over the whole pass.
pub fn sample_grid<F: Fn(u32, u32) -> Option<u64> + Copy>(
    config: &SampleConfig,
    evaluate_pixel: F,
    progress: &mut ProgressCounter,
) -> (result: SampleResult)
    requires
        forall|args: (u32, u32)| #[trigger] call_requires(evaluate_pixel, args),
        old(progress).count + config.x_res * config.y_res <= u64::MAX,
    ensures
        result.wf(),
        result.x_res == config.x_res,
        result.y_res == config.y_res,
        forall|x: int, y: int| 0 <= x < config.x_res && 0 <= y < config.y_res ==> call_ensures(
            evaluate_pixel,
            (x as u32, y as u32),
            #[trigger] result.cell(x, y),
        ),
        final(progress).count == old(progress).count + config.x_res * config.y_res,
{
    let x_res = config.x_res;
    let y_res = config.y_res;
    let mut grid: Vec<Vec<Option<u64>>> = Vec::new();
    let mut x: u32 = 0;
    while x < x_res
        invariant
            x <= x_res,
            grid@.len() == x,
            forall|args: (u32, u32)| #[trigger] call_requires(evaluate_pixel, args),
            forall|i: int| 0 <= i < x ==> (#[trigger] grid@[i])@.len() == y_res,
            forall|i: int, j: int| 0 <= i < x && 0 <= j < y_res ==> call_ensures(
                evaluate_pixel,
                (i as u32, j as u32),
                #[trigger] grid@[i]@[j],
            ),
            progress.count == old(progress).count + x * y_res,
            old(progress).count + x_res * y_res <= u64::MAX,
        decreases x_res - x,
    {
        proof {
            assert(x * y_res + y_res == (x + 1) * y_res <= x_res * y_res) by (nonlinear_arith)
                requires
                    x < x_res,
            ;
        }
        let column = sample_column(evaluate_pixel, x, y_res, progress);
        grid.push(column);
        x = x + 1;
    }
    SampleResult { x_res, y_res, grid }
}

} // verus!
