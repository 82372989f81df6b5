use vstd::prelude::*;
use vstd::arithmetic::div_mod::lemma_fundamental_div_mod_converse_div;

use crate::geometry::{InvalidDomainError, Point2};

verus! {

/// A domain `[start, end]` stepped by `step` is valid when it is non-empty
/// and the step is positive.
pub open spec fn valid_domain(start: int, end: int, step: int) -> bool {
    step > 0 && start <= end
}

/// How many positions `start, start + step, ...` stay within `end`.
pub open spec fn step_count(start: int, end: int, step: int) -> int {
    (end - start) / step + 1
}

/// The `i`-th position of the stepping.
pub open spec fn step_position(start: int, step: int, i: int) -> int {
    start + i * step
}

/// Evaluates `function` at `range_start`, `range_start + step`, ... while
/// the position stays within `range_end`, the right end included.
pub fn generate_points<F>(range_start: i32, range_end: i32, step: i32, function: F) -> (r: Result<
    Vec<Point2>,
    InvalidDomainError,
>) where F: Fn(i32) -> i32
    requires
        forall|x: i32| function.requires((x,)),
    ensures
        r is Err <==> !valid_domain(range_start as int, range_end as int, step as int),
        r matches Ok(points) ==> {
            &&& points@.len() == step_count(range_start as int, range_end as int, step as int)
            &&& forall|i: int|
                0 <= i < points@.len() ==> #[trigger] points@[i].x == step_position(
                    range_start as int,
                    step as int,
                    i,
                )
            &&& forall|i: int|
                0 <= i < points@.len() ==> function.ensures((#[trigger] points@[i].x,), points@[i].y)
        },
{
    if step <= 0 || range_start > range_end {
        return Err(InvalidDomainError);
    }
    let mut points: Vec<Point2> = Vec::new();
    let mut x: i32 = range_start;
    loop
        invariant_except_break
            range_start <= x <= range_end,
            x == step_position(range_start as int, step as int, points@.len() as int),
        invariant
            step > 0,
            range_start <= range_end,
            forall|i: int|
                0 <= i < points@.len() ==> #[trigger] points@[i].x == step_position(
                    range_start as int,
                    step as int,
                    i,
                ),
            forall|i: int|
                0 <= i < points@.len() ==> function.ensures((#[trigger] points@[i].x,), points@[i].y),
            forall|x: i32| function.requires((x,)),
        ensures
            points@.len() == step_count(range_start as int, range_end as int, step as int),
        decreases range_end - x,
    {
        let y = function(x);
        points.push(Point2 { x, y });
        if (range_end as i64) - (x as i64) < step as i64 {
            proof {
                let k = points@.len() - 1;
                assert(range_end - range_start == k * step + (range_end - x)) by (nonlinear_arith)
                    requires
                        x == range_start + k * step,
                ;
                lemma_fundamental_div_mod_converse_div(
                    range_end - range_start,
                    step as int,
                    k,
                    range_end - x,
                );
            }
            break;
        }
        proof {
            let k = points@.len() - 1;
            assert(x + step == range_start + (k + 1) * step) by (nonlinear_arith)
                requires
                    x == range_start + k * step,
            ;
        }
        x = x + step;
    }
    Ok(points)
}

} // verus!
