use vstd::prelude::*;

use crate::geometry::InvalidDomainError;
use crate::sampler::{generate_points, step_count, step_position, valid_domain};
use crate::store::CurveRole;

verus! {

/// Spacing and size of the axis ticks.
#[derive(Clone, Copy, Debug, PartialEq, Eq, Structural)]
pub struct TickSettings {
    /// Spacing between ticks, in domain units.
    pub step: i32,
    /// Half the length of a tick mark, in screen units.
    pub half_height: u16,
}

/// Domain of a plot and the scales that take it to the screen.
#[derive(Clone, Copy, Debug, PartialEq, Eq, Structural)]
pub struct PlotSettings {
    /// Start of the domain.
    pub domain_range_start: i32,
    /// End of the domain.
    pub domain_range_end: i32,
    /// Factor from domain x to screen x.
    pub screen_scale_x: i32,
    /// Factor from domain y to screen y for the wavefunction.
    pub screen_scale_y_psi: i32,
    /// Factor from domain y to screen y for the density.
    pub screen_scale_y_pdf: i32,
    pub ticks: TickSettings,
}

impl PlotSettings {
    /// A non-empty domain, positive tick spacing and a positive x scale.
    pub open spec fn wf(&self) -> bool {
        &&& self.domain_range_start < self.domain_range_end
        &&& self.ticks.step > 0
        &&& self.screen_scale_x > 0
    }

    /// Factor from domain y to screen y for the curve of `role`.
    pub fn screen_scale_y(&self, role: CurveRole) -> (r: i32)
        ensures
            r == match role {
                CurveRole::Wave => self.screen_scale_y_psi,
                CurveRole::Density => self.screen_scale_y_pdf,
            },
    {
        match role {
            CurveRole::Wave => self.screen_scale_y_psi,
            CurveRole::Density => self.screen_scale_y_pdf,
        }
    }
}

impl Default for PlotSettings {
    fn default() -> (r: PlotSettings)
        ensures
            r.domain_range_start == -10,
            r.domain_range_end == 10,
            r.screen_scale_x == 1,
            r.screen_scale_y_psi == 1,
            r.screen_scale_y_pdf == 1,
            r.ticks.step == 1,
            r.ticks.half_height == 1,
            r.wf(),
    {
        PlotSettings {
            domain_range_start: -10,
            domain_range_end: 10,
            screen_scale_x: 1,
            screen_scale_y_psi: 1,
            screen_scale_y_pdf: 1,
            ticks: TickSettings { step: 1, half_height: 1 },
        }
    }
}

/// A vertical mark across the x axis at screen position `x`.
#[derive(Clone, Copy, Debug, PartialEq, Eq, Structural)]
pub struct TickMark {
    pub x: i64,
    pub bottom: i32,
    pub top: i32,
}

/// Places a tick at each step of the domain, scaled to the screen: a mark
/// from `-half_height` to `half_height` around the axis.
pub fn setup_plot_ticks(settings: &PlotSettings) -> (r: Result<Vec<TickMark>, InvalidDomainError>)
    ensures
        r is Err <==> !valid_domain(
            settings.domain_range_start as int,
            settings.domain_range_end as int,
            settings.ticks.step as int,
        ),
        r matches Ok(marks) ==> {
            &&& marks@.len() == step_count(
                settings.domain_range_start as int,
                settings.domain_range_end as int,
                settings.ticks.step as int,
            )
            &&& forall|i: int|
                0 <= i < marks@.len() ==> {
                    &&& (#[trigger] marks@[i]).x == step_position(
                        settings.domain_range_start as int,
                        settings.ticks.step as int,
                        i,
                    ) * settings.screen_scale_x
                    &&& marks@[i].bottom == -(settings.ticks.half_height as int)
                    &&& marks@[i].top == settings.ticks.half_height
                }
        },
{
    let identity = |x: i32| -> (y: i32)
        ensures
            y == x,
        { x };
    let points = match generate_points(
        settings.domain_range_start,
        settings.domain_range_end,
        settings.ticks.step,
        identity,
    ) {
        Ok(points) => points,
        Err(e) => return Err(e),
    };
    let half = settings.ticks.half_height as i32;
    let low: i32 = -half;
    let mut marks: Vec<TickMark> = Vec::new();
    let mut i: usize = 0;
    while i < points.len()
        invariant
            i <= points@.len(),
            marks@.len() == i,
            forall|j: int|
                0 <= j < i ==> {
                    &&& (#[trigger] marks@[j]).x == points@[j].x * settings.screen_scale_x
                    &&& marks@[j].bottom == low
                    &&& marks@[j].top == half
                },
        decreases points@.len() - i,
    {
        let px = points[i].x as i64;
        let sx = settings.screen_scale_x as i64;
        proof {
            assert(-0x4000_0000_0000_0000 <= px * sx <= 0x4000_0000_0000_0000) by (nonlinear_arith)
                requires
                    -0x8000_0000 <= px <= 0x8000_0000,
                    -0x8000_0000 <= sx <= 0x8000_0000,
            ;
        }
        marks.push(TickMark { x: px * sx, bottom: low, top: half });
        i = i + 1;
    }
    Ok(marks)
}

} // verus!
