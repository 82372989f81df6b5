//! Curve fitting and rendering for function plots.
//!
//! Coordinates are exact integers in a unit that the caller picks (for
//! instance thousandths of a domain unit); computed control points and
//! rendered positions are exact fractions with a shared denominator.
//!
//! The pipeline: `generate_points` samples a function, `generate_path` fits
//! cubic segments through the samples, a `CurveStore` keeps one curve per
//! role, and `draw_curve` turns a stored curve into a line strip.
pub mod geometry;
pub mod render;
pub mod sampler;
pub mod selection;
pub mod spline;
pub mod store;
pub mod ticks;

pub use geometry::{InvalidDomainError, Point2, Rgba, ScaledPoint};
pub use render::{draw_curve, Polyline, PolylinePoint};
pub use sampler::generate_points;
pub use selection::{
    next_energy_level, EnergyLevel, PlusMinusInput, PotentialModelInput, RecomputeGate,
};
pub use spline::{generate_path, ControlQuad, Tension, CONTROL_DEN};
pub use store::{setup_curve, Curve, CurveRole, CurveStore, ROLE_COUNT};
pub use ticks::{setup_plot_ticks, PlotSettings, TickMark, TickSettings};
