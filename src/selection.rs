use vstd::prelude::*;

verus! {

/// The energy level `n` of the plotted state.
#[derive(Clone, Copy, Debug, PartialEq, Eq, Structural)]
pub struct EnergyLevel(pub u32);

/// A press of the energy level's plus or minus button.
#[derive(Clone, Copy, Debug, PartialEq, Eq, Structural)]
pub enum PlusMinusInput {
    Plus,
    Minus,
}

/// The potential whose states are plotted.
#[derive(Clone, Copy, Debug, PartialEq, Eq, Structural)]
pub enum PotentialModelInput {
    InfiniteWell,
    HarmonicOscillator,
}

/// The level after a press: one up, or one down but never below zero
/// (and never above the largest level).
pub open spec fn stepped_level(current: u32, input: PlusMinusInput) -> u32 {
    match input {
        PlusMinusInput::Plus => if current < u32::MAX {
            (current + 1) as u32
        } else {
            current
        },
        PlusMinusInput::Minus => if current > 0 {
            (current - 1) as u32
        } else {
            0
        },
    }
}

/// Applies a plus or minus press to the current energy level.
pub fn next_energy_level(current: EnergyLevel, input: PlusMinusInput) -> (r: EnergyLevel)
    ensures
        r.0 == stepped_level(current.0, input),
{
    match input {
        PlusMinusInput::Plus => EnergyLevel(current.0.saturating_add(1)),
        PlusMinusInput::Minus => EnergyLevel(current.0.saturating_sub(1)),
    }
}

/// Remembers the selection that the stored curves were last computed for,
/// so that they are recomputed only when it changes.
pub struct RecomputeGate {
    last: Option<(PotentialModelInput, u32)>,
}

impl View for RecomputeGate {
    type V = Option<(PotentialModelInput, u32)>;

    closed spec fn view(&self) -> Option<(PotentialModelInput, u32)> {
        self.last
    }
}

impl RecomputeGate {
    /// A gate that has seen no selection: the first one is new.
    pub fn new() -> (r: RecomputeGate)
        ensures
            r@ is None,
    {
        RecomputeGate { last: None }
    }

    /// Whether the curves must be recomputed for this selection: true
    /// exactly when it differs from the last one seen, which it becomes.
    pub fn should_recompute(&mut self, model: PotentialModelInput, level: EnergyLevel) -> (r: bool)
        ensures
            r == (old(self)@ != Some((model, level.0))),
            final(self)@ == Some((model, level.0)),
    {
        let changed = match self.last {
            Some((m, l)) => m != model || l != level.0,
            None => true,
        };
        self.last = Some((model, level.0));
        changed
    }
}

} // verus!
