use curve_plot::{next_energy_level, EnergyLevel, PlusMinusInput, PotentialModelInput, RecomputeGate};

#[test]
fn energy_level_plus_and_minus() {
    assert_eq!(next_energy_level(EnergyLevel(3), PlusMinusInput::Plus), EnergyLevel(4));
    assert_eq!(next_energy_level(EnergyLevel(3), PlusMinusInput::Minus), EnergyLevel(2));
}

#[test]
fn energy_level_stays_at_zero() {
    assert_eq!(next_energy_level(EnergyLevel(0), PlusMinusInput::Minus), EnergyLevel(0));
}

#[test]
fn energy_level_stays_at_top() {
    assert_eq!(next_energy_level(EnergyLevel(u32::MAX), PlusMinusInput::Plus), EnergyLevel(u32::MAX));
}

#[test]
fn gate_recomputes_only_on_change() {
    let mut gate = RecomputeGate::new();
    assert!(gate.should_recompute(PotentialModelInput::InfiniteWell, EnergyLevel(1)));
    assert!(!gate.should_recompute(PotentialModelInput::InfiniteWell, EnergyLevel(1)));
    assert!(gate.should_recompute(PotentialModelInput::InfiniteWell, EnergyLevel(2)));
    assert!(gate.should_recompute(PotentialModelInput::HarmonicOscillator, EnergyLevel(2)));
    assert!(!gate.should_recompute(PotentialModelInput::HarmonicOscillator, EnergyLevel(2)));
}
