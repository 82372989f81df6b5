use vstd::prelude::*;

use crate::geometry::{Point2, Rgba};
use crate::spline::{fits, generate_path, ControlQuad, Tension};

verus! {

/// Which logical curve a curve is: the wavefunction or its density.
#[derive(Clone, Copy, Debug, PartialEq, Eq, Structural)]
pub enum CurveRole {
    Wave,
    Density,
}

/// Number of roles, and so of slots in a store.
pub const ROLE_COUNT: usize = 2;

/// Slot of a role in a store.
pub open spec fn role_slot(role: CurveRole) -> int {
    match role {
        CurveRole::Wave => 0,
        CurveRole::Density => 1,
    }
}

impl CurveRole {
    pub fn slot(&self) -> (r: usize)
        ensures
            r == role_slot(*self),
            r < ROLE_COUNT,
    {
        match self {
            CurveRole::Wave => 0,
            CurveRole::Density => 1,
        }
    }
}

/// A fitted curve, ready to be drawn.
#[derive(Clone, Debug, PartialEq, Eq)]
pub struct Curve {
    /// An identifier for debugging; it need not be unique.
    pub id: u32,
    pub role: CurveRole,
    /// The cubic segments, in order along the curve.
    pub segments: Vec<ControlQuad>,
    /// Color with which the curve is drawn.
    pub color: Rgba,
}

/// At most one live curve for each role.
pub struct CurveStore {
    slots: Vec<Option<Curve>>,
}

impl View for CurveStore {
    type V = Map<CurveRole, Curve>;

    closed spec fn view(&self) -> Map<CurveRole, Curve> {
        Map::new(
            |r: CurveRole| self.slots@[role_slot(r)] is Some,
            |r: CurveRole| self.slots@[role_slot(r)]->Some_0,
        )
    }
}

impl CurveStore {
    /// One slot for each role.
    pub closed spec fn wf(&self) -> bool {
        self.slots@.len() == ROLE_COUNT
    }

    /// A store that holds no curve.
    pub fn new() -> (r: CurveStore)
        ensures
            r.wf(),
            r@ == Map::<CurveRole, Curve>::empty(),
    {
        let r = CurveStore { slots: vec![None, None] };
        assert(r@ =~= Map::<CurveRole, Curve>::empty());
        r
    }

    /// The curve registered under `role`, if any.
    pub fn get(&self, role: CurveRole) -> (r: Option<&Curve>)
        requires
            self.wf(),
        ensures
            r is Some <==> self@.contains_key(role),
            r matches Some(c) ==> *c == self@[role],
    {
        self.slots[role.slot()].as_ref()
    }

    /// Discards the curve registered under `role`, if any, and registers
    /// `curve` as the one curve for it; other roles keep theirs.
    pub fn replace(&mut self, role: CurveRole, curve: Curve)
        requires
            old(self).wf(),
        ensures
            final(self).wf(),
            final(self)@ == old(self)@.insert(role, curve),
    {
        let ghost expected = self@.insert(role, curve);
        self.slots.set(role.slot(), Some(curve));
        assert(self@ =~= expected);
    }
}

/// Fits a curve through `points` with the standard tension at both ends
/// and installs it under `role`, discarding the one it replaces.
pub fn setup_curve(store: &mut CurveStore, role: CurveRole, color: Rgba, id: u32, points: &Vec<Point2>)
    requires
        old(store).wf(),
    ensures
        final(store).wf(),
        final(store)@.dom() == old(store)@.dom().insert(role),
        forall|r: CurveRole| r != role && old(store)@.contains_key(r) ==> final(store)@[r] == old(store)@[r],
        final(store)@[role].id == id,
        final(store)@[role].role == role,
        final(store)@[role].color == color,
        fits(final(store)@[role].segments@, points@, 300, 300),
{
    let t = Tension::standard();
    let segments = generate_path(points, t, t);
    store.replace(role, Curve { id, role, segments, color });
}

/// Replacing the curve of a role twice leaves only the second curve:
/// nothing of the first stays reachable.
pub proof fn lemma_replace_twice(store: Map<CurveRole, Curve>, role: CurveRole, c1: Curve, c2: Curve)
    ensures
        store.insert(role, c1).insert(role, c2) == store.insert(role, c2),
        store.insert(role, c1).insert(role, c2)[role] == c2,
{
    assert(store.insert(role, c1).insert(role, c2) =~= store.insert(role, c2));
}

} // verus!
