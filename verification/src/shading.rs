//! What becomes of a ray at a surface, as far as three draws decide it.
use vstd::prelude::*;

verus! {

/// What becomes of a ray at a surface.
#[derive(Clone, Copy, Debug, PartialEq, Eq)]
pub enum Scatter {
    /// The path ends here: nothing but the surface's own emission is seen.
    Absorbed,
    /// The ray leaves in a direction drawn evenly from the hemisphere.
    Diffuse,
    /// The ray is mirrored about an axis drawn near the normal.
    Mirror,
    /// The ray is reflected or refracted as by a dielectric.
    Dielectric,
}

/// The scatter that three draws select. `survives` says that the roulette
/// draw stayed below the continuation probability, `diffuse` that the second
/// draw exceeded the reflectivity, `reflects` that the third exceeded the
/// transmittance. A later draw counts only where the earlier ones let it.
pub open spec fn scatter_of(survives: bool, diffuse: bool, reflects: bool) -> Scatter {
    if !survives {
        Scatter::Absorbed
    } else if diffuse {
        Scatter::Diffuse
    } else if reflects {
        Scatter::Mirror
    } else {
        Scatter::Dielectric
    }
}

/// Selects the scatter from the three draws: see `scatter_of`.
pub fn choose_scatter(survives: bool, diffuse: bool, reflects: bool) -> (s: Scatter)
    ensures
        s == scatter_of(survives, diffuse, reflects),
{
    if survives {
        if diffuse {
            Scatter::Diffuse
        } else if reflects {
            Scatter::Mirror
        } else {
            Scatter::Dielectric
        }
    } else {
        Scatter::Absorbed
    }
}

impl Scatter {
    /// Whether the path goes on with another ray.
    pub fn recurses(&self) -> (r: bool)
        ensures
            r == !(*self is Absorbed),
    {
        match self {
            Scatter::Absorbed => false,
            _ => true,
        }
    }
}

/// A path that fails the roulette is absorbed whatever the other draws are,
/// and one that passes it always goes on.
pub proof fn lemma_roulette_gates(survives: bool, diffuse: bool, reflects: bool)
    ensures
        scatter_of(survives, diffuse, reflects) is Absorbed <==> !survives,
{
}

} // verus!
