//! The kinds of particle renderers.

use vstd::prelude::*;

verus! {

/// A way of drawing the particles.
#[derive(PartialEq, Eq, Structural, Clone, Copy, Debug)]
pub enum RendererType {
    /// One point per particle.
    Points,
}

} // verus!
