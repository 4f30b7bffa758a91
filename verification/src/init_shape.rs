//! The integer side of resetting the particles to a shape: how densely each
//! shape spawns, and how the dialog that asks for its settings closes.

use vstd::prelude::*;

verus! {

/// Spawn density that the shape dialog offers for a cube.
pub const DEFAULT_CUBE_SPAWN_DENSITY: u32 = 13000;

/// Spawn density of the cube that the 1 key resets the particles to.
pub const QUICK_CUBE_SPAWN_DENSITY: u32 = 9000;

/// The shape that particles are reset to.
#[derive(PartialEq, Eq, Structural, Clone, Copy, Debug)]
pub enum InitShapeType {
    Cube,
    Sphere,
}

impl InitShapeType {
    /// The spawn density written to the shape's uniforms: a cube spawns with
    /// the density chosen for it, a sphere with one slot per particle.
    pub fn spawn_density(self, cube_spawn_density: u32, particle_count: u32) -> (r: u32)
        ensures
            r == (match self {
                InitShapeType::Cube => cube_spawn_density,
                InitShapeType::Sphere => particle_count,
            }),
    {
        match self {
            InitShapeType::Cube => cube_spawn_density,
            InitShapeType::Sphere => particle_count,
        }
    }
}

/// How the user left the shape dialog in one frame.
#[derive(PartialEq, Eq, Structural, Clone, Copy, Debug)]
pub enum ModalEndOperation {
    /// Confirmed: reset the particles with the chosen settings.
    InitShape,
    /// Cancelled.
    Cancel,
    /// Still editing.
    Pending,
}

/// What one frame of the shape dialog leads to.
#[derive(PartialEq, Eq, Structural, Clone, Copy, Debug)]
pub struct ModalStep {
    /// Whether the particles are reset now.
    pub initialize: bool,
    /// Whether the dialog is open after the frame.
    pub open_after: bool,
}

/// One frame of the shape dialog: a closed dialog stays closed and does
/// nothing; an open one resets the particles and closes on confirm, closes
/// on cancel, and stays open otherwise.
pub fn modal_step(is_open: bool, end_operation: ModalEndOperation) -> (r: ModalStep)
    ensures
        r.initialize == (is_open && end_operation == ModalEndOperation::InitShape),
        r.open_after == (is_open && end_operation == ModalEndOperation::Pending),
{
    if !is_open {
        return ModalStep { initialize: false, open_after: false };
    }
    match end_operation {
        ModalEndOperation::InitShape => ModalStep { initialize: true, open_after: false },
        ModalEndOperation::Cancel => ModalStep { initialize: false, open_after: false },
        ModalEndOperation::Pending => ModalStep { initialize: false, open_after: true },
    }
}

} // verus!
