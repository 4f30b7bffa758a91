//! What to do with the window surface on a resize and on each frame.

use vstd::prelude::*;

verus! {

/// What acquiring the next surface texture came back with.
#[derive(PartialEq, Eq, Structural, Clone, Copy, Debug)]
pub enum SurfaceStatus {
    Success,
    Suboptimal,
    Timeout,
    Occluded,
    Outdated,
    Lost,
    Validation,
}

/// What a frame does after acquiring the surface texture.
#[derive(PartialEq, Eq, Structural, Clone, Copy, Debug)]
pub enum FrameAction {
    /// Draw the frame; reconfigure the surface first when asked.
    Draw { reconfigure: bool },
    /// Skip the frame without error; reconfigure the surface when asked.
    Skip { reconfigure: bool },
    /// Give up: the surface is lost.
    Fail,
}

/// Whether a pass over a chunk clears its targets or keeps what earlier
/// passes drew.
#[derive(PartialEq, Eq, Structural, Clone, Copy, Debug)]
pub enum LoadAction {
    Clear,
    Load,
}

/// The size of the window surface, and whether it has been configured.
pub struct SurfaceState {
    width: u32,
    height: u32,
    is_surface_configured: bool,
}

impl View for SurfaceState {
    type V = (u32, u32, bool);

    /// Width, height, and whether the surface was configured.
    closed spec fn view(&self) -> (u32, u32, bool) {
        (self.width, self.height, self.is_surface_configured)
    }
}

impl SurfaceState {
    /// A surface of the window's size, not yet configured.
    pub fn new(width: u32, height: u32) -> (r: Self)
        ensures
            r@ == (width, height, false),
    {
        SurfaceState { width, height, is_surface_configured: false }
    }

    pub fn width(&self) -> (r: u32)
        ensures
            r == self@.0,
    {
        self.width
    }

    pub fn height(&self) -> (r: u32)
        ensures
            r == self@.1,
    {
        self.height
    }

    /// Whether the surface was configured, that is, whether frames are drawn.
    pub fn is_configured(&self) -> (r: bool)
        ensures
            r == self@.2,
    {
        self.is_surface_configured
    }

    /// A resize of the window: a size with no zero side is taken and marks
    /// the surface configured; any other size changes nothing. Returns
    /// whether the size was taken (and the surface is to be reconfigured).
    pub fn resize(&mut self, width: u32, height: u32) -> (applied: bool)
        ensures
            applied == (width > 0 && height > 0),
            final(self)@ == (if applied {
                (width, height, true)
            } else {
                old(self)@
            }),
    {
        if width > 0 && height > 0 {
            self.width = width;
            self.height = height;
            self.is_surface_configured = true;
            true
        } else {
            false
        }
    }
}

/// The action for an acquired surface texture: draw when it succeeded,
/// reconfiguring first when it was suboptimal; skip on a timeout, an
/// occluded window or a validation error; reconfigure and skip when the
/// surface is outdated; fail when it is lost.
pub fn frame_action(status: SurfaceStatus) -> (r: FrameAction)
    ensures
        r == (match status {
            SurfaceStatus::Success => FrameAction::Draw { reconfigure: false },
            SurfaceStatus::Suboptimal => FrameAction::Draw { reconfigure: true },
            SurfaceStatus::Timeout => FrameAction::Skip { reconfigure: false },
            SurfaceStatus::Occluded => FrameAction::Skip { reconfigure: false },
            SurfaceStatus::Validation => FrameAction::Skip { reconfigure: false },
            SurfaceStatus::Outdated => FrameAction::Skip { reconfigure: true },
            SurfaceStatus::Lost => FrameAction::Fail,
        }),
{
    match status {
        SurfaceStatus::Success => FrameAction::Draw { reconfigure: false },
        SurfaceStatus::Suboptimal => FrameAction::Draw { reconfigure: true },
        SurfaceStatus::Timeout | SurfaceStatus::Occluded | SurfaceStatus::Validation => {
            FrameAction::Skip { reconfigure: false }
        },
        SurfaceStatus::Outdated => FrameAction::Skip { reconfigure: true },
        SurfaceStatus::Lost => FrameAction::Fail,
    }
}

/// How the passes over chunk `chunk_index` of a frame load their targets:
/// the first chunk clears color and depth, later chunks draw over it.
pub fn chunk_load_action(chunk_index: usize) -> (r: LoadAction)
    ensures
        r == (if chunk_index == 0 {
            LoadAction::Clear
        } else {
            LoadAction::Load
        }),
{
    if chunk_index == 0 {
        LoadAction::Clear
    } else {
        LoadAction::Load
    }
}

} // verus!
