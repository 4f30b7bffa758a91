//! What the simulation does with a key or mouse button event.

use vstd::prelude::*;
use crate::camera_input::{InputKey, MouseButton};

verus! {

/// What a key event asks of the simulation.
#[derive(PartialEq, Eq, Structural, Clone, Copy, Debug)]
pub enum KeyAction {
    /// Leave the event loop.
    Exit,
    /// Reset the particles to a cube.
    InitCube,
    /// Reset the particles to a sphere.
    InitSphere,
    /// Hand the event to the camera controls.
    Camera,
}

/// What a mouse button event asks of the simulation.
#[derive(PartialEq, Eq, Structural, Clone, Copy, Debug)]
pub enum MouseAction {
    /// Hand the event to the camera controls.
    Camera,
    /// Move the centre of gravity under the mouse cursor.
    PlaceGravity,
    /// Nothing to do.
    Ignore,
}

/// The action of a key event: a press of Escape exits, a press of 1 or 2
/// resets the particles to a cube or a sphere, and every other event
/// (releases of those keys included) goes to the camera controls.
pub fn key_action(code: InputKey, is_pressed: bool) -> (r: KeyAction)
    ensures
        r == (if is_pressed && code == InputKey::Escape {
            KeyAction::Exit
        } else if is_pressed && code == InputKey::Digit1 {
            KeyAction::InitCube
        } else if is_pressed && code == InputKey::Digit2 {
            KeyAction::InitSphere
        } else {
            KeyAction::Camera
        }),
{
    match (code, is_pressed) {
        (InputKey::Escape, true) => KeyAction::Exit,
        (InputKey::Digit1, true) => KeyAction::InitCube,
        (InputKey::Digit2, true) => KeyAction::InitSphere,
        _ => KeyAction::Camera,
    }
}

/// The action of a mouse button event: the right button (pressed or
/// released) goes to the camera controls, a press of the left button moves
/// the centre of gravity, and every other event is ignored.
pub fn mouse_button_action(button: MouseButton, is_pressed: bool) -> (r: MouseAction)
    ensures
        r == (if button == MouseButton::Right {
            MouseAction::Camera
        } else if button == MouseButton::Left && is_pressed {
            MouseAction::PlaceGravity
        } else {
            MouseAction::Ignore
        }),
{
    match button {
        MouseButton::Right => MouseAction::Camera,
        MouseButton::Left => {
            if is_pressed {
                MouseAction::PlaceGravity
            } else {
                MouseAction::Ignore
            }
        },
        MouseButton::Other => MouseAction::Ignore,
    }
}

} // verus!
