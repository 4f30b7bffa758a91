//! The integer and decision logic of a GPU particle simulation: how particles
//! are split into chunks and laid out for compute dispatches, which camera
//! controls are held, and what to do with each input event and each frame.

pub mod particle_chunk;
pub mod camera_input;
pub mod events;
pub mod frame;
pub mod init_shape;
pub mod renderer;
