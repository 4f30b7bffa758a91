# particle_system

A GPU particle simulation in a window.

- `src/` is the verified library: how particles are split into chunks and
  laid out as compute dispatches within the device limits, the offsets of
  the chunks, which camera controls are held, what each key, mouse button,
  resize and frame asks for, and how the shape dialog closes. Every function
  there carries a contract that Verus proves.
- `app/` is the program around it: wgpu pipelines and buffers, the winit
  event loop, the egui shape dialog, and the floating-point vector,
  quaternion, matrix and camera math.

The program reads its WGSL shaders at start-up from a `shaders` directory:
`compute.wgsl`, `render.wgsl`, `init_cube.wgsl`, `init_sphere.wgsl` and
`points_renderer.wgsl`. The particle count is the first command-line
argument (four million by default).
