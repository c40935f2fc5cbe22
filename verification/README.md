# scene_explorer

The verified core of a small third-person scene explorer rendered with wgpu.

- `src/mesh.rs`: integer layouts of the scene's meshes (ground plane, box,
  UV sphere, capped cylinder): vertex order, per-vertex integer data and the
  triangle lists, with proofs that every index names a vertex and that the
  flat faces are wound counter-clockwise seen from outside.
- `src/texture.rs`: the RGBA8 checkerboard texture and its pattern laws.
- `src/input.rs`: held keys and the movement they ask for.
- `src/control.rs`: routing of window events to renderer commands, surface
  resizing, the follow-up of a failed frame, and the choice of the surface
  colour format.
- `app/`: the program around the library: the window, the GPU renderer and the
  floating-point camera and mesh geometry. It reads its WGSL shader from
  `shader.wgsl` in the working directory.
