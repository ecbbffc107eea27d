# nova

The verified core of a small GPU multimedia engine: the bookkeeping that decides what the
renderer draws and where its bytes go, with contracts proved by Verus.

## Layout

- `src/` — the library, verified:
  - `storage`, `handle`, `defaults`, `error`, `typeid`: generational asset storage, weak and
    owning handles (typed and type-erased), named default assets.
  - `buffer`, `geometry`, `uniform`: vertex layouts, growable GPU buffer bookkeeping, the shared
    geometry pool and aligned uniform buffer layouts.
  - `draw_batch`, `batcher`, `submit`: draw batches, 2D batching by z-index and material, and
    submission: preparing batches (staging appends, skipping batches whose geometry is gone or
    whose material does not resolve) and the draws of a pass (pipeline switches, draw-call
    arguments).
  - `binding`, `pipeline`: the scene bind group of a render target's environment and its
    uniforms, the bindings of a material bind group, what a pipeline is built from for a
    material template, the pipeline cache and the registry of material types.
  - `texture`: texture descriptions, CPU textures and decoding image bytes into RGBA8 (the
    decoding itself is the `image` crate's).
  - `time`: the clock, frame deadlines and the fixed-timestep update count.
  - `config`, `window`, `sampler`, `material`, `shader`, `resolve`, `misc`, `nova2d`: engine
    settings and descriptions, and the surface-resize decision.
- `tests/` — tests of the library on concrete values.
- `app/` — plain Rust around the library: conversions into `wgpu` and `winit` types, GPU buffers
  driven by the library's buffer plans, pipeline compilation from the library's pipeline plans,
  reading texture files, running fixed-timestep updates, reconfiguring the surface,
  the asset manager with its loader thread, frame pacing over the library's clock readings and
  deadlines, the 2D camera and uniform values (floating point).

Not here: recording render passes into `wgpu` command encoders (clear colours and depth values
are floating point), creating `wgpu` bind groups from texture views and samplers, the render
target's GPU resources, the window event loop, and resolving a material asset to its bind group
values (a downcast of a type-erased asset). The library decides what those steps do; the GPU
calls themselves are left to an application built on it.
