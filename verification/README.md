# ornis_render

The CPU side of a 3D renderer, written in Verus: what a frame declares, how its passes are laid
out and ordered, what every pass binds, what goes into every GPU buffer, and the WGSL text of
every stage. Each of these is executable Rust with a contract that Verus proves.

## Layout

- `src/declarations.rs`, `layout.rs`, `compile.rs`, `levels.rs`, `dump.rs`: resources and passes of
  a frame, their compilation into liveness windows, pool slots and dependency levels, and the text
  dump of a compiled frame. `layout_laws.rs` holds the laws of the compiled frame.
- `src/ordering.rs`, `frame_plan.rs`, `transient_pool.rs`, `render_graph.rs`: the two front ends
  that register passes, their explicit ordering edges and the memoized compilation.
- `src/system.rs`, `frame_passes.rs`, `frame_wiring.rs`, `frame_laws.rs`, `schedule_bridge.rs`,
  `frame_exec.rs`, `graph_frame.rs`: the passes of the 3D frame as typed systems, the wiring of
  every lighting technique, the projection onto a schedule and the walk over one frame.
- `src/renderer.rs`, `bindings.rs`, `material.rs`, `mesh.rs`, `uploads.rs`: pipelines, attachments,
  bind groups, materials, meshes and buffer contents as plain descriptions, each with its laws in
  the `*_laws.rs` file beside it.
- `src/scene.rs`, `store.rs`, `extraction.rs`, `gpu_resources.rs`, `render_backend.rs`: scene
  descriptions, the entity store, the extraction of a frame and the decisions of the upload and
  presentation steps.
- `src/shaders/`: the assembly of the WGSL stages, their binding tables and buffer layouts, and the
  declarations that naga prints.
- `app/`: the wgpu side. It turns descriptions into GPU objects, computes with floats, reads scenes
  and records the passes.
- `tests/`: tests of the library from outside.

## What is trusted

Calls into outside code stand behind small wrappers, each with a doc comment that says what is
claimed: naga's arenas, validator and WGSL writer in `src/shaders/naga_ir.rs`,
`bytemuck::cast_slice` in `src/uploads.rs`, and `Arc::clone` in `src/transient_pool.rs`. Numbers in
floating point cross the library as bit patterns.
