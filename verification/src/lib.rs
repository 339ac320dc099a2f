//! Render planning: frame declarations compiled into texture lifetimes, pool slots and
//! parallel levels, and shader modules assembled from resource tables.
pub mod declarations;
pub mod layout;
pub mod compile;
pub mod layout_laws;
pub mod levels;
pub mod text;
pub mod text_laws;
pub mod dump;
pub mod transient_pool;
pub mod ordering;
pub mod frame_plan;
pub mod layout_copy;
pub mod render_graph;
pub mod system;
pub mod frame_passes;
pub mod frame_wiring;
pub mod frame_laws;
pub mod access_laws;
pub mod schedule_bridge;
pub mod frame_exec;
pub mod graph_frame;
pub mod shaders;
pub mod dump_laws;
pub mod renderer;
pub mod bindings;
pub mod binding_laws;
pub mod renderer_laws;
pub mod dataflow_laws;
pub mod mesh;
pub mod mesh_laws;
pub mod material;
pub mod scene;
pub mod store;
pub mod store_laws;
pub mod extraction;
pub mod extraction_laws;
pub mod render_backend;
pub mod gpu_resources;
pub mod uploads;
pub mod upload_laws;
