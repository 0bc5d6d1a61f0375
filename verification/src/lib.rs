//! Core of a water-surface renderer: an indexed asset registry that resolves
//! asset names to stable integer handles before any bytes are fetched, and a
//! multi-pass render orchestrator that plans reflection/refraction passes,
//! material bindings and vertex-state reuse. Fetching, decoding and the
//! graphics backend live outside this crate; the logic here is verified.

pub mod assets;
pub mod entity;
pub mod gltf_import;
pub mod keyboard;
pub mod material;
pub mod mesh;
pub mod registry;
pub mod renderer;
pub mod scene;

pub use assets::Assets;
pub use registry::AssetStore;
