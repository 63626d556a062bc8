//! Face culling: occlusion shapes, 2D box subtraction, culling rules and the culling engine.
pub mod types;
pub mod rect_ops;
pub mod rect_laws;
pub mod names;
pub mod rules;
pub mod parse;
pub mod shapes;
pub mod classify;
pub mod engine;
pub mod laws;
pub mod rule_laws;
pub mod mesh_cull;
pub mod cases;
