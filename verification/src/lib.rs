//! Declarative chart preparation: configuration rules, the row pipeline that
//! reshapes a frame, and the geometry of each chart kind, as plain values that
//! a drawing backend can put on a surface.

pub mod aggregate;
pub mod chart;
pub mod chart_spec;
pub mod cli;
pub mod derive;
pub mod frame;
pub mod loader;
pub mod measure;
pub mod render;
pub mod sorting;
pub mod styling;
pub mod text;
pub mod transform;
