pub mod reach;
pub mod types;
pub mod petgraph_api;
pub mod render_model;
pub mod renderer;
pub mod ascii_model;
pub mod summary;
pub mod builder;
pub mod filter_laws;
