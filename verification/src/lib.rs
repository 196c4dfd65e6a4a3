pub mod agents;
pub mod data_sources;
pub mod errors;
pub mod files;
pub mod laws;
pub mod models;
pub mod pipeline;
pub mod premade;
pub mod text;
