//! Segments text written without spaces into chunks fit for line breaking,
//! by an additive scoring model over character and block features.
pub mod blocks;
pub mod features;
pub mod json;
pub mod model;
pub mod models;
pub mod segment;
pub mod text;

pub use json::ModelError;
pub use model::Model;
pub use segment::DEFAULT_THRESHOLD;
