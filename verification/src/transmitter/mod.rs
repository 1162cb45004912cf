pub mod model;
pub mod writer;
