pub mod ingest;
pub mod lifecycle;
pub mod model;
pub mod service;
pub mod utils;
