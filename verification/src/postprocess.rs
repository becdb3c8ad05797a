//! Post-processing: classification, safe extraction paths, media
//! organization, and the observable/retryable step pipeline.

pub mod classify;
pub mod extract;
pub mod organize;
pub mod pipeline;
