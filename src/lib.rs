//! Request orchestration for an editor-integrated code assistant: framing,
//! prompt layout, retrieval filtering, reference budgeting and output
//! sanitization, each stated and proved.

pub mod codec;
pub mod text;
pub mod context;
pub mod retrieval;
pub mod budget;
pub mod analysis;
pub mod sanitize;
pub mod config;
pub mod pipeline;
