//! Verified core of a guided deployment tool: recipe documents, template
//! contexts, prompt decisions and step planning.

pub mod text;
pub mod recipe;
pub mod context;
pub mod template;
pub mod registry;
pub mod embedded;
pub mod prompt;
pub mod executor;
pub mod cli;
pub mod laws;
