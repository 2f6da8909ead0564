//! Conventional-commit parsing, classification and semantic-version inference.

pub mod authors;
pub mod bindings;
pub mod bump;
pub mod changelog;
pub mod cli_def;
pub mod config;
pub mod conventional;
pub mod dispatch;
pub mod eco;
pub mod error;
pub mod footers;
pub mod git;
pub mod github;
pub mod infer;
pub mod issues;
pub mod parse;
pub mod pipeline;
pub mod render;
pub mod repository;
pub mod resolve;
pub mod shells;
pub mod template;
pub mod utils;
pub mod text;
pub mod version;
