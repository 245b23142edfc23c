//! Per-file line limits: counting, limit resolution, and report formatting.
pub mod args;
pub mod binding;
pub mod checker;
pub mod comments;
pub mod config;
pub mod display;
pub mod escape;
pub mod files;
pub mod lines;
pub mod paths;
pub mod patterns;
pub mod preset;
pub mod result;
pub mod rule;
pub mod text;

pub use checker::{check_content, check_file, CheckOptions};
pub use config::{Config, ConfigResolver};
pub use preset::Preset;
pub use result::{FileResult, Status};
pub use rule::Rule;
