//! The logic of a playground for Rust code: infers the packages that a
//! scratch depends on, lays the scratch out as a cargo project, reads the
//! styles of what the run prints, and holds the settings and rules of the
//! window around it.

pub mod cargo_command_builder;
pub mod code_editor;
pub mod custom_frame;
pub mod extractor;
pub mod github;
pub mod infer;
pub mod laws;
pub mod project;
pub mod project_builder;
pub mod seqs;
pub mod syntax;
pub mod terminal;
pub mod text;
pub mod theme;
pub mod win_version;

pub use cargo_command_builder::CargoCommandBuilder;
pub use extractor::{parse_file, ParseError};
pub use infer::{extract_use, get_use, infer_deps, TokenType};
pub use project::{Backtrace, BuildType, Channel, Edition, File, Project, Subcommand};
pub use project_builder::ProjectBuilder;
