//! An editor-style file tool set driven by tool calls: a windowed view of
//! the open file, a workspace path guard, text search and editing, and the
//! small helpers of the chat client around it.

pub mod glob;
pub mod text;
pub mod paths;
pub mod args;
pub mod editor;
pub mod search;
pub mod tools;
pub mod machine;
pub mod config;
pub mod http;
pub mod request;
pub mod laws;

pub use editor::{EditorState, WINDOW_SIZE};
pub use machine::{dispatch, resume, can_dispatch, can_resume, Job, Step, Outcome, FsRequest};
pub use args::ToolArgs;
pub use glob::glob_match;
pub use paths::normalize_path;
pub use request::start_tool_request;
