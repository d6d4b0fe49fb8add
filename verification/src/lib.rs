//! Bounded diff rendering and structured generation of commit metadata.
//!
//! A change set is rendered as text that stays within fixed bounds: each
//! file is rendered in full, cut off, or collapsed to a summary (`collapse`,
//! `diff`), and the whole is refused where it is still too large (`budget`).
//! A generative agent is asked for a commit message or a bookmark name under
//! a JSON schema; its reply is read (`claude_client`, `json`) and held to the
//! shape that is expected of it (`commit_message_generator`,
//! `bookmark_generator`). Running the agent and reading the repository are
//! the caller's part: the library works on plain values.

pub mod bookmark_generator;
pub mod budget;
pub mod claude_client;
pub mod collapse;
pub mod commit_message_generator;
pub mod config;
pub mod diff;
pub mod json;
pub mod line_diff;
pub mod matcher;
pub mod text;
pub mod text_formatter;
