//! A command-line HTTP client's decision logic: turning arguments into
//! requests and responses into terminal output.

pub mod dispatch;
pub mod input;
pub mod json;
pub mod outcome;
pub mod render;
pub mod response;
pub mod screen;
