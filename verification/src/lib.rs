//! Verified core of the crabsoup site-generation runtime.
pub mod text;
pub mod classes;
pub mod extract_text;
pub mod css;
pub mod regex_lib;
pub mod slug;
pub mod digest;
pub mod paths;
pub mod date;
pub mod process;
pub mod base;
pub mod log;
pub mod analyze;
pub mod strings;
pub mod codec;
pub mod encoding;
pub mod wyhash;
pub mod sys;
pub mod html;
