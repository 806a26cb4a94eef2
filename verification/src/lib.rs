//! Verified core of a coding-agent terminal surface.

pub mod canvas;
pub mod cells;
pub mod file_laws;
pub mod file_tools;
pub mod geometry;
pub mod hyperlinks;
pub mod keys;
pub mod mcp;
pub mod mcp_laws;
pub mod overlay;
pub mod pager;
pub mod pager_laws;
pub mod pager_render;
pub mod patch_laws;
pub mod patch_text;
pub mod patches;
pub mod renderable;
pub mod string_laws;
pub mod strings;
pub mod styled;
pub mod tool_spec;
pub mod transcript;
pub mod transcript_laws;
pub mod transcript_screen;
pub mod wakeup;
pub mod wakeup_laws;
