//! Screen analysis on a television: a tool that captures the screen and has a
//! vision model describe it, a server that offers the two halves of it as
//! tools of their own, and a proxy that turns an agent's answer into a
//! validated analysis.

pub mod capture;
pub mod config;
pub mod extract;
pub mod json;
pub mod mcp;
pub mod paths;
pub mod picture;
pub mod postprocess;
pub mod stagelog;
pub mod text;
pub mod tool;
pub mod validate;
pub mod vlm;
