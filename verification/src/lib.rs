//! The verified core of a local Markdown viewer: reading requests, choosing
//! handlers, percent-coding paths, escaping HTML, and building the sidebar,
//! the pages and the replies.

pub mod text;
pub mod html;
pub mod url;
pub mod number;
pub mod http;
pub mod paths;
pub mod markdown;
pub mod sidebar;
pub mod pages;
pub mod navigate;
pub mod pdf;
pub mod port;
