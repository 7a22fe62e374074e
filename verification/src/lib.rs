//! Core of a small static site generator: the content model (discovery,
//! filtering, dating and ordering of posts and projects), a Markdown renderer
//! that re-routes fenced code blocks through a syntax highlighter keyed by a
//! fixed language table, and the context composer for the page templates.

pub mod compose;
pub mod content;
pub mod dates;
pub mod events;
pub mod highlight;
pub mod langmap;
pub mod renderer;
pub mod strutil;
