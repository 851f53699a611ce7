//! A terminal system-summary library: it renders a small ASCII-art glyph
//! beside a column of host facts (identity, distribution, kernel, shell,
//! uptime, memory).  The library holds the whole text pipeline — splitting
//! and trimming command output, extracting fields with fixed patterns,
//! formatting display lines, and composing the two columns — as verified
//! functions over plain strings.  Reading files, environment variables and
//! process output is left to the caller, which hands the raw text in.

pub mod extract;
pub mod facts;
pub mod num;
pub mod render;
pub mod text;
pub mod theme;
