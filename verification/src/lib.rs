//! Core of a static site compiler: Markdown sources with a metadata header
//! become HTML pages in a shared page template.
//!
//! The crate reads and writes nothing.  A compilation run is a state
//! machine: it asks for one thing at a time, the driver does it on the file
//! system or with the template engine, and reports what came of it.
//!
//! - [`pipeline`] holds the run, made of a load ([`loader`]) and a
//!   rendering ([`renderer`]); [`protocol`] holds what passes between a run
//!   and its driver.
//! - [`frontmatter`] splits a source, [`paths`] selects sources and names
//!   pages, [`index`] orders the pages by date, [`markdown`] converts a
//!   body, and [`helpers`] holds what the template helpers compute.
//! - [`loaded`] and [`rendered`] state what a run comes to in a world that
//!   does not change under it.

pub mod date;
pub mod error;
pub mod frontmatter;
pub mod helpers;
pub mod index;
pub mod loaded;
pub mod loader;
pub mod markdown;
pub mod page;
pub mod paths;
pub mod pipeline;
pub mod protocol;
pub mod rendered;
pub mod renderer;
pub mod text;

pub use pipeline::compile_pages;
