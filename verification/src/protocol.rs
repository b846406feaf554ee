//! What a run asks of its driver, and what the driver reports back.

use vstd::prelude::*;
use crate::error::CompilationError;
use crate::page::{Metadata, SourceFile};

verus! {

/// Work that a run cannot do itself.  The driver performs it and reports
/// the outcome as the event of the same line.
#[derive(Debug, PartialEq, Eq)]
pub enum Action {
    /// Walk the tree under `root`; answered by `Event::Discovered`.
    Discover { root: String },
    /// Read the file at `path` as text; answered by `Event::Content`.
    Read { path: String },
    /// Parse a metadata segment; answered by `Event::Metadata`.
    Parse { metadata: String },
    /// Set up the template engine with its helpers and the page template;
    /// answered by `Event::Prepared`.
    Prepare,
    /// Remove the output tree under `root`; answered by `Event::Cleared`.
    Clear { root: String },
    /// Render the body of the page at position `page` as a template, with
    /// the sorted index and the page itself as data; answered by
    /// `Event::Hydrated`.
    Hydrate { page: usize },
    /// Render the page template around `html` with the metadata of the page
    /// at position `page`, and write the result to the page's path under
    /// the output root; answered by `Event::Written`.
    Write { page: usize, html: String },
    /// The run is over, with this result.
    Finish(Result<(), CompilationError>),
    /// The Markdown converter failed on a hydrated body.  This is a defect,
    /// not a fault of the sources: the driver stops the process.
    Abort,
}

/// The outcome of an action.  A failure carries the diagnostic of whatever
/// failed.
#[derive(Debug, PartialEq, Eq)]
pub enum Event {
    /// What the walk under the source root found, in its order: an entry,
    /// or why none could be listed at that place.
    Discovered(Vec<Result<SourceFile, String>>),
    /// The text of the file, or why it could not be read.
    Content(Result<String, String>),
    /// The metadata that a segment holds, or what is wrong with it.
    Metadata(Result<Metadata, String>),
    /// The engine is ready, or the page template could not be read.
    Prepared(Result<(), String>),
    /// The output tree was removed, or was not: it may not have been there.
    Cleared(Result<(), String>),
    /// The body once its template is rendered, or why it cannot be.
    Hydrated(Result<String, String>),
    /// The page was written, or rendering or writing failed.
    Written(Result<(), CompilationError>),
}

} // verus!
