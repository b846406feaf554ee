//! A page and what a source says of it.

use vstd::prelude::*;
use crate::date::Date;

verus! {

/// What the metadata segment of a source says of its page.
#[derive(Clone, Debug, PartialEq, Eq)]
pub struct Metadata {
    pub title: String,
    pub description: String,
    /// The day of publication: a sort key and a text to show, no more.
    pub date: Date,
    /// Empty where the source names none.
    pub tags: Vec<String>,
    /// False where the source does not say.
    pub hidden: bool,
}

impl Metadata {
    /// The metadata of a source that names a title, a description and a
    /// date, and nothing else: the page has no tags and is not hidden.
    pub fn new(title: String, description: String, date: Date) -> (metadata: Metadata)
        ensures
            metadata.title == title,
            metadata.description == description,
            metadata.date == date,
            metadata.tags@.len() == 0,
            !metadata.hidden,
    {
        Metadata { title, description, date, tags: Vec::new(), hidden: false }
    }
}

/// A source that was read and split.  Nothing changes a page once it is made.
#[derive(Clone, Debug, PartialEq, Eq)]
pub struct Page {
    /// Where the page goes, relative to the output root.
    pub figurative_path: String,
    /// Where the source was found.
    pub absolute_path: String,
    pub metadata: Metadata,
    /// The body of the source: Markdown that is itself a template.
    pub raw: String,
}

/// A file system entry that discovery came upon.
#[derive(Clone, Debug, PartialEq, Eq)]
pub struct SourceFile {
    /// The path by which the entry is read.
    pub path: String,
    /// The same path, relative to the source root.
    pub relative: String,
    /// The last component of the path.
    pub name: String,
    /// Whether the entry is a regular file.
    pub is_file: bool,
}

/// The dates of `pages`, in their order.
pub open spec fn dates_of(pages: Seq<Page>) -> Seq<Date> {
    pages.map_values(|page: Page| page.metadata.date)
}

} // verus!
