//! Loading: from the entries of the source tree to the pages of a run.
//!
//! The loader takes the entries that discovery selects, in the order of the
//! walk; an entry that the walk could not list is passed over.  For each
//! entry that it takes, the loader asks for the text, splits it, asks for
//! the metadata that the metadata segment holds, and makes a page.  The
//! first failure ends the load, and a load that failed gives no pages.

use vstd::prelude::*;
use vstd::pervasive::unreached;
use vstd::string::StringExecFns;
use crate::error::CompilationError;
use crate::frontmatter::{framing, split_front_matter};
use crate::page::{Page, SourceFile};
use crate::paths::{html_path, is_selected, page_path, selects};
use crate::protocol::{Action, Event};

verus! {

/// What the walk came upon at one place: an entry, or why none could be
/// listed there.
pub type Found = Result<SourceFile, String>;

/// Whether the load takes what the walk found: an entry that discovery
/// selects.
pub open spec fn is_taken(found: Found, strict: bool) -> bool {
    found matches Ok(file) && is_selected(file.name@, file.is_file, strict)
}

/// The least position from `from` on of an entry that the load takes, or
/// the number of entries where there is none.
pub open spec fn next_selected(entries: Seq<Found>, strict: bool, from: int) -> int
    decreases entries.len() - from,
{
    if from < 0 || from >= entries.len() {
        entries.len() as int
    } else if is_taken(entries[from], strict) {
        from
    } else {
        next_selected(entries, strict, from + 1)
    }
}

/// The positions below `upto` of the entries that the load takes, in rising
/// order.
pub open spec fn selected_below(entries: Seq<Found>, strict: bool, upto: int) -> Seq<int>
    decreases upto,
{
    if upto <= 0 || upto > entries.len() {
        Seq::empty()
    } else if is_taken(entries[upto - 1], strict) {
        selected_below(entries, strict, upto - 1).push(upto - 1)
    } else {
        selected_below(entries, strict, upto - 1)
    }
}

/// Whether the load takes what the walk found.
pub fn takes(found: &Found, strict: bool) -> (taken: bool)
    ensures
        taken == is_taken(*found, strict),
{
    match found {
        Ok(file) => selects(file.name.as_str(), file.is_file, strict),
        Err(_) => false,
    }
}

/// Where a load stands.
#[derive(Clone, Debug, PartialEq, Eq)]
pub enum LoadStage {
    /// The entries of the source tree are awaited.
    Walking,
    /// The text of the next selected entry is awaited, if there is one;
    /// else the load is complete.
    Reading,
    /// A source was split, and the metadata of its segment is awaited.
    Parsing { figurative_path: String, absolute_path: String, metadata: String, raw: String },
    /// The load failed.
    Failed(CompilationError),
}

/// The state of a load.
#[derive(Clone, Debug, PartialEq, Eq)]
pub struct Loader {
    /// The root of the source tree.
    pub root: String,
    /// Whether discovery takes regular files only.
    pub strict: bool,
    /// What the walk found.
    pub entries: Vec<Found>,
    /// The entries below this position are dealt with.
    pub cursor: usize,
    /// The pages made so far, in the order of the walk.
    pub pages: Vec<Page>,
    pub stage: LoadStage,
}

impl Loader {
    /// The position of the entry that is read next, or the number of
    /// entries where none is left.
    pub open spec fn current(self) -> int {
        next_selected(self.entries@, self.strict, self.cursor as int)
    }

    /// Whether every selected entry has become a page.
    pub open spec fn is_loaded(self) -> bool {
        self.stage is Reading && self.current() >= self.entries@.len()
    }

    /// Whether `page` is the page of the entry at `position`.
    pub open spec fn page_of(self, page: Page, position: int) -> bool {
        &&& self.entries@[position] matches Ok(file)
        &&& page.figurative_path@ == html_path(file.relative@)
        &&& page.absolute_path == file.path
    }

    /// The invariant of a load: there is one page for each selected entry
    /// that is dealt with, in the order of the walk, and each page has the
    /// paths of its entry.
    pub open spec fn wf(self) -> bool {
        let upto = if self.stage is Parsing {
            self.cursor - 1
        } else {
            self.cursor as int
        };
        let done = selected_below(self.entries@, self.strict, upto);
        &&& self.cursor <= self.entries@.len()
        &&& self.stage is Walking ==> self.entries@.len() == 0
        &&& !(self.stage is Failed) ==> {
            &&& self.pages@.len() == done.len()
            &&& forall|i: int|
                0 <= i < done.len() ==> self.page_of(#[trigger] self.pages@[i], done[i])
        }
        &&& match self.stage {
            LoadStage::Parsing { figurative_path, absolute_path, metadata, raw } => {
                &&& self.cursor >= 1
                &&& is_taken(self.entries@[self.cursor - 1], self.strict)
                &&& figurative_path@ == html_path(self.entries@[self.cursor - 1]->Ok_0.relative@)
                &&& absolute_path == self.entries@[self.cursor - 1]->Ok_0.path
            },
            _ => true,
        }
    }

    /// A load of the tree under `root` that has not begun.
    pub fn new(root: &str, strict: bool) -> (loader: Loader)
        ensures
            loader.root@ == root@,
            loader.strict == strict,
            loader.entries@.len() == 0,
            loader.cursor == 0,
            loader.pages@.len() == 0,
            loader.stage is Walking,
            loader.wf(),
    {
        Loader {
            root: String::from_str(root),
            strict,
            entries: Vec::new(),
            cursor: 0,
            pages: Vec::new(),
            stage: LoadStage::Walking,
        }
    }

    /// The position of the entry that is read next.
    pub fn seek(&self) -> (position: usize)
        ensures
            position == self.current(),
            position <= self.entries@.len(),
    {
        let mut position: usize = self.cursor;
        while position < self.entries.len() && !takes(&self.entries[position], self.strict)
            invariant
                next_selected(self.entries@, self.strict, position as int) == self.current(),
            decreases self.entries@.len() - position,
        {
            position = position + 1;
        }
        if position > self.entries.len() {
            self.entries.len()
        } else {
            position
        }
    }

    /// What `action` gives: what the load awaits, or its result.
    pub open spec fn asks(self, action: Action) -> bool {
        match self.stage {
            LoadStage::Walking => action == (Action::Discover { root: self.root }),
            LoadStage::Reading => if self.current() < self.entries@.len() {
                self.entries@[self.current()] matches Ok(file) && action == (Action::Read {
                    path: file.path,
                })
            } else {
                action == Action::Finish(Ok(()))
            },
            LoadStage::Parsing { figurative_path, absolute_path, metadata, raw } => action == (
            Action::Parse { metadata }),
            LoadStage::Failed(failure) => action == Action::Finish(Err(failure)),
        }
    }

    /// What the load awaits from its driver.  A load that is over asks the
    /// driver to finish, with the failure if it failed.
    pub fn action(&self) -> (action: Action)
        ensures
            self.asks(action),
    {
        match &self.stage {
            LoadStage::Walking => Action::Discover { root: self.root.clone() },
            LoadStage::Reading => {
                let position: usize = self.seek();
                proof {
                    lemma_next_selected(self.entries@, self.strict, self.cursor as int);
                }
                if position < self.entries.len() {
                    match &self.entries[position] {
                        Ok(file) => Action::Read { path: file.path.clone() },
                        Err(_) => unreached(),
                    }
                } else {
                    Action::Finish(Ok(()))
                }
            },
            LoadStage::Parsing { figurative_path, absolute_path, metadata, raw } => Action::Parse {
                metadata: metadata.clone(),
            },
            LoadStage::Failed(failure) => Action::Finish(Err(failure.duplicate())),
        }
    }
}

/// How `event` takes a load from `before` to `after`.
///
/// The entries arrive once.  The text of the next selected entry is split:
/// a text that cannot be read or split fails the load, and one that can
/// waits for its metadata.  Metadata makes the page; a segment that cannot
/// be parsed fails the load.  An event that the load does not await changes
/// nothing, and neither does any event once the load is complete or failed.
pub open spec fn loads(before: Loader, event: Event, after: Loader) -> bool {
    match (before.stage, event) {
        (LoadStage::Walking, Event::Discovered(found)) => after == (Loader {
            entries: found,
            cursor: 0,
            stage: LoadStage::Reading,
            ..before
        }),
        (LoadStage::Reading, Event::Content(read)) => {
            let at = before.current();
            if at >= before.entries@.len() {
                after == before
            } else {
                match read {
                    Err(diagnostic) => after == (Loader {
                        stage: LoadStage::Failed(CompilationError::Io(diagnostic)),
                        ..before
                    }),
                    Ok(text) => match framing(text@) {
                        Err(failure) => after == (Loader {
                            stage: LoadStage::Failed(failure),
                            ..before
                        }),
                        Ok((segment, body)) => {
                            &&& after == (Loader {
                                cursor: (at + 1) as usize,
                                stage: after.stage,
                                ..before
                            })
                            &&& after.stage matches LoadStage::Parsing {
                                figurative_path,
                                absolute_path,
                                metadata,
                                raw,
                            }
                            &&& before.entries@[at] matches Ok(file)
                            &&& figurative_path@ == html_path(file.relative@)
                            &&& absolute_path == file.path
                            &&& metadata@ == segment
                            &&& raw@ == body
                        },
                    },
                }
            }
        },
        (
            LoadStage::Parsing { figurative_path, absolute_path, metadata, raw },
            Event::Metadata(parsed),
        ) => match parsed {
            Err(diagnostic) => after == (Loader {
                stage: LoadStage::Failed(CompilationError::Yaml(diagnostic)),
                ..before
            }),
            Ok(given) => {
                &&& after == (Loader { pages: after.pages, stage: LoadStage::Reading, ..before })
                &&& after.pages@ == before.pages@.push(
                    Page { figurative_path, absolute_path, metadata: given, raw },
                )
            },
        },
        _ => after == before,
    }
}

/// The entry that is read next stands at or behind `from` and is selected.
pub proof fn lemma_next_selected(entries: Seq<Found>, strict: bool, from: int)
    ensures
        next_selected(entries, strict, from) <= entries.len(),
        0 <= from <= entries.len() ==> from <= next_selected(entries, strict, from),
        0 <= next_selected(entries, strict, from) < entries.len() ==> is_taken(
            entries[next_selected(entries, strict, from)],
            strict,
        ),
        forall|k: int|
            0 <= from <= k < next_selected(entries, strict, from) ==> !is_taken(
                entries[k],
                strict,
            ),
    decreases entries.len() - from,
{
    if 0 <= from < entries.len() && !is_taken(entries[from], strict) {
        lemma_next_selected(entries, strict, from + 1);
    }
}

/// No selected entry stands between the cursor and the entry that is read
/// next.
pub proof fn lemma_none_skipped(entries: Seq<Found>, strict: bool, from: int, upto: int)
    requires
        0 <= from <= upto <= next_selected(entries, strict, from),
        upto <= entries.len(),
    ensures
        selected_below(entries, strict, upto) == selected_below(entries, strict, from),
        next_selected(entries, strict, upto) == next_selected(entries, strict, from),
    decreases upto - from,
{
    if from < upto {
        lemma_none_skipped(entries, strict, from + 1, upto);
    }
}

/// Every step keeps the invariant of a load.
pub proof fn lemma_step_keeps_wf(before: Loader, event: Event, after: Loader)
    requires
        before.wf(),
        loads(before, event, after),
    ensures
        after.wf(),
{
    let entries = before.entries@;
    let strict = before.strict;
    assert(entries.len() == before.entries.len());
    match before.stage {
        LoadStage::Reading => {
            let at = before.current();
            lemma_next_selected(entries, strict, before.cursor as int);
            if at < entries.len() {
                lemma_none_skipped(entries, strict, before.cursor as int, at);
            }
        },
        LoadStage::Parsing { figurative_path, absolute_path, metadata, raw } => {
            if event matches Event::Metadata(Ok(given)) {
                let done = selected_below(entries, strict, before.cursor - 1);
                assert(selected_below(entries, strict, before.cursor as int) == done.push(
                    before.cursor - 1,
                ));
                assert forall|i: int| 0 <= i < done.len() + 1 implies after.page_of(
                    #[trigger] after.pages@[i],
                    done.push(before.cursor - 1)[i],
                ) by {
                    if i < done.len() {
                        assert(before.page_of(before.pages@[i], done[i]));
                    }
                }
            }
        },
        _ => {},
    }
}

/// Takes a load one step further: `event` is the outcome of what the load
/// asked for.
pub fn read_pages(loader: Loader, event: Event) -> (next: Loader)
    ensures
        loads(loader, event, next),
        loader.wf() ==> next.wf(),
{
    let at: usize = loader.seek();
    let Loader { root, strict, entries, cursor, pages, stage } = loader;
    match stage {
        LoadStage::Walking => match event {
            Event::Discovered(found) => Loader {
                root,
                strict,
                entries: found,
                cursor: 0,
                pages,
                stage: LoadStage::Reading,
            },
            _ => Loader { root, strict, entries, cursor, pages, stage: LoadStage::Walking },
        },
        LoadStage::Reading => match event {
            Event::Content(read) => {
                if at >= entries.len() {
                    return Loader { root, strict, entries, cursor, pages, stage: LoadStage::Reading };
                }
                let text = match read {
                    Ok(text) => text,
                    Err(diagnostic) => {
                        return Loader {
                            root,
                            strict,
                            entries,
                            cursor,
                            pages,
                            stage: LoadStage::Failed(CompilationError::Io(diagnostic)),
                        };
                    },
                };
                match split_front_matter(text.as_str()) {
                    Err(failure) => Loader {
                        root,
                        strict,
                        entries,
                        cursor,
                        pages,
                        stage: LoadStage::Failed(failure),
                    },
                    Ok(framed) => {
                        proof {
                            lemma_next_selected(entries@, strict, cursor as int);
                            if loader.wf() {
                                lemma_none_skipped(entries@, strict, cursor as int, at as int);
                            }
                        }
                        let (figurative_path, absolute_path) = match &entries[at] {
                            Ok(file) => (page_path(file.relative.as_str()), file.path.clone()),
                            Err(_) => unreached(),
                        };
                        Loader {
                            root,
                            strict,
                            entries,
                            cursor: at + 1,
                            pages,
                            stage: LoadStage::Parsing {
                                figurative_path,
                                absolute_path,
                                metadata: framed.metadata,
                                raw: framed.body,
                            },
                        }
                    },
                }
            },
            _ => Loader { root, strict, entries, cursor, pages, stage: LoadStage::Reading },
        },
        LoadStage::Parsing { figurative_path, absolute_path, metadata, raw } => match event {
            Event::Metadata(parsed) => match parsed {
                Err(diagnostic) => Loader {
                    root,
                    strict,
                    entries,
                    cursor,
                    pages,
                    stage: LoadStage::Failed(CompilationError::Yaml(diagnostic)),
                },
                Ok(given) => {
                    let mut pages = pages;
                    pages.push(Page { figurative_path, absolute_path, metadata: given, raw });
                    Loader { root, strict, entries, cursor, pages, stage: LoadStage::Reading }
                },
            },
            _ => Loader {
                root,
                strict,
                entries,
                cursor,
                pages,
                stage: LoadStage::Parsing { figurative_path, absolute_path, metadata, raw },
            },
        },
        LoadStage::Failed(failure) => Loader {
            root,
            strict,
            entries,
            cursor,
            pages,
            stage: LoadStage::Failed(failure),
        },
    }
}

/// A source with front matter becomes exactly one page: the text of the
/// next entry and then its metadata add one page to those made before, and
/// the page has the path of the entry with `html` for its extension.
pub proof fn lemma_source_becomes_page(
    before: Loader,
    text: String,
    between: Loader,
    given: crate::page::Metadata,
    after: Loader,
)
    requires
        before.stage is Reading,
        before.current() < before.entries@.len(),
        framing(text@) is Ok,
        loads(before, Event::Content(Ok(text)), between),
        loads(between, Event::Metadata(Ok(given)), after),
    ensures
        after.stage is Reading,
        after.pages@.len() == before.pages@.len() + 1,
        after.pages@.drop_last() == before.pages@,
        before.entries@[before.current()] is Ok,
        after.pages@.last().figurative_path@ == html_path(
            before.entries@[before.current()]->Ok_0.relative@,
        ),
        after.pages@.last().absolute_path == before.entries@[before.current()]->Ok_0.path,
        after.pages@.last().metadata == given,
        after.pages@.last().raw@ == framing(text@)->Ok_0.1,
{
    assert(after.pages@.drop_last() =~= before.pages@);
}

/// A source without two delimiter lines fails the load, with the failure
/// that its shape gives, and adds no page.
pub proof fn lemma_unframed_source_fails(before: Loader, text: String, after: Loader)
    requires
        before.stage is Reading,
        before.current() < before.entries@.len(),
        framing(text@) is Err,
        loads(before, Event::Content(Ok(text)), after),
    ensures
        after.stage == LoadStage::Failed(framing(text@)->Err_0),
        after.pages == before.pages,
        framing(text@)->Err_0 is FrontMatter || framing(text@)->Err_0 is Content,
{
}

/// A load that failed stays as it is, whatever comes, and asks its driver
/// to finish with the failure.
pub proof fn lemma_failure_is_final(before: Loader, event: Event, after: Loader, action: Action)
    requires
        before.stage is Failed,
        loads(before, event, after),
        before.asks(action),
    ensures
        after == before,
        action == Action::Finish(Err(before.stage->Failed_0)),
{
}

/// A load that is complete has one page for each selected entry, in the
/// order of the walk, and each page has the paths of its entry.
pub proof fn lemma_loaded_pages(loader: Loader)
    requires
        loader.wf(),
        loader.is_loaded(),
    ensures
        loader.pages@.len() == selected_below(
            loader.entries@,
            loader.strict,
            loader.entries@.len() as int,
        ).len(),
        forall|i: int|
            0 <= i < loader.pages@.len() ==> loader.page_of(
                #[trigger] loader.pages@[i],
                selected_below(loader.entries@, loader.strict, loader.entries@.len() as int)[i],
            ),
{
    lemma_next_selected(loader.entries@, loader.strict, loader.cursor as int);
    lemma_none_skipped(
        loader.entries@,
        loader.strict,
        loader.cursor as int,
        loader.entries@.len() as int,
    );
}

/// The selected positions below a bound are the first of those below a
/// greater bound.
pub proof fn lemma_selected_prefix(entries: Seq<Found>, strict: bool, upto: int, beyond: int)
    requires
        0 <= upto <= beyond <= entries.len(),
    ensures
        selected_below(entries, strict, upto).len() <= selected_below(
            entries,
            strict,
            beyond,
        ).len(),
        forall|i: int|
            0 <= i < selected_below(entries, strict, upto).len() ==> selected_below(
                entries,
                strict,
                beyond,
            )[i] == selected_below(entries, strict, upto)[i],
    decreases beyond - upto,
{
    if upto < beyond {
        lemma_selected_prefix(entries, strict, upto, beyond - 1);
    }
}

/// `selected_below` lists exactly the selected positions below `upto`, in
/// rising order.
pub proof fn lemma_selected_below(entries: Seq<Found>, strict: bool, upto: int)
    requires
        0 <= upto <= entries.len(),
    ensures
        forall|i: int|
            0 <= i < selected_below(entries, strict, upto).len() ==> {
                let at = #[trigger] selected_below(entries, strict, upto)[i];
                0 <= at < upto && is_taken(entries[at], strict)
            },
        forall|i: int, j: int|
            0 <= i < j < selected_below(entries, strict, upto).len() ==> selected_below(
                entries,
                strict,
                upto,
            )[i] < selected_below(entries, strict, upto)[j],
        forall|at: int|
            0 <= at < upto && is_taken(entries[at], strict) ==> selected_below(
                entries,
                strict,
                upto,
            ).contains(at),
    decreases upto,
{
    if upto > 0 {
        lemma_selected_below(entries, strict, upto - 1);
        let shorter = selected_below(entries, strict, upto - 1);
        let all = selected_below(entries, strict, upto);
        assert forall|at: int| 0 <= at < upto && is_taken(entries[at], strict) implies all.contains(
            at,
        ) by {
            if at < upto - 1 {
                assert(shorter.contains(at));
                let i = choose|i: int| 0 <= i < shorter.len() && shorter[i] == at;
                assert(all[i] == at);
            } else {
                assert(all[all.len() - 1] == at);
            }
        }
    }
}

} // verus!
