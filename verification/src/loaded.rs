//! What a load comes to in a world that answers each question in one way:
//! a page for every entry that the load takes, or the failure of the first
//! entry that has one.

use vstd::prelude::*;
use crate::error::CompilationError;
use crate::frontmatter::framing;
use crate::loader::{
    is_taken, lemma_next_selected, lemma_none_skipped, lemma_selected_prefix,
    lemma_step_keeps_wf, loads, selected_below, Found, LoadStage, Loader,
};
use crate::page::{Metadata, Page, SourceFile};
use crate::paths::html_path;
use crate::protocol::Event;

verus! {

/// What becomes of a source where `texts` gives the text of each path and
/// `parsed` the metadata of each segment: the body and the metadata of its
/// page, or the failure that ends the load.
pub open spec fn outcome_of(
    file: SourceFile,
    texts: spec_fn(String) -> Result<String, String>,
    parsed: spec_fn(Seq<char>) -> Result<Metadata, String>,
) -> Result<(Seq<char>, Metadata), CompilationError> {
    match texts(file.path) {
        Err(diagnostic) => Err(CompilationError::Io(diagnostic)),
        Ok(text) => match framing(text@) {
            Err(failure) => Err(failure),
            Ok((segment, body)) => match parsed(segment) {
                Err(diagnostic) => Err(CompilationError::Yaml(diagnostic)),
                Ok(given) => Ok((body, given)),
            },
        },
    }
}

/// Whether `page` is what came of `found`: it has the path of the entry
/// with `html` for the extension, the path of the source, the metadata
/// that its segment holds, and its body.
pub open spec fn came_of(
    page: Page,
    found: Found,
    texts: spec_fn(String) -> Result<String, String>,
    parsed: spec_fn(Seq<char>) -> Result<Metadata, String>,
) -> bool {
    &&& found matches Ok(file)
    &&& outcome_of(file, texts, parsed) matches Ok((body, given))
    &&& page.figurative_path@ == html_path(file.relative@)
    &&& page.absolute_path == file.path
    &&& page.metadata == given
    &&& page.raw@ == body
}

/// Whether `event` is the answer of `texts` and `parsed` to what the load
/// asks for.
pub open spec fn answers(
    loader: Loader,
    event: Event,
    texts: spec_fn(String) -> Result<String, String>,
    parsed: spec_fn(Seq<char>) -> Result<Metadata, String>,
) -> bool {
    match loader.stage {
        LoadStage::Walking => event is Discovered,
        LoadStage::Reading => loader.current() < loader.entries@.len() ==> event == Event::Content(
            texts(loader.entries@[loader.current()]->Ok_0.path),
        ),
        LoadStage::Parsing { figurative_path, absolute_path, metadata, raw } => event
            == Event::Metadata(parsed(metadata@)),
        LoadStage::Failed(_) => true,
    }
}

/// Whether the `rank`th of the entries that the load takes is the first to
/// fail, and fails with `failure`.
pub open spec fn first_failure(
    entries: Seq<Found>,
    strict: bool,
    texts: spec_fn(String) -> Result<String, String>,
    parsed: spec_fn(Seq<char>) -> Result<Metadata, String>,
    rank: int,
    failure: CompilationError,
) -> bool {
    let taken = selected_below(entries, strict, entries.len() as int);
    &&& 0 <= rank < taken.len()
    &&& outcome_of(entries[taken[rank]]->Ok_0, texts, parsed) == Err::<
        (Seq<char>, Metadata),
        CompilationError,
    >(failure)
    &&& forall|i: int| 0 <= i < rank ==> outcome_of(entries[taken[i]]->Ok_0, texts, parsed) is Ok
}

/// Whether the load is where the answers of `texts` and `parsed` lead:
/// each page holds what came of its entry, and a load that failed has the
/// failure of the first entry that fails.
pub open spec fn follows(
    loader: Loader,
    texts: spec_fn(String) -> Result<String, String>,
    parsed: spec_fn(Seq<char>) -> Result<Metadata, String>,
) -> bool {
    let upto = if loader.stage is Parsing {
        loader.cursor - 1
    } else {
        loader.cursor as int
    };
    let done = selected_below(loader.entries@, loader.strict, upto);
    &&& loader.wf()
    &&& match loader.stage {
        LoadStage::Failed(failure) => exists|rank: int| #[trigger]
            first_failure(loader.entries@, loader.strict, texts, parsed, rank, failure),
        _ => forall|i: int|
            0 <= i < done.len() ==> came_of(
                #[trigger] loader.pages@[i],
                loader.entries@[done[i]],
                texts,
                parsed,
            ),
    }
    &&& loader.stage matches LoadStage::Parsing { figurative_path, absolute_path, metadata, raw }
        ==> {
        &&& texts(loader.entries@[loader.cursor - 1]->Ok_0.path) matches Ok(text)
        &&& framing(text@) matches Ok((segment, body))
        &&& metadata@ == segment
        &&& raw@ == body
    }
}

/// A load that has not begun is where any answers lead.
pub proof fn lemma_begins(
    loader: Loader,
    texts: spec_fn(String) -> Result<String, String>,
    parsed: spec_fn(Seq<char>) -> Result<Metadata, String>,
)
    requires
        loader.wf(),
        loader.stage is Walking,
    ensures
        follows(loader, texts, parsed),
{
}

/// The entry at `at` is taken, and is the next of the taken entries after
/// those below `at`.
proof fn lemma_rank_of(entries: Seq<Found>, strict: bool, at: int)
    requires
        0 <= at < entries.len(),
        is_taken(entries[at], strict),
    ensures
        selected_below(entries, strict, at).len() < selected_below(
            entries,
            strict,
            entries.len() as int,
        ).len(),
        selected_below(entries, strict, entries.len() as int)[selected_below(
            entries,
            strict,
            at,
        ).len() as int] == at,
        forall|i: int|
            0 <= i < selected_below(entries, strict, at).len() ==> selected_below(
                entries,
                strict,
                entries.len() as int,
            )[i] == selected_below(entries, strict, at)[i],
{
    lemma_selected_prefix(entries, strict, at, at + 1);
    lemma_selected_prefix(entries, strict, at + 1, entries.len() as int);
    assert(selected_below(entries, strict, at + 1) == selected_below(entries, strict, at).push(at));
}

/// Where the load is not failed, the entries that are dealt with have all
/// become pages, so the entry at `at` that fails with `failure` is the
/// first to fail.
proof fn lemma_fails_first(
    before: Loader,
    texts: spec_fn(String) -> Result<String, String>,
    parsed: spec_fn(Seq<char>) -> Result<Metadata, String>,
    at: int,
    failure: CompilationError,
)
    requires
        follows(before, texts, parsed),
        !(before.stage is Failed),
        0 <= at < before.entries@.len(),
        is_taken(before.entries@[at], before.strict),
        selected_below(before.entries@, before.strict, at) == selected_below(
            before.entries@,
            before.strict,
            if before.stage is Parsing {
                before.cursor - 1
            } else {
                before.cursor as int
            },
        ),
        outcome_of(before.entries@[at]->Ok_0, texts, parsed) == Err::<
            (Seq<char>, Metadata),
            CompilationError,
        >(failure),
    ensures
        first_failure(
            before.entries@,
            before.strict,
            texts,
            parsed,
            selected_below(before.entries@, before.strict, at).len() as int,
            failure,
        ),
{
    let entries = before.entries@;
    let strict = before.strict;
    let taken = selected_below(entries, strict, entries.len() as int);
    let done = selected_below(entries, strict, at);
    lemma_rank_of(entries, strict, at);
    assert forall|i: int| 0 <= i < done.len() implies outcome_of(
        entries[taken[i]]->Ok_0,
        texts,
        parsed,
    ) is Ok by {
        assert(taken[i] == done[i]);
        assert(came_of(before.pages@[i], entries[done[i]], texts, parsed));
    }
}

/// A step that takes the answer to what the load asked for leads on where
/// the answers lead.
pub proof fn lemma_step_follows(
    before: Loader,
    event: Event,
    after: Loader,
    texts: spec_fn(String) -> Result<String, String>,
    parsed: spec_fn(Seq<char>) -> Result<Metadata, String>,
)
    requires
        follows(before, texts, parsed),
        answers(before, event, texts, parsed),
        loads(before, event, after),
    ensures
        follows(after, texts, parsed),
{
    lemma_step_keeps_wf(before, event, after);
    let entries = before.entries@;
    let strict = before.strict;
    match before.stage {
        LoadStage::Walking => {},
        LoadStage::Reading => {
            let at = before.current();
            lemma_next_selected(entries, strict, before.cursor as int);
            if event is Content && at < entries.len() {
                lemma_none_skipped(entries, strict, before.cursor as int, at);
                let file = entries[at]->Ok_0;
                let rank = selected_below(entries, strict, at).len() as int;
                match after.stage {
                    LoadStage::Failed(failure) => {
                        assert(outcome_of(file, texts, parsed) == Err::<
                            (Seq<char>, Metadata),
                            CompilationError,
                        >(failure));
                        lemma_fails_first(before, texts, parsed, at, failure);
                        assert(first_failure(
                            after.entries@,
                            after.strict,
                            texts,
                            parsed,
                            rank,
                            failure,
                        ));
                    },
                    _ => {
                        assert(entries.len() == before.entries.len());
                        assert(after.cursor == at + 1);
                        assert(follows(after, texts, parsed));
                    },
                }
            }
        },
        LoadStage::Parsing { figurative_path, absolute_path, metadata, raw } => {
            let at = before.cursor - 1;
            if event is Metadata {
                let file = entries[at]->Ok_0;
                let done = selected_below(entries, strict, at);
                match after.stage {
                    LoadStage::Failed(failure) => {
                        assert(outcome_of(file, texts, parsed) == Err::<
                            (Seq<char>, Metadata),
                            CompilationError,
                        >(failure));
                        lemma_fails_first(before, texts, parsed, at, failure);
                        assert(first_failure(
                            after.entries@,
                            after.strict,
                            texts,
                            parsed,
                            done.len() as int,
                            failure,
                        ));
                    },
                    _ => {
                        assert(selected_below(entries, strict, at + 1) == done.push(at));
                        assert forall|i: int| 0 <= i < done.push(at).len() implies came_of(
                            #[trigger] after.pages@[i],
                            entries[done.push(at)[i]],
                            texts,
                            parsed,
                        ) by {
                            if i < done.len() {
                                assert(came_of(before.pages@[i], entries[done[i]], texts, parsed));
                                assert(after.pages@[i] == before.pages@[i]);
                            }
                        }
                        assert(follows(after, texts, parsed));
                    },
                }
            }
        },
        LoadStage::Failed(_) => {},
    }
}

/// A load that is complete has a page for every entry that it takes, in the
/// order of the walk, and the page is what came of the entry.
pub proof fn lemma_complete(
    loader: Loader,
    texts: spec_fn(String) -> Result<String, String>,
    parsed: spec_fn(Seq<char>) -> Result<Metadata, String>,
)
    requires
        follows(loader, texts, parsed),
        loader.is_loaded(),
    ensures
        loader.pages@.len() == selected_below(
            loader.entries@,
            loader.strict,
            loader.entries@.len() as int,
        ).len(),
        forall|i: int|
            0 <= i < loader.pages@.len() ==> came_of(
                #[trigger] loader.pages@[i],
                loader.entries@[selected_below(
                    loader.entries@,
                    loader.strict,
                    loader.entries@.len() as int,
                )[i]],
                texts,
                parsed,
            ),
{
    let entries = loader.entries@;
    lemma_next_selected(entries, loader.strict, loader.cursor as int);
    lemma_none_skipped(entries, loader.strict, loader.cursor as int, entries.len() as int);
}

/// A load that failed has the failure of the first entry that fails: every
/// entry before it would have become a page.
pub proof fn lemma_failed(
    loader: Loader,
    texts: spec_fn(String) -> Result<String, String>,
    parsed: spec_fn(Seq<char>) -> Result<Metadata, String>,
)
    requires
        follows(loader, texts, parsed),
        loader.stage is Failed,
    ensures
        exists|rank: int| #[trigger]
            first_failure(
                loader.entries@,
                loader.strict,
                texts,
                parsed,
                rank,
                loader.stage->Failed_0,
            ),
{
}

/// What a load comes to depends on the world alone: two loads of the same
/// entries that are complete have made the same pages, and two that failed
/// have the same failure; and it is not so that one is complete and the
/// other failed.
pub proof fn lemma_load_determined(
    one: Loader,
    other: Loader,
    texts: spec_fn(String) -> Result<String, String>,
    parsed: spec_fn(Seq<char>) -> Result<Metadata, String>,
)
    requires
        follows(one, texts, parsed),
        follows(other, texts, parsed),
        one.entries@ == other.entries@,
        one.strict == other.strict,
        one.is_loaded() || one.stage is Failed,
        other.is_loaded() || other.stage is Failed,
    ensures
        one.is_loaded() == other.is_loaded(),
        one.stage is Failed ==> one.stage == other.stage,
        one.is_loaded() ==> {
            &&& one.pages@.len() == other.pages@.len()
            &&& forall|i: int|
                0 <= i < one.pages@.len() ==> {
                    &&& (#[trigger] one.pages@[i]).figurative_path@
                        == other.pages@[i].figurative_path@
                    &&& one.pages@[i].absolute_path == other.pages@[i].absolute_path
                    &&& one.pages@[i].metadata == other.pages@[i].metadata
                    &&& one.pages@[i].raw@ == other.pages@[i].raw@
                }
        },
{
    let entries = one.entries@;
    let strict = one.strict;
    let taken = selected_below(entries, strict, entries.len() as int);
    if one.is_loaded() {
        lemma_complete(one, texts, parsed);
    }
    if other.is_loaded() {
        lemma_complete(other, texts, parsed);
    }
    if one.stage is Failed {
        let first = choose|rank: int| #[trigger]
            first_failure(entries, strict, texts, parsed, rank, one.stage->Failed_0);
        if other.is_loaded() {
            assert(came_of(other.pages@[first], entries[taken[first]], texts, parsed));
        } else {
            let second = choose|rank: int| #[trigger]
                first_failure(entries, strict, texts, parsed, rank, other.stage->Failed_0);
            assert(first == second);
        }
    } else if other.stage is Failed {
        let second = choose|rank: int| #[trigger]
            first_failure(entries, strict, texts, parsed, rank, other.stage->Failed_0);
        assert(came_of(one.pages@[second], entries[taken[second]], texts, parsed));
    } else {
        assert forall|i: int| 0 <= i < one.pages@.len() implies {
            &&& (#[trigger] one.pages@[i]).figurative_path@ == other.pages@[i].figurative_path@
            &&& one.pages@[i].absolute_path == other.pages@[i].absolute_path
            &&& one.pages@[i].metadata == other.pages@[i].metadata
            &&& one.pages@[i].raw@ == other.pages@[i].raw@
        } by {
            assert(came_of(one.pages@[i], entries[taken[i]], texts, parsed));
            assert(came_of(other.pages@[i], entries[taken[i]], texts, parsed));
        }
    }
}

} // verus!
