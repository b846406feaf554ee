//! What a rendering comes to in a world that answers each question in one
//! way: every page is written, in the order of the walk, up to the first
//! that fails.

use vstd::prelude::*;
use crate::error::CompilationError;
use crate::markdown::page_html;
use crate::protocol::Event;
use crate::renderer::{renders, RenderStage, Renderer};

verus! {

/// What becomes of a page.
pub enum Fate {
    /// The page was hydrated, converted, wrapped and written.
    Written,
    /// Hydrating, wrapping or writing failed.
    Failed(CompilationError),
    /// The converter failed on the hydrated body.
    Aborted,
}

/// What becomes of the page at position `page` where `hydrated` gives the
/// outcome of hydrating each page and `written` that of wrapping and
/// writing each page with its HTML.
pub open spec fn fate_of(
    page: int,
    hydrated: spec_fn(int) -> Result<String, String>,
    written: spec_fn(int, Seq<char>) -> Result<(), CompilationError>,
) -> Fate {
    match hydrated(page) {
        Err(diagnostic) => Fate::Failed(CompilationError::Render(diagnostic)),
        Ok(text) => match page_html(text@) {
            None => Fate::Aborted,
            Some(html) => match written(page, html) {
                Ok(_) => Fate::Written,
                Err(failure) => Fate::Failed(failure),
            },
        },
    }
}

/// Whether `event` is the answer of the world to what the rendering asks
/// for: setting up the engine comes to `prepared`, and the pages to what
/// `hydrated` and `written` give.  The removal of the old output may come
/// to anything.
pub open spec fn answers(
    renderer: Renderer,
    event: Event,
    prepared: Result<(), String>,
    hydrated: spec_fn(int) -> Result<String, String>,
    written: spec_fn(int, Seq<char>) -> Result<(), CompilationError>,
) -> bool {
    match renderer.stage {
        RenderStage::Preparing => event == Event::Prepared(prepared),
        RenderStage::Clearing => event is Cleared,
        RenderStage::Hydrating => renderer.next < renderer.pages@.len() ==> event
            == Event::Hydrated(hydrated(renderer.next as int)),
        RenderStage::Writing { html } => renderer.next < renderer.pages@.len() ==> event
            == Event::Written(written(renderer.next as int, html@)),
        _ => true,
    }
}

/// Whether the rendering is where the answers of the world lead: the pages
/// below `next` are written, the HTML that waits is that of the next page,
/// and a rendering that failed or aborted did so at the first page that
/// does, or when the engine was set up.
pub open spec fn follows(
    renderer: Renderer,
    prepared: Result<(), String>,
    hydrated: spec_fn(int) -> Result<String, String>,
    written: spec_fn(int, Seq<char>) -> Result<(), CompilationError>,
) -> bool {
    let next = renderer.next as int;
    &&& renderer.wf()
    &&& next <= renderer.pages@.len()
    &&& forall|page: int| 0 <= page < next ==> #[trigger] fate_of(page, hydrated, written) is Written
    &&& match renderer.stage {
        RenderStage::Preparing => next == 0,
        RenderStage::Clearing => next == 0 && prepared is Ok,
        RenderStage::Hydrating => prepared is Ok,
        RenderStage::Writing { html } => {
            &&& prepared is Ok
            &&& next < renderer.pages@.len() ==> (hydrated(next) matches Ok(text) && page_html(
                text@,
            ) == Some(html@))
        },
        RenderStage::Failed(failure) => if prepared is Ok {
            next < renderer.pages@.len() && fate_of(next, hydrated, written) == Fate::Failed(
                failure,
            )
        } else {
            next == 0 && failure == CompilationError::Io(prepared->Err_0)
        },
        RenderStage::Aborted => prepared is Ok && next < renderer.pages@.len() && fate_of(
            next,
            hydrated,
            written,
        ) is Aborted,
    }
}

/// A rendering that has not begun is where any answers lead.
pub proof fn lemma_begins(
    renderer: Renderer,
    prepared: Result<(), String>,
    hydrated: spec_fn(int) -> Result<String, String>,
    written: spec_fn(int, Seq<char>) -> Result<(), CompilationError>,
)
    requires
        renderer.wf(),
        renderer.stage is Preparing,
        renderer.next == 0,
    ensures
        follows(renderer, prepared, hydrated, written),
{
}

/// A step that takes the answer to what the rendering asked for leads on
/// where the answers lead.
pub proof fn lemma_step_follows(
    before: Renderer,
    event: Event,
    after: Renderer,
    prepared: Result<(), String>,
    hydrated: spec_fn(int) -> Result<String, String>,
    written: spec_fn(int, Seq<char>) -> Result<(), CompilationError>,
)
    requires
        follows(before, prepared, hydrated, written),
        answers(before, event, prepared, hydrated, written),
        renders(before, event, after),
    ensures
        follows(after, prepared, hydrated, written),
{
    assert(before.pages@.len() == before.pages.len());
}

/// A rendering that is complete has written every page.
pub proof fn lemma_complete(
    renderer: Renderer,
    prepared: Result<(), String>,
    hydrated: spec_fn(int) -> Result<String, String>,
    written: spec_fn(int, Seq<char>) -> Result<(), CompilationError>,
)
    requires
        follows(renderer, prepared, hydrated, written),
        renderer.stage is Hydrating || renderer.stage is Writing,
        renderer.next >= renderer.pages@.len(),
    ensures
        prepared is Ok,
        forall|page: int|
            0 <= page < renderer.pages@.len() ==> #[trigger] fate_of(
                page,
                hydrated,
                written,
            ) is Written,
{
}

/// A rendering that failed once the engine was set up has the failure of
/// the first page that fails; the pages before it are written, and none
/// after it is dealt with.
pub proof fn lemma_failed(
    renderer: Renderer,
    prepared: Result<(), String>,
    hydrated: spec_fn(int) -> Result<String, String>,
    written: spec_fn(int, Seq<char>) -> Result<(), CompilationError>,
)
    requires
        follows(renderer, prepared, hydrated, written),
        renderer.stage is Failed,
        prepared is Ok,
    ensures
        renderer.next < renderer.pages@.len(),
        fate_of(renderer.next as int, hydrated, written) == Fate::Failed(
            renderer.stage->Failed_0,
        ),
        forall|page: int|
            0 <= page < renderer.next ==> #[trigger] fate_of(page, hydrated, written) is Written,
{
}

} // verus!
