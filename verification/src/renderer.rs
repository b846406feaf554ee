//! Rendering: from the pages of a run to the files of the site.
//!
//! Once the template engine is set up and the old output tree is out of the
//! way, each page is dealt with in the order of the walk: its body is
//! rendered as a template, the result is converted from Markdown to HTML,
//! and the page template is rendered around it and written.  The first
//! failure ends the run; what was written stays.

use vstd::prelude::*;
use crate::error::CompilationError;
use crate::index::{is_sorted_index, sorted_index};
use crate::markdown::{compile, page_html};
use crate::page::{dates_of, Page};
use crate::protocol::{Action, Event};

verus! {

/// Where the rendering stands.
#[derive(Debug, PartialEq, Eq)]
pub enum RenderStage {
    /// The template engine is being set up.
    Preparing,
    /// The old output tree is being removed.
    Clearing,
    /// The hydrated body of the next page is awaited, if a page is left;
    /// else the rendering is complete.
    Hydrating,
    /// The next page is being wrapped and written.
    Writing { html: String },
    /// The rendering failed.
    Failed(CompilationError),
    /// The Markdown converter failed.
    Aborted,
}

/// The state of the rendering.
#[derive(Debug, PartialEq, Eq)]
pub struct Renderer {
    /// The root of the output tree.
    pub output: String,
    /// The pages of the run, in the order of the walk.
    pub pages: Vec<Page>,
    /// The sorted index: the positions of `pages`, latest date first.
    pub order: Vec<usize>,
    /// The pages below this position are written.
    pub next: usize,
    pub stage: RenderStage,
}

impl Renderer {
    /// The invariant of the rendering: `order` is the sorted index of the
    /// pages.
    pub open spec fn wf(self) -> bool {
        is_sorted_index(dates_of(self.pages@), self.order@)
    }

    /// Whether this is the rendering of `pages` into `output` before its
    /// first step.
    pub open spec fn opens(self, output: String, pages: Vec<Page>) -> bool {
        &&& self.output == output
        &&& self.pages == pages
        &&& self.next == 0
        &&& self.stage is Preparing
        &&& self.wf()
    }

    /// Whether a page is being hydrated or written.
    pub open spec fn at_page(self) -> bool {
        (self.stage is Hydrating || self.stage is Writing) && self.next < self.pages@.len()
    }

    /// The rendering of `pages` into the tree under `output`.
    pub fn new(output: String, pages: Vec<Page>) -> (renderer: Renderer)
        ensures
            renderer.opens(output, pages),
    {
        let order = sorted_index(&pages);
        Renderer { output, pages, order, next: 0, stage: RenderStage::Preparing }
    }

    /// What `action` gives: what the rendering awaits, or its result.
    pub open spec fn asks(self, action: Action) -> bool {
        match self.stage {
            RenderStage::Preparing => action == Action::Prepare,
            RenderStage::Clearing => action == (Action::Clear { root: self.output }),
            RenderStage::Hydrating => if self.next < self.pages@.len() {
                action == (Action::Hydrate { page: self.next })
            } else {
                action == Action::Finish(Ok(()))
            },
            RenderStage::Writing { html } => if self.next < self.pages@.len() {
                action == (Action::Write { page: self.next, html })
            } else {
                action == Action::Finish(Ok(()))
            },
            RenderStage::Failed(failure) => action == Action::Finish(Err(failure)),
            RenderStage::Aborted => action == Action::Abort,
        }
    }

    /// What the rendering awaits from its driver.  The pages are asked for
    /// in the order of the walk, not in that of the sorted index.
    pub fn action(&self) -> (action: Action)
        ensures
            self.asks(action),
    {
        match &self.stage {
            RenderStage::Preparing => Action::Prepare,
            RenderStage::Clearing => Action::Clear { root: self.output.clone() },
            RenderStage::Hydrating => if self.next < self.pages.len() {
                Action::Hydrate { page: self.next }
            } else {
                Action::Finish(Ok(()))
            },
            RenderStage::Writing { html } => if self.next < self.pages.len() {
                Action::Write { page: self.next, html: html.clone() }
            } else {
                Action::Finish(Ok(()))
            },
            RenderStage::Failed(failure) => Action::Finish(Err(failure.duplicate())),
            RenderStage::Aborted => Action::Abort,
        }
    }

    /// How the outcome of the conversion of a hydrated body takes the
    /// rendering from `self` to `after`: HTML waits to be written, and a
    /// failure of the converter aborts.
    pub open spec fn converts(self, html: Option<String>, after: Renderer) -> bool {
        if self.stage is Hydrating && self.next < self.pages@.len() {
            match html {
                Some(made) => after == (Renderer {
                    stage: RenderStage::Writing { html: made },
                    ..self
                }),
                None => after == (Renderer { stage: RenderStage::Aborted, ..self }),
            }
        } else {
            after == self
        }
    }

    /// Takes the outcome of the conversion of the hydrated body of the next
    /// page.
    pub fn converted(self, html: Option<String>) -> (after: Renderer)
        ensures
            self.converts(html, after),
            self.wf() ==> after.wf(),
    {
        let Renderer { output, pages, order, next, stage } = self;
        match stage {
            RenderStage::Hydrating => {
                if next < pages.len() {
                    match html {
                        Some(made) => Renderer {
                            output,
                            pages,
                            order,
                            next,
                            stage: RenderStage::Writing { html: made },
                        },
                        None => Renderer { output, pages, order, next, stage: RenderStage::Aborted },
                    }
                } else {
                    Renderer { output, pages, order, next, stage: RenderStage::Hydrating }
                }
            },
            other => Renderer { output, pages, order, next, stage: other },
        }
    }
}

/// How `event` takes the rendering from `before` to `after`.
///
/// The engine is set up, then the output tree is removed: whether it was
/// there or not, and whether it could be removed or not, the rendering goes
/// on.  A body that cannot be hydrated, and a page that cannot be wrapped
/// or written, fail the rendering.  An event that the rendering does not
/// await changes nothing, and neither does any event once the rendering is
/// complete, failed or aborted.
pub open spec fn renders(before: Renderer, event: Event, after: Renderer) -> bool {
    match (before.stage, event) {
        (RenderStage::Preparing, Event::Prepared(Ok(_))) => after == (Renderer {
            stage: RenderStage::Clearing,
            ..before
        }),
        (RenderStage::Preparing, Event::Prepared(Err(diagnostic))) => after == (Renderer {
            stage: RenderStage::Failed(CompilationError::Io(diagnostic)),
            ..before
        }),
        (RenderStage::Clearing, Event::Cleared(_)) => after == (Renderer {
            stage: RenderStage::Hydrating,
            ..before
        }),
        (RenderStage::Hydrating, Event::Hydrated(hydrated)) => if before.next
            < before.pages@.len() {
            match hydrated {
                Err(diagnostic) => after == (Renderer {
                    stage: RenderStage::Failed(CompilationError::Render(diagnostic)),
                    ..before
                }),
                Ok(text) => match page_html(text@) {
                    Some(made) => {
                        &&& after == (Renderer { stage: after.stage, ..before })
                        &&& after.stage matches RenderStage::Writing { html }
                        &&& html@ == made
                    },
                    None => after == (Renderer { stage: RenderStage::Aborted, ..before }),
                },
            }
        } else {
            after == before
        },
        (RenderStage::Writing { html }, Event::Written(written)) => if before.next
            < before.pages@.len() {
            match written {
                Ok(_) => after == (Renderer {
                    next: (before.next + 1) as usize,
                    stage: RenderStage::Hydrating,
                    ..before
                }),
                Err(failure) => after == (Renderer {
                    stage: RenderStage::Failed(failure),
                    ..before
                }),
            }
        } else {
            after == before
        },
        _ => after == before,
    }
}

/// Takes the rendering one step further: `event` is the outcome of what the
/// rendering asked for.
pub fn hydrate_compile(renderer: Renderer, event: Event) -> (next: Renderer)
    ensures
        renders(renderer, event, next),
        renderer.wf() ==> next.wf(),
{
    let Renderer { output, pages, order, next, stage } = renderer;
    match stage {
        RenderStage::Preparing => match event {
            Event::Prepared(Ok(_)) => Renderer {
                output,
                pages,
                order,
                next,
                stage: RenderStage::Clearing,
            },
            Event::Prepared(Err(diagnostic)) => Renderer {
                output,
                pages,
                order,
                next,
                stage: RenderStage::Failed(CompilationError::Io(diagnostic)),
            },
            _ => Renderer { output, pages, order, next, stage: RenderStage::Preparing },
        },
        RenderStage::Clearing => match event {
            Event::Cleared(_) => Renderer {
                output,
                pages,
                order,
                next,
                stage: RenderStage::Hydrating,
            },
            _ => Renderer { output, pages, order, next, stage: RenderStage::Clearing },
        },
        RenderStage::Hydrating => {
            let waiting = Renderer { output, pages, order, next, stage: RenderStage::Hydrating };
            if waiting.next >= waiting.pages.len() {
                return waiting;
            }
            match event {
                Event::Hydrated(Ok(text)) => {
                    let html = compile(text.as_str());
                    waiting.converted(html)
                },
                Event::Hydrated(Err(diagnostic)) => Renderer {
                    stage: RenderStage::Failed(CompilationError::Render(diagnostic)),
                    ..waiting
                },
                _ => waiting,
            }
        },
        RenderStage::Writing { html } => {
            if next >= pages.len() {
                return Renderer { output, pages, order, next, stage: RenderStage::Writing { html } };
            }
            match event {
                Event::Written(Ok(_)) => Renderer {
                    output,
                    pages,
                    order,
                    next: next + 1,
                    stage: RenderStage::Hydrating,
                },
                Event::Written(Err(failure)) => Renderer {
                    output,
                    pages,
                    order,
                    next,
                    stage: RenderStage::Failed(failure),
                },
                _ => Renderer { output, pages, order, next, stage: RenderStage::Writing { html } },
            }
        },
        other => Renderer { output, pages, order, next, stage: other },
    }
}

/// That the output tree was not there, or could not be removed, is no
/// failure: whatever the removal came to, the first page is hydrated next.
pub proof fn lemma_cleared_goes_on(
    before: Renderer,
    outcome: Result<(), String>,
    after: Renderer,
    action: Action,
)
    requires
        before.stage is Clearing,
        renders(before, Event::Cleared(outcome), after),
        after.asks(action),
    ensures
        after.stage is Hydrating,
        after.pages == before.pages,
        after.next == before.next,
        after.next < after.pages@.len() ==> action == (Action::Hydrate { page: after.next }),
        after.next >= after.pages@.len() ==> action == Action::Finish(Ok(())),
{
}

/// The pages are dealt with one by one in the order of the walk: a page
/// that is hydrated and written is followed by the page after it.
pub proof fn lemma_page_by_page(
    before: Renderer,
    text: String,
    between: Renderer,
    after: Renderer,
    action: Action,
)
    requires
        before.stage is Hydrating,
        before.next < before.pages@.len(),
        page_html(text@) is Some,
        renders(before, Event::Hydrated(Ok(text)), between),
        renders(between, Event::Written(Ok(())), after),
        between.asks(action),
    ensures
        action matches Action::Write { page, html } && page == before.next && html@ == page_html(
            text@,
        )->Some_0,
        after.stage is Hydrating,
        after.next == before.next + 1,
        after.pages == before.pages,
        after.order == before.order,
{
    assert(before.pages@.len() == before.pages.len());
}

/// A rendering that failed or aborted stays as it is, whatever comes: no
/// page after the failure is dealt with.
pub proof fn lemma_failure_ends_rendering(before: Renderer, event: Event, after: Renderer)
    requires
        before.stage is Failed || before.stage is Aborted,
        renders(before, event, after),
    ensures
        after == before,
{
}

} // verus!
