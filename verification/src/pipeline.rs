//! A compilation run: the sources are loaded, then the pages are rendered.

use vstd::prelude::*;
use vstd::string::StringExecFns;
use crate::loader::{loads, read_pages, LoadStage, Loader};
use crate::protocol::{Action, Event};
use crate::renderer::{hydrate_compile, renders, Renderer};

verus! {

/// The state of a compilation run.
#[derive(Debug, PartialEq, Eq)]
pub enum Compilation {
    /// The sources are being loaded; `output` is the root of the tree that
    /// the pages will go to.
    Loading { loader: Loader, output: String },
    /// The pages are being rendered and written.
    Rendering(Renderer),
}

impl Compilation {
    /// The invariant of a run: that of its part, and a load that is
    /// complete has given way to the rendering.
    pub open spec fn wf(self) -> bool {
        match self {
            Compilation::Loading { loader, output } => loader.wf() && !loader.is_loaded(),
            Compilation::Rendering(renderer) => renderer.wf(),
        }
    }

    /// A run that compiles the tree under `source` into the tree under
    /// `output`, before its first step.  With `strict`, discovery takes
    /// regular files only.
    pub fn new(source: &str, output: &str, strict: bool) -> (run: Compilation)
        ensures
            run.wf(),
            run matches Compilation::Loading { loader, output: root } && root@ == output@
                && loader.root@ == source@ && loader.strict == strict && loader.stage is Walking,
    {
        Compilation::Loading { loader: Loader::new(source, strict), output: String::from_str(output) }
    }

    /// What `action` gives: what the part of the run that is at work asks.
    pub open spec fn asks(self, action: Action) -> bool {
        match self {
            Compilation::Loading { loader, output } => loader.asks(action),
            Compilation::Rendering(renderer) => renderer.asks(action),
        }
    }

    /// What the run awaits from its driver, or its result.  A failure of
    /// the load or of the rendering is the failure of the run, unchanged.
    pub fn action(&self) -> (action: Action)
        ensures
            self.asks(action),
    {
        match self {
            Compilation::Loading { loader, output } => loader.action(),
            Compilation::Rendering(renderer) => renderer.action(),
        }
    }
}

/// How `event` takes a run from `before` to `after`: it takes the load one
/// step further, and a load that is then complete hands its pages to the
/// rendering; or it takes the rendering one step further.
pub open spec fn compiles(before: Compilation, event: Event, after: Compilation) -> bool {
    match before {
        Compilation::Loading { loader, output } => exists|stepped: Loader| #[trigger]
            loads(loader, event, stepped) && if stepped.is_loaded() {
                after matches Compilation::Rendering(renderer) && renderer.opens(
                    output,
                    stepped.pages,
                )
            } else {
                after == (Compilation::Loading { loader: stepped, output })
            },
        Compilation::Rendering(renderer) => after matches Compilation::Rendering(stepped)
            && renders(renderer, event, stepped),
    }
}

/// Takes a run one step further: `event` is the outcome of what the run
/// asked for.
pub fn compile_pages(run: Compilation, event: Event) -> (next: Compilation)
    ensures
        compiles(run, event, next),
        run.wf() ==> next.wf(),
{
    match run {
        Compilation::Loading { loader, output } => {
            let stepped = read_pages(loader, event);
            let complete = match &stepped.stage {
                LoadStage::Reading => stepped.seek() >= stepped.entries.len(),
                _ => false,
            };
            if complete {
                Compilation::Rendering(Renderer::new(output, stepped.pages))
            } else {
                Compilation::Loading { loader: stepped, output }
            }
        },
        Compilation::Rendering(renderer) => Compilation::Rendering(
            hydrate_compile(renderer, event),
        ),
    }
}

/// The failure of the load is the failure of the run, unchanged: a run
/// whose load failed asks its driver to finish with that failure, renders
/// nothing, and stays as it is whatever comes.
pub proof fn lemma_load_failure_ends_run(
    before: Compilation,
    event: Event,
    after: Compilation,
    action: Action,
)
    requires
        before matches Compilation::Loading { loader, output } && loader.stage is Failed,
        compiles(before, event, after),
        before.asks(action),
    ensures
        after == before,
        action == Action::Finish(Err(before->loader.stage->Failed_0)),
{
}

/// The step that completes the load opens the rendering of the pages that
/// the load has made, in the order of the walk.
pub proof fn lemma_rendering_follows_load(
    loader: Loader,
    output: String,
    event: Event,
    stepped: Loader,
    after: Compilation,
    action: Action,
)
    requires
        !(loader.stage is Failed),
        loads(loader, event, stepped),
        stepped.is_loaded(),
        compiles(Compilation::Loading { loader, output }, event, after),
        after.asks(action),
    ensures
        after matches Compilation::Rendering(renderer) && renderer.pages@ == stepped.pages@
            && renderer.output == output && renderer.wf(),
        action == Action::Prepare,
{
    let other = choose|other: Loader| #[trigger]
        loads(loader, event, other) && if other.is_loaded() {
            after matches Compilation::Rendering(renderer) && renderer.opens(output, other.pages)
        } else {
            after == (Compilation::Loading { loader: other, output })
        };
    assert(other.entries == stepped.entries);
    assert(other.cursor == stepped.cursor);
    assert(other.pages@ == stepped.pages@);
}

} // verus!
