use std::sync::{Arc, Mutex};

use handlebars::{
    Context, Handlebars, Helper, HelperDef, JsonValue, RenderContext, RenderError,
    RenderErrorReason, ScopedJson,
};
use site_compiler::compile_pages;
use site_compiler::date::Date;
use site_compiler::error::CompilationError;
use site_compiler::helpers::{crate_link, EmbedCache};
use site_compiler::page::{Metadata, Page, SourceFile};
use site_compiler::pipeline::Compilation;
use site_compiler::protocol::{Action, Event};

const TEMPLATE: &str =
    "<html><head><title>{{metadata.title}}</title></head><body>{{content}}</body></html>";

/// A source tree and an output tree that live in memory.
struct World {
    /// Path below the source root, whether the entry is a regular file, and
    /// its text, if it can be read.
    sources: Vec<(String, bool, Option<String>)>,
    /// The places of the walk, counted from its start, where no entry can
    /// be listed.
    unlisted: Vec<usize>,
    /// The files that templates may embed, with the number of reads.
    snippets: Arc<Mutex<Vec<(String, String, usize)>>>,
    cache: Arc<Mutex<EmbedCache>>,
    template: Option<String>,
    write_fails_at: Option<usize>,
    written: Vec<(String, String)>,
    asked: Vec<String>,
}

struct CrateLink;

impl HelperDef for CrateLink {
    fn call_inner<'reg: 'rc, 'rc>(
        &self,
        h: &Helper<'rc>,
        _: &'reg Handlebars<'reg>,
        _: &'rc Context,
        _: &mut RenderContext<'reg, 'rc>,
    ) -> Result<ScopedJson<'rc>, RenderError> {
        let name = h
            .param(0)
            .map(|given| given.value())
            .ok_or_else(|| RenderErrorReason::ParamNotFoundForName("crate", "name".to_string()))?
            .as_str()
            .ok_or_else(|| {
                RenderErrorReason::ParamTypeMismatchForName(
                    "crate",
                    "name".to_string(),
                    "str".to_string(),
                )
            })?;
        let version = match h.hash_get("version") {
            Some(given) => Some(given.value().as_str().ok_or_else(|| {
                RenderErrorReason::HashTypeMismatchForName(
                    "crate",
                    "version".to_string(),
                    "str".to_string(),
                )
            })?),
            None => None,
        };
        Ok(ScopedJson::Derived(JsonValue::from(crate_link(name, version))))
    }
}

struct Embed {
    snippets: Arc<Mutex<Vec<(String, String, usize)>>>,
    cache: Arc<Mutex<EmbedCache>>,
}

impl HelperDef for Embed {
    fn call_inner<'reg: 'rc, 'rc>(
        &self,
        h: &Helper<'rc>,
        _: &'reg Handlebars<'reg>,
        _: &'rc Context,
        _: &mut RenderContext<'reg, 'rc>,
    ) -> Result<ScopedJson<'rc>, RenderError> {
        let path = h
            .param(0)
            .and_then(|given| given.value().as_str())
            .ok_or_else(|| RenderErrorReason::ParamNotFoundForName("embed", "path".to_string()))?;
        let mut cache = self.cache.lock().unwrap();
        let text = match cache.lookup(path) {
            Some(held) => held,
            None => {
                let mut snippets = self.snippets.lock().unwrap();
                let found = snippets
                    .iter_mut()
                    .find(|snippet| snippet.0 == path)
                    .ok_or_else(|| RenderErrorReason::Other(format!("missing file {path}")))?;
                found.2 += 1;
                cache.store(path, found.1.clone())
            }
        };
        Ok(ScopedJson::Derived(JsonValue::from(text)))
    }
}

fn parse_metadata(segment: &str) -> Result<Metadata, String> {
    let value: serde_yaml::Value = serde_yaml::from_str(segment).map_err(|e| e.to_string())?;
    let text = |key: &str| {
        value
            .get(key)
            .and_then(|held| held.as_str())
            .map(|held| held.to_string())
            .ok_or(format!("missing field `{key}`"))
    };
    let title = text("title")?;
    let description = text("description")?;
    let date = text("date")?;
    let parts: Vec<&str> = date.split('-').collect();
    if parts.len() != 3 {
        return Err(format!("invalid date `{date}`"));
    }
    let year = parts[0].parse::<i32>().map_err(|e| e.to_string())?;
    let month = parts[1].parse::<u8>().map_err(|e| e.to_string())?;
    let day = parts[2].parse::<u8>().map_err(|e| e.to_string())?;
    let date = Date::new(year, month, day).ok_or(format!("invalid date `{date}`"))?;
    let mut metadata = Metadata::new(title, description, date);
    if let Some(tags) = value.get("tags").and_then(|held| held.as_sequence()) {
        for tag in tags {
            metadata.tags.push(tag.as_str().ok_or("invalid tag".to_string())?.to_string());
        }
    }
    if let Some(hidden) = value.get("hidden").and_then(|held| held.as_bool()) {
        metadata.hidden = hidden;
    }
    Ok(metadata)
}

fn metadata_json(metadata: &Metadata) -> JsonValue {
    let mut map = serde_json::Map::new();
    map.insert("title".to_string(), JsonValue::from(metadata.title.clone()));
    map.insert("description".to_string(), JsonValue::from(metadata.description.clone()));
    map.insert(
        "date".to_string(),
        JsonValue::from(format!(
            "{:04}-{:02}-{:02}",
            metadata.date.year(),
            metadata.date.month(),
            metadata.date.day()
        )),
    );
    map.insert("tags".to_string(), JsonValue::from(metadata.tags.clone()));
    map.insert("hidden".to_string(), JsonValue::from(metadata.hidden));
    JsonValue::Object(map)
}

fn page_json(page: &Page) -> JsonValue {
    let mut map = serde_json::Map::new();
    map.insert("figurative_path".to_string(), JsonValue::from(page.figurative_path.clone()));
    map.insert("absolute_path".to_string(), JsonValue::from(page.absolute_path.clone()));
    map.insert("metadata".to_string(), metadata_json(&page.metadata));
    map.insert("raw".to_string(), JsonValue::from(page.raw.clone()));
    JsonValue::Object(map)
}

impl World {
    fn new(sources: &[(&str, &str)]) -> World {
        World {
            sources: sources
                .iter()
                .map(|(path, text)| (path.to_string(), true, Some(text.to_string())))
                .collect(),
            unlisted: Vec::new(),
            snippets: Arc::new(Mutex::new(Vec::new())),
            cache: Arc::new(Mutex::new(EmbedCache::new())),
            template: Some(TEMPLATE.to_string()),
            write_fails_at: None,
            written: Vec::new(),
            asked: Vec::new(),
        }
    }

    fn engine(&self) -> Handlebars<'static> {
        let mut engine = Handlebars::new();
        engine.register_escape_fn(handlebars::no_escape);
        engine.register_helper("crate", Box::new(CrateLink));
        engine.register_helper(
            "embed",
            Box::new(Embed { snippets: self.snippets.clone(), cache: self.cache.clone() }),
        );
        if let Some(template) = &self.template {
            engine.register_template_string("template", template).unwrap();
        }
        engine
    }

    fn perform(&mut self, run: &Compilation, action: Action) -> Event {
        match action {
            Action::Discover { root } => {
                let mut found: Vec<Result<SourceFile, String>> = self
                    .sources
                    .iter()
                    .map(|(relative, is_file, _)| {
                        Ok(SourceFile {
                            path: format!("{root}/{relative}"),
                            relative: relative.clone(),
                            name: relative.rsplit('/').next().unwrap().to_string(),
                            is_file: *is_file,
                        })
                    })
                    .collect();
                for place in &self.unlisted {
                    found.insert(*place, Err("permission denied".to_string()));
                }
                Event::Discovered(found)
            }
            Action::Read { path } => Event::Content(
                self.sources
                    .iter()
                    .find(|(relative, _, _)| path.ends_with(relative.as_str()))
                    .and_then(|(_, _, text)| text.clone())
                    .ok_or("cannot read".to_string()),
            ),
            Action::Parse { metadata } => Event::Metadata(parse_metadata(&metadata)),
            Action::Prepare => Event::Prepared(match &self.template {
                Some(_) => Ok(()),
                None => Err("no template".to_string()),
            }),
            Action::Clear { root: _ } => {
                let outcome = if self.written.is_empty() {
                    Err("not found".to_string())
                } else {
                    Ok(())
                };
                self.written.clear();
                Event::Cleared(outcome)
            }
            Action::Hydrate { page } => {
                let Compilation::Rendering(renderer) = run else {
                    panic!("hydration outside the rendering");
                };
                let mut data = serde_json::Map::new();
                data.insert(
                    "pages".to_string(),
                    JsonValue::Array(
                        renderer.order.iter().map(|at| page_json(&renderer.pages[*at])).collect(),
                    ),
                );
                data.insert("page".to_string(), page_json(&renderer.pages[page]));
                Event::Hydrated(
                    self.engine()
                        .render_template(&renderer.pages[page].raw, &JsonValue::Object(data))
                        .map_err(|e| e.to_string()),
                )
            }
            Action::Write { page, html } => {
                let Compilation::Rendering(renderer) = run else {
                    panic!("a write outside the rendering");
                };
                if self.write_fails_at == Some(page) {
                    return Event::Written(Err(CompilationError::Io("disk full".to_string())));
                }
                let mut data = serde_json::Map::new();
                data.insert("metadata".to_string(), metadata_json(&renderer.pages[page].metadata));
                data.insert("content".to_string(), JsonValue::from(html));
                Event::Written(
                    match self.engine().render("template", &JsonValue::Object(data)) {
                        Ok(text) => {
                            self.written.push((renderer.pages[page].figurative_path.clone(), text));
                            Ok(())
                        }
                        Err(e) => Err(CompilationError::Render(e.to_string())),
                    },
                )
            }
            Action::Finish(_) | Action::Abort => unreachable!(),
        }
    }

    fn compile(&mut self, strict: bool) -> Result<(), CompilationError> {
        let mut run = Compilation::new("site", "dist", strict);
        loop {
            let action = run.action();
            self.asked.push(match &action {
                Action::Discover { root } => format!("discover {root}"),
                Action::Read { path } => format!("read {path}"),
                Action::Parse { .. } => "parse".to_string(),
                Action::Prepare => "prepare".to_string(),
                Action::Clear { root } => format!("clear {root}"),
                Action::Hydrate { page } => format!("hydrate {page}"),
                Action::Write { page, .. } => format!("write {page}"),
                Action::Finish(_) => "finish".to_string(),
                Action::Abort => "abort".to_string(),
            });
            if let Action::Finish(result) = action {
                return result;
            }
            let event = self.perform(&run, action);
            run = compile_pages(run, event);
        }
    }
}

fn source(title: &str, date: &str, body: &str) -> String {
    format!("---\ntitle: {title}\ndescription: d\ndate: {date}\n---\n{body}")
}

#[test]
fn a_source_becomes_a_page_in_the_template() {
    let mut world = World::new(&[
        ("index.md", "---\ntitle: A\ndescription: d\ndate: 2024-01-01\n---\n# Hello"),
    ]);
    assert_eq!(world.compile(true), Ok(()));
    assert_eq!(
        world.written,
        vec![(
            "index.html".to_string(),
            "<html><head><title>A</title></head><body><h1>Hello</h1></body></html>".to_string()
        )]
    );
}

#[test]
fn a_run_asks_for_one_thing_after_the_other() {
    let mut world = World::new(&[
        ("a.md", &source("A", "2024-01-01", "a")),
        ("notes.txt", "no source"),
        ("posts/b.md", &source("B", "2024-06-01", "b")),
    ]);
    assert_eq!(world.compile(true), Ok(()));
    assert_eq!(
        world.asked,
        vec![
            "discover site",
            "read site/a.md",
            "parse",
            "read site/posts/b.md",
            "parse",
            "prepare",
            "clear dist",
            "hydrate 0",
            "write 0",
            "hydrate 1",
            "write 1",
            "finish",
        ]
    );
    assert_eq!(
        world.written.iter().map(|(path, _)| path.as_str()).collect::<Vec<_>>(),
        vec!["a.html", "posts/b.html"]
    );
}

#[test]
fn a_tree_without_sources_compiles_to_nothing() {
    let mut world = World::new(&[("style.css", "body {}")]);
    assert_eq!(world.compile(true), Ok(()));
    assert_eq!(world.asked, vec!["discover site", "prepare", "clear dist", "finish"]);
    assert!(world.written.is_empty());
}

#[test]
fn a_body_sees_the_pages_latest_first() {
    let listing = "{{#each pages}}{{this.metadata.title}} {{this.figurative_path}};{{/each}}";
    let mut world = World::new(&[
        ("old.md", &source("Old", "2024-01-01", listing)),
        ("first.md", &source("First", "2024-06-01", "x")),
        ("second.md", &source("Second", "2024-06-01", "x")),
    ]);
    assert_eq!(world.compile(true), Ok(()));
    assert_eq!(
        world.written[0],
        (
            "old.html".to_string(),
            "<html><head><title>Old</title></head><body><p>First first.html;Second second.html;Old old.html;</p></body></html>"
                .to_string()
        )
    );
}

#[test]
fn a_body_sees_its_own_page() {
    let mut world = World::new(&[
        ("a.md", &source("A", "2024-01-01", "{{page.metadata.title}} of {{page.metadata.date}}")),
        ("b.md", &source("B", "2024-06-01", "{{page.metadata.title}} at {{page.absolute_path}}")),
    ]);
    assert_eq!(world.compile(true), Ok(()));
    assert!(world.written[0].1.contains("<p>A of 2024-01-01</p>"));
    assert!(world.written[1].1.contains("<p>B at site/b.md</p>"));
}

#[test]
fn a_package_link_without_version_names_the_latest() {
    let mut world = World::new(&[("a.md", &source("A", "2024-01-01", "{{crate \"serde\"}}"))]);
    assert_eq!(world.compile(true), Ok(()));
    assert!(world.written[0].1.contains(
        "<p><a href=\"https://docs.rs/serde/latest\">serde</a> <img src=\"/static/crate-small.svg\" alt=\"\" /></p>"
    ));
}

#[test]
fn a_package_link_with_a_version_names_it() {
    let mut world = World::new(&[(
        "a.md",
        &source("A", "2024-01-01", "{{crate \"serde\" version=\"1.0.200\"}}"),
    )]);
    assert_eq!(world.compile(true), Ok(()));
    assert!(world.written[0].1.contains("<a href=\"https://docs.rs/serde/1.0.200\">serde</a>"));
}

#[test]
fn an_embedded_file_is_read_once() {
    let mut world = World::new(&[
        ("a.md", &source("A", "2024-01-01", "{{embed \"p\"}} and {{embed \"p\"}}")),
        ("b.md", &source("B", "2024-01-02", "{{embed \"p\"}} or {{embed \"./p\"}}")),
    ]);
    world.snippets.lock().unwrap().push(("p".to_string(), "*text*".to_string(), 0));
    world.snippets.lock().unwrap().push(("./p".to_string(), "same file".to_string(), 0));
    assert_eq!(world.compile(true), Ok(()));
    assert!(world.written[0].1.contains("<p><em>text</em> and <em>text</em></p>"));
    assert!(world.written[1].1.contains("<p><em>text</em> or same file</p>"));
    assert_eq!(world.snippets.lock().unwrap()[0].2, 1);
    assert_eq!(world.snippets.lock().unwrap()[1].2, 1);
}

#[test]
fn a_missing_embedded_file_fails_the_run() {
    let mut world = World::new(&[("a.md", &source("A", "2024-01-01", "{{embed \"nowhere\"}}"))]);
    assert!(matches!(world.compile(true), Err(CompilationError::Render(_))));
    assert!(world.written.is_empty());
}

#[test]
fn compiling_twice_gives_the_same_files() {
    let mut world = World::new(&[
        ("a.md", &source("A", "2024-01-01", "{{embed \"p\"}} {{crate \"time\"}}")),
        ("b/c.md", &source("C", "2024-03-01", "{{#each pages}}{{this.metadata.title}}{{/each}}")),
    ]);
    world.snippets.lock().unwrap().push(("p".to_string(), "text".to_string(), 0));
    assert_eq!(world.compile(true), Ok(()));
    let first = world.written.clone();
    assert_eq!(first.len(), 2);
    assert_eq!(world.compile(true), Ok(()));
    assert_eq!(world.written, first);
}

#[test]
fn an_output_tree_that_is_not_there_is_no_failure() {
    let mut world = World::new(&[("a.md", &source("A", "2024-01-01", "a"))]);
    assert_eq!(world.compile(true), Ok(()));
    world.written.clear();
    assert_eq!(world.compile(true), Ok(()));
    assert_eq!(world.written.len(), 1);
    assert_eq!(world.written[0].0, "a.html");
}

#[test]
fn a_source_without_delimiter_fails_the_run() {
    let mut world = World::new(&[
        ("a.md", &source("A", "2024-01-01", "a")),
        ("b.md", "# no front matter"),
        ("c.md", &source("C", "2024-01-01", "c")),
    ]);
    assert_eq!(world.compile(true), Err(CompilationError::FrontMatter));
    assert!(world.written.is_empty());
    assert_eq!(
        world.asked,
        vec!["discover site", "read site/a.md", "parse", "read site/b.md", "finish"]
    );
}

#[test]
fn a_source_with_one_delimiter_fails_the_run() {
    let mut world = World::new(&[("a.md", "---\ntitle: A\n")]);
    assert_eq!(world.compile(true), Err(CompilationError::Content));
    assert!(world.written.is_empty());
}

#[test]
fn metadata_without_a_title_fails_the_run() {
    let mut world = World::new(&[("a.md", "---\ndescription: d\ndate: 2024-01-01\n---\nbody")]);
    assert_eq!(
        world.compile(true),
        Err(CompilationError::Yaml("missing field `title`".to_string()))
    );
    assert!(world.written.is_empty());
}

#[test]
fn a_source_that_cannot_be_read_fails_the_run() {
    let mut world = World::new(&[("a.md", "")]);
    world.sources[0].2 = None;
    assert_eq!(world.compile(true), Err(CompilationError::Io("cannot read".to_string())));
}

#[test]
fn the_first_failure_is_the_failure_of_the_run() {
    let mut world = World::new(&[
        ("a.md", "---\ndate: 2024-01-01\n---\nbody"),
        ("b.md", "no front matter"),
    ]);
    assert!(matches!(world.compile(true), Err(CompilationError::Yaml(_))));
}

#[test]
fn a_template_that_cannot_be_read_fails_before_the_output_is_removed() {
    let mut world = World::new(&[("a.md", &source("A", "2024-01-01", "a"))]);
    world.template = None;
    world.written.push(("stale.html".to_string(), "stale".to_string()));
    assert_eq!(world.compile(true), Err(CompilationError::Io("no template".to_string())));
    assert_eq!(world.written.len(), 1);
    assert_eq!(world.asked.last().unwrap(), "finish");
    assert!(!world.asked.contains(&"clear dist".to_string()));
}

#[test]
fn a_body_that_cannot_be_hydrated_fails_the_run_and_keeps_what_was_written() {
    let mut world = World::new(&[
        ("a.md", &source("A", "2024-01-01", "fine")),
        ("b.md", &source("B", "2024-01-01", "{{nothing-of-the-kind 1}}")),
        ("c.md", &source("C", "2024-01-01", "fine")),
    ]);
    assert!(matches!(world.compile(true), Err(CompilationError::Render(_))));
    assert_eq!(world.written.len(), 1);
    assert_eq!(world.written[0].0, "a.html");
    assert!(!world.asked.contains(&"hydrate 2".to_string()));
}

#[test]
fn a_body_with_broken_template_syntax_fails_the_run() {
    let mut world = World::new(&[("a.md", &source("A", "2024-01-01", "{{#if}}"))]);
    assert!(matches!(world.compile(true), Err(CompilationError::Render(_))));
}

#[test]
fn a_page_that_cannot_be_written_fails_the_run() {
    let mut world = World::new(&[
        ("a.md", &source("A", "2024-01-01", "a")),
        ("b.md", &source("B", "2024-01-01", "b")),
        ("c.md", &source("C", "2024-01-01", "c")),
    ]);
    world.write_fails_at = Some(1);
    assert_eq!(world.compile(true), Err(CompilationError::Io("disk full".to_string())));
    assert_eq!(world.written.len(), 1);
    assert_eq!(world.asked.last().unwrap(), "finish");
    assert_eq!(world.asked[world.asked.len() - 2], "write 1");
}

#[test]
fn the_strict_filter_passes_over_what_is_no_regular_file() {
    let mut strict = World::new(&[("posts.md", ""), ("posts.md/a.md", &source("A", "2024-01-01", "a"))]);
    strict.sources[0].1 = false;
    strict.sources[0].2 = None;
    assert_eq!(strict.compile(true), Ok(()));
    assert_eq!(strict.written.len(), 1);
    assert_eq!(strict.written[0].0, "posts.md/a.html");

    let mut lenient = World::new(&[("posts.md", ""), ("posts.md/a.md", &source("A", "2024-01-01", "a"))]);
    lenient.sources[0].1 = false;
    lenient.sources[0].2 = None;
    assert_eq!(lenient.compile(false), Err(CompilationError::Io("cannot read".to_string())));
}

#[test]
fn what_the_walk_cannot_list_is_passed_over() {
    let mut world = World::new(&[
        ("a.md", &source("A", "2024-01-01", "a")),
        ("b.md", &source("B", "2024-01-02", "b")),
    ]);
    world.unlisted = vec![0, 2, 4];
    assert_eq!(world.compile(true), Ok(()));
    assert_eq!(
        world.written.iter().map(|(path, _)| path.as_str()).collect::<Vec<_>>(),
        vec!["a.html", "b.html"]
    );
    assert_eq!(
        world.asked,
        vec![
            "discover site",
            "read site/a.md",
            "parse",
            "read site/b.md",
            "parse",
            "prepare",
            "clear dist",
            "hydrate 0",
            "write 0",
            "hydrate 1",
            "write 1",
            "finish",
        ]
    );
}

#[test]
fn a_walk_that_lists_nothing_compiles_to_nothing() {
    let mut world = World::new(&[]);
    world.unlisted = vec![0];
    assert_eq!(world.compile(true), Ok(()));
    assert!(world.written.is_empty());
}

#[test]
fn an_event_that_is_not_awaited_changes_nothing() {
    let run = Compilation::new("site", "dist", true);
    let run = compile_pages(run, Event::Cleared(Ok(())));
    assert_eq!(run, Compilation::new("site", "dist", true));
    let run = compile_pages(run, Event::Content(Ok("text".to_string())));
    assert_eq!(run, Compilation::new("site", "dist", true));
    let run = compile_pages(run, Event::Hydrated(Ok("text".to_string())));
    assert_eq!(run.action(), Action::Discover { root: "site".to_string() });
}

#[test]
fn html_waits_in_the_action_that_writes_it() {
    let entry = SourceFile {
        path: "site/a.md".to_string(),
        relative: "a.md".to_string(),
        name: "a.md".to_string(),
        is_file: true,
    };
    let mut run = Compilation::new("site", "dist", true);
    let metadata = Metadata::new("A".to_string(), "d".to_string(), Date::new(2024, 1, 1).unwrap());
    for event in [
        Event::Discovered(vec![Ok(entry)]),
        Event::Content(Ok("---\nm\n---\nbody".to_string())),
        Event::Metadata(Ok(metadata)),
        Event::Prepared(Ok(())),
        Event::Cleared(Err("not found".to_string())),
    ] {
        run = compile_pages(run, event);
    }
    assert_eq!(run.action(), Action::Hydrate { page: 0 });
    run = compile_pages(run, Event::Hydrated(Ok("*hydrated*".to_string())));
    assert_eq!(
        run.action(),
        Action::Write { page: 0, html: "<p><em>hydrated</em></p>".to_string() }
    );
    run = compile_pages(run, Event::Hydrated(Ok("again".to_string())));
    assert_eq!(
        run.action(),
        Action::Write { page: 0, html: "<p><em>hydrated</em></p>".to_string() }
    );
    run = compile_pages(run, Event::Written(Ok(())));
    assert_eq!(run.action(), Action::Finish(Ok(())));
    run = compile_pages(run, Event::Written(Err(CompilationError::Content)));
    assert_eq!(run.action(), Action::Finish(Ok(())));
}
