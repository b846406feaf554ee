//! What the template helpers compute: the link to a package's
//! documentation, and the cache of embedded files.

use vstd::prelude::*;
use vstd::hash_map::StringHashMap;
use vstd::string::StringExecFns;

verus! {

/// The markup that links to the documentation of package `name` at
/// `version`, followed by the package icon.
pub open spec fn crate_link_text(name: Seq<char>, version: Seq<char>) -> Seq<char> {
    "["@ + name + "](https://docs.rs/"@ + name + "/"@ + version
        + ") ![](/static/crate-small.svg)"@
}

/// The version that a link names where the template gives none.
pub open spec fn default_version() -> Seq<char> {
    "latest"@
}

/// The markup that links to the documentation of package `name`.  Without a
/// version the link names the default version.
pub fn crate_link(name: &str, version: Option<&str>) -> (link: String)
    ensures
        link@ == crate_link_text(
            name@,
            match version {
                Some(given) => given@,
                None => default_version(),
            },
        ),
{
    let version = match version {
        Some(given) => given,
        None => "latest",
    };
    let mut link = String::from_str("[");
    link.append(name);
    link.append("](https://docs.rs/");
    link.append(name);
    link.append("/");
    link.append(version);
    link.append(") ![](/static/crate-small.svg)");
    link
}

/// What the cache holds after the text read for `path` was handed to it: a
/// text that it held already stays.
pub open spec fn stored(
    cache: Map<Seq<char>, Seq<char>>,
    path: Seq<char>,
    text: Seq<char>,
) -> Map<Seq<char>, Seq<char>> {
    if cache.contains_key(path) {
        cache
    } else {
        cache.insert(path, text)
    }
}

/// Whether every text in the cache is what `files` holds under its path.
pub open spec fn agrees_with(
    cache: Map<Seq<char>, Seq<char>>,
    files: Map<Seq<char>, Seq<char>>,
) -> bool {
    forall|path: Seq<char>| #[trigger]
        cache.contains_key(path) ==> files.contains_key(path) && cache[path] == files[path]
}

/// The texts of the files that templates embed, each under the path as the
/// template wrote it.  The cache is filled on demand and never emptied.
pub struct EmbedCache {
    texts: StringHashMap<String>,
}

impl View for EmbedCache {
    type V = Map<Seq<char>, Seq<char>>;

    closed spec fn view(&self) -> Map<Seq<char>, Seq<char>> {
        self.texts@.map_values(|text: String| text@)
    }
}

impl EmbedCache {
    /// A cache that holds nothing.
    pub fn new() -> (cache: EmbedCache)
        ensures
            cache@ == Map::<Seq<char>, Seq<char>>::empty(),
    {
        let cache = EmbedCache { texts: StringHashMap::new() };
        assert(cache@ =~= Map::<Seq<char>, Seq<char>>::empty());
        cache
    }

    /// The text held under exactly `path`, if any.
    pub fn lookup(&self, path: &str) -> (text: Option<String>)
        ensures
            match text {
                Some(held) => self@.contains_key(path@) && held@ == self@[path@],
                None => !self@.contains_key(path@),
            },
    {
        match self.texts.get(path) {
            Some(held) => Some(held.clone()),
            None => None,
        }
    }

    /// Takes the text that was read for `path`, and gives the text that the
    /// cache now holds under `path`.
    pub fn store(&mut self, path: &str, text: String) -> (held: String)
        ensures
            final(self)@ == stored(old(self)@, path@, text@),
            held@ == final(self)@[path@],
    {
        match self.texts.get(path) {
            Some(earlier) => earlier.clone(),
            None => {
                let held = text.clone();
                let ghost before = self.texts@;
                self.texts.insert(String::from_str(path), text);
                assert(self@ =~= stored(old(self)@, path@, text@)) by {
                    assert(self.texts@ == before.insert(path@, text));
                }
                held
            },
        }
    }
}

/// A text that was stored under a path is what a later lookup of exactly
/// that path gives, and storing it touches no other path.
pub proof fn lemma_store_then_lookup(
    cache: Map<Seq<char>, Seq<char>>,
    path: Seq<char>,
    text: Seq<char>,
    other: Seq<char>,
)
    requires
        other != path,
    ensures
        stored(cache, path, text).contains_key(path),
        !cache.contains_key(path) ==> stored(cache, path, text)[path] == text,
        cache.contains_key(path) ==> stored(cache, path, text)[path] == cache[path],
        stored(cache, path, text).contains_key(other) == cache.contains_key(other),
        cache.contains_key(other) ==> stored(cache, path, text)[other] == cache[other],
{
}

/// Storing a second time under one path changes nothing.
pub proof fn lemma_store_twice(
    cache: Map<Seq<char>, Seq<char>>,
    path: Seq<char>,
    first: Seq<char>,
    second: Seq<char>,
)
    ensures
        stored(stored(cache, path, first), path, second) == stored(cache, path, first),
{
}

/// While the files do not change, a cache that agrees with them goes on
/// agreeing, and gives for a path what the file under it holds.
pub proof fn lemma_cache_agrees(
    cache: Map<Seq<char>, Seq<char>>,
    files: Map<Seq<char>, Seq<char>>,
    path: Seq<char>,
)
    requires
        agrees_with(cache, files),
        files.contains_key(path),
    ensures
        agrees_with(stored(cache, path, files[path]), files),
        stored(cache, path, files[path])[path] == files[path],
{
}

} // verus!
