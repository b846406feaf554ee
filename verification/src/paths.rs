//! Names and paths of sources and pages, as text with `/` between the
//! components.

use vstd::prelude::*;
use vstd::string::StringExecFns;
use crate::text::chars_of;

verus! {

/// Whether `name` ends in the extension of a Markdown source.
pub open spec fn is_markdown_name(name: Seq<char>) -> bool {
    &&& name.len() >= 3
    &&& name[name.len() - 3] == '.'
    &&& name[name.len() - 2] == 'm'
    &&& name[name.len() - 1] == 'd'
}

/// Whether discovery takes an entry with this name.  The strict filter
/// takes regular files only.
pub open spec fn is_selected(name: Seq<char>, is_file: bool, strict: bool) -> bool {
    is_markdown_name(name) && (is_file || !strict)
}

/// The greatest position below `upto` where `text` holds `c`, or -1.
pub open spec fn last_position(text: Seq<char>, c: char, upto: int) -> int
    decreases upto,
{
    if upto <= 0 || upto > text.len() {
        -1
    } else if text[upto - 1] == c {
        upto - 1
    } else {
        last_position(text, c, upto - 1)
    }
}

/// Where the last component of `path` starts.
pub open spec fn file_name_start(path: Seq<char>) -> int {
    last_position(path, '/', path.len() as int) + 1
}

/// The position of the dot that starts the extension of `path`: the last
/// dot of the last component, unless that dot is the component's first
/// character.
pub open spec fn extension_dot(path: Seq<char>) -> Option<int> {
    let dot = last_position(path, '.', path.len() as int);
    if dot > file_name_start(path) {
        Some(dot)
    } else {
        None
    }
}

/// The path of the page made from the source at `path`: the extension is
/// replaced by `html`, and a path without one gets `.html`.
pub open spec fn html_path(path: Seq<char>) -> Seq<char> {
    match extension_dot(path) {
        Some(dot) => path.subrange(0, dot + 1) + "html"@,
        None => path + ".html"@,
    }
}

/// `last_position` gives a position of `c` below `upto` that no other
/// follows, and -1 only where there is none.
pub proof fn lemma_last_position(text: Seq<char>, c: char, upto: int)
    requires
        0 <= upto <= text.len(),
    ensures
        -1 <= last_position(text, c, upto) < upto,
        last_position(text, c, upto) >= 0 ==> text[last_position(text, c, upto)] == c,
        forall|k: int| last_position(text, c, upto) < k < upto ==> text[k] != c,
    decreases upto,
{
    if upto > 0 && text[upto - 1] != c {
        lemma_last_position(text, c, upto - 1);
    }
}

/// A Markdown source with a name before its extension becomes a page of the
/// same path with `html` in place of `md`.
pub proof fn lemma_markdown_page(path: Seq<char>)
    requires
        is_markdown_name(path),
        path.len() >= 4,
        path[path.len() - 4] != '/',
    ensures
        html_path(path) == path.subrange(0, path.len() - 2) + "html"@,
{
    let len = path.len() as int;
    lemma_last_position(path, '.', len);
    lemma_last_position(path, '/', len);
    reveal_with_fuel(last_position, 4);
}

/// Whether discovery takes an entry with this name.
pub fn selects(name: &str, is_file: bool, strict: bool) -> (taken: bool)
    ensures
        taken == is_selected(name@, is_file, strict),
{
    if strict && !is_file {
        return false;
    }
    let chars = chars_of(name);
    let len: usize = chars.len();
    len >= 3 && chars[len - 3] == '.' && chars[len - 2] == 'm' && chars[len - 1] == 'd'
}

fn find_last(chars: &Vec<char>, c: char) -> (found: Option<usize>)
    ensures
        match found {
            Some(at) => at < chars.len() && at == last_position(
                chars@,
                c,
                chars@.len() as int,
            ),
            None => last_position(chars@, c, chars@.len() as int) == -1,
        },
{
    let mut upto: usize = chars.len();
    while upto > 0
        invariant
            upto <= chars@.len(),
            last_position(chars@, c, chars@.len() as int) == last_position(chars@, c, upto as int),
        decreases upto,
    {
        if chars[upto - 1] == c {
            return Some(upto - 1);
        }
        upto = upto - 1;
    }
    None
}

/// The path of the page made from the source at `path`.
pub fn page_path(path: &str) -> (page: String)
    ensures
        page@ == html_path(path@),
{
    let chars = chars_of(path);
    let start: usize = match find_last(&chars, '/') {
        Some(slash) => slash + 1,
        None => 0,
    };
    match find_last(&chars, '.') {
        Some(dot) if dot > start => String::from_str(path.substring_char(0, dot + 1)).concat(
            "html",
        ),
        _ => String::from_str(path).concat(".html"),
    }
}

} // verus!
