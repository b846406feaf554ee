//! The split of a source into its metadata segment and its body.
//!
//! A source holds three segments, parted by a delimiter line: three hyphens
//! and a line feed.  What stands before the first delimiter is ignored, what
//! stands between the first and the second is the metadata segment, and all
//! that follows the second is the body, further delimiters included.

use vstd::prelude::*;
use vstd::string::StringExecFns;
use crate::error::CompilationError;
use crate::text::chars_of;

verus! {

/// Whether the delimiter line stands in `text` at position `at`.
pub open spec fn delimiter_at(text: Seq<char>, at: int) -> bool {
    &&& 0 <= at
    &&& at + 4 <= text.len()
    &&& text[at] == '-'
    &&& text[at + 1] == '-'
    &&& text[at + 2] == '-'
    &&& text[at + 3] == '\n'
}

/// The least position at or after `from` where the delimiter line stands.
pub open spec fn first_delimiter(text: Seq<char>, from: int) -> Option<int>
    decreases text.len() - from,
{
    if from < 0 || from + 4 > text.len() {
        None
    } else if delimiter_at(text, from) {
        Some(from)
    } else {
        first_delimiter(text, from + 1)
    }
}

/// The metadata segment and the body of `text`, or the failure that its
/// shape gives.  The search for the second delimiter starts behind the first.
pub open spec fn framing(text: Seq<char>) -> Result<(Seq<char>, Seq<char>), CompilationError> {
    match first_delimiter(text, 0) {
        None => Err(CompilationError::FrontMatter),
        Some(first) => match first_delimiter(text, first + 4) {
            None => Err(CompilationError::Content),
            Some(second) => Ok(
                (text.subrange(first + 4, second), text.subrange(second + 4, text.len() as int)),
            ),
        },
    }
}

/// `first_delimiter` gives a position of the delimiter that no other from
/// `from` on precedes, and gives none only where there is none.
pub proof fn lemma_first_delimiter(text: Seq<char>, from: int)
    requires
        0 <= from,
    ensures
        match first_delimiter(text, from) {
            Some(at) => from <= at && delimiter_at(text, at) && forall|k: int|
                from <= k < at ==> !delimiter_at(text, k),
            None => forall|k: int| from <= k ==> !delimiter_at(text, k),
        },
    decreases text.len() - from,
{
    if from + 4 <= text.len() && !delimiter_at(text, from) {
        lemma_first_delimiter(text, from + 1);
    }
}

/// A text without a delimiter line has no front matter.
pub proof fn lemma_no_delimiter(text: Seq<char>)
    requires
        forall|k: int| !delimiter_at(text, k),
    ensures
        framing(text) == Err::<(Seq<char>, Seq<char>), CompilationError>(
            CompilationError::FrontMatter,
        ),
{
    lemma_first_delimiter(text, 0);
}

/// A text with exactly one delimiter line has front matter and no content.
pub proof fn lemma_single_delimiter(text: Seq<char>, only: int)
    requires
        delimiter_at(text, only),
        forall|k: int| k != only ==> !delimiter_at(text, k),
    ensures
        framing(text) == Err::<(Seq<char>, Seq<char>), CompilationError>(
            CompilationError::Content,
        ),
{
    lemma_first_delimiter(text, 0);
    lemma_first_delimiter(text, only + 4);
}

/// A text with two delimiter lines is split at the first two of them: the
/// metadata segment stands between them and the body is all that follows
/// the second, whatever it holds.
pub proof fn lemma_two_delimiters(text: Seq<char>, first: int, second: int)
    requires
        delimiter_at(text, first),
        delimiter_at(text, second),
        first < second,
        forall|k: int| k < second && k != first ==> !delimiter_at(text, k),
    ensures
        framing(text) == Ok::<(Seq<char>, Seq<char>), CompilationError>(
            (text.subrange(first + 4, second), text.subrange(second + 4, text.len() as int)),
        ),
{
    lemma_first_delimiter(text, 0);
    lemma_first_delimiter(text, first + 4);
}

/// Two delimiter lines do not overlap.
pub proof fn lemma_delimiters_apart(text: Seq<char>, first: int, second: int)
    requires
        delimiter_at(text, first),
        delimiter_at(text, second),
        first < second,
    ensures
        first + 4 <= second,
{
}

/// The shape of a text decides its framing: it fails for want of front
/// matter exactly where the text has no delimiter line, for want of content
/// exactly where it has one and no more, and succeeds exactly where it has
/// two.
pub proof fn lemma_framing_by_delimiters(text: Seq<char>)
    ensures
        framing(text) == Err::<(Seq<char>, Seq<char>), CompilationError>(
            CompilationError::FrontMatter,
        ) <==> forall|k: int| !delimiter_at(text, k),
        framing(text) == Err::<(Seq<char>, Seq<char>), CompilationError>(
            CompilationError::Content,
        ) <==> exists|only: int|
            delimiter_at(text, only) && forall|k: int| k != only ==> !delimiter_at(text, k),
        framing(text) is Ok <==> exists|first: int, second: int|
            first < second && delimiter_at(text, first) && delimiter_at(text, second),
{
    lemma_first_delimiter(text, 0);
    match first_delimiter(text, 0) {
        None => {},
        Some(first) => {
            lemma_first_delimiter(text, first + 4);
            assert(delimiter_at(text, first));
            match first_delimiter(text, first + 4) {
                None => {
                    assert forall|k: int| k != first implies !delimiter_at(text, k) by {
                        if delimiter_at(text, k) && first < k {
                            lemma_delimiters_apart(text, first, k);
                        }
                    }
                    assert forall|a: int, b: int|
                        a < b && delimiter_at(text, a) implies !delimiter_at(text, b) by {
                        if delimiter_at(text, b) {
                            lemma_delimiters_apart(text, a, b);
                        }
                    }
                },
                Some(second) => {
                    assert(first < second && delimiter_at(text, first) && delimiter_at(
                        text,
                        second,
                    ));
                    assert forall|only: int| delimiter_at(text, only) implies !(forall|k: int|
                        k != only ==> !delimiter_at(text, k)) by {
                        if only == first {
                            assert(delimiter_at(text, second));
                        } else {
                            assert(delimiter_at(text, first));
                        }
                    }
                },
            }
        },
    }
}

/// A source split at its first two delimiter lines.
#[derive(Clone, Debug, PartialEq, Eq)]
pub struct Framed {
    /// The text between the first delimiter and the second.
    pub metadata: String,
    /// The text behind the second delimiter.
    pub body: String,
}

fn find_delimiter(chars: &Vec<char>, from: usize) -> (found: Option<usize>)
    ensures
        match found {
            Some(at) => at + 4 <= chars@.len() && first_delimiter(chars@, from as int) == Some(
                at as int,
            ),
            None => first_delimiter(chars@, from as int) is None,
        },
{
    let len: usize = chars.len();
    let mut at: usize = from;
    while at <= len && len - at >= 4
        invariant
            len == chars@.len(),
            from <= at,
            first_delimiter(chars@, from as int) == first_delimiter(chars@, at as int),
        decreases len - at,
    {
        if chars[at] == '-' && chars[at + 1] == '-' && chars[at + 2] == '-' && chars[at + 3]
            == '\n' {
            return Some(at);
        }
        at = at + 1;
    }
    None
}

/// Splits a source into its metadata segment and its body.
///
/// Fails with `FrontMatter` where `text` holds no delimiter line, and with
/// `Content` where it holds only one.
pub fn split_front_matter(text: &str) -> (framed: Result<Framed, CompilationError>)
    ensures
        match framing(text@) {
            Ok((metadata, body)) => framed matches Ok(f) && f.metadata@ == metadata && f.body@
                == body,
            Err(failure) => framed == Err::<Framed, CompilationError>(failure),
        },
{
    let chars = chars_of(text);
    let first: usize = match find_delimiter(&chars, 0) {
        Some(first) => first,
        None => {
            return Err(CompilationError::FrontMatter);
        },
    };
    let second: usize = match find_delimiter(&chars, first + 4) {
        Some(second) => second,
        None => {
            return Err(CompilationError::Content);
        },
    };
    proof {
        lemma_first_delimiter(chars@, first + 4);
    }
    let metadata = String::from_str(text.substring_char(first + 4, second));
    let body = String::from_str(text.substring_char(second + 4, chars.len()));
    Ok(Framed { metadata, body })
}

} // verus!
