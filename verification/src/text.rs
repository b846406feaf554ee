//! Strings as sequences of characters.

use vstd::prelude::*;
use vstd::std_specs::iter::IteratorSpec;

verus! {

/// The characters of `text`, in order.
pub fn chars_of(text: &str) -> (chars: Vec<char>)
    ensures
        chars@ == text@,
{
    broadcast use vstd::string::group_string_axioms;

    let mut chars: Vec<char> = Vec::new();
    let mut rest = text.chars();
    loop
        invariant
            rest.obeys_prophetic_iter_laws(),
            chars@.len() <= text@.len(),
            rest.remaining() == text@.subrange(chars@.len() as int, text@.len() as int),
            chars@ == text@.subrange(0, chars@.len() as int),
        ensures
            chars@ == text@,
        decreases text@.len() - chars@.len(),
    {
        match rest.next() {
            Some(c) => {
                assert(rest.remaining() =~= text@.subrange(chars@.len() as int + 1, text@.len() as int));
                assert(chars@.push(c) =~= text@.subrange(0, chars@.len() as int + 1));
                chars.push(c);
            },
            None => {
                assert(text@.subrange(chars@.len() as int, text@.len() as int).len() == 0);
                assert(chars@ =~= text@);
                break ;
            },
        }
    }
    chars
}

} // verus!
