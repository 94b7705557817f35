//! Lines of input: telling comment lines from the rest.

use vstd::prelude::*;
use vstd::std_specs::iter::IteratorSpec;
use vstd::string::*;

verus! {

/// Whether std's `char::is_whitespace` holds of `c`: whether `c` has the Unicode property
/// `White_Space`.
pub uninterp spec fn is_whitespace(c: char) -> bool;

/// `char::is_whitespace`: the result is a function of the character alone, named
/// [`is_whitespace`]. Nothing more is claimed of it.
#[verifier::external_body]
pub(crate) fn char_is_whitespace(c: char) -> (white: bool)
    ensures
        white == is_whitespace(c),
{
    c.is_whitespace()
}

/// `text` without the whitespace that it starts with.
pub open spec fn trim_start(text: Seq<char>) -> Seq<char>
    decreases text.len(),
{
    if text.len() > 0 && is_whitespace(text[0]) {
        trim_start(text.drop_first())
    } else {
        text
    }
}

/// Whether `line` is a comment: whether the first two characters behind its leading
/// whitespace are slashes.
pub open spec fn is_comment(line: Seq<char>) -> bool {
    let rest = trim_start(line);
    rest.len() >= 2 && rest[0] == '/' && rest[1] == '/'
}

/// Whether `line` is to be kept: whether it is no comment.
pub fn is_not_comment(line: &String) -> (keep: bool)
    ensures
        keep == !is_comment(line@),
{
    let mut rest = line.as_str().chars();
    loop
        invariant
            rest.decrease() is Some,
            trim_start(line@) == trim_start(rest.remaining()),
        decreases rest.decrease()->0,
    {
        match rest.next() {
            None => {
                return true;
            },
            Some(c) => {
                if !char_is_whitespace(c) {
                    if c != '/' {
                        return true;
                    }
                    return match rest.next() {
                        Some(second) => second != '/',
                        None => true,
                    };
                }
            },
        }
    }
}

} // verus!
