//! Sequences of characters: joining pieces with a separator.

use vstd::prelude::*;
use vstd::string::*;

verus! {

/// The pieces of `parts` in order, with `separator` between each two neighbours.
pub open spec fn join(parts: Seq<Seq<char>>, separator: Seq<char>) -> Seq<char>
    decreases parts.len(),
{
    if parts.len() == 0 {
        Seq::empty()
    } else if parts.len() == 1 {
        parts[0]
    } else {
        join(parts.drop_last(), separator) + separator + parts.last()
    }
}

/// Concatenation does not depend on how its pieces are grouped.
pub proof fn lemma_concat_assoc<A>(a: Seq<A>, b: Seq<A>, c: Seq<A>)
    ensures
        (a + b) + c == a + (b + c),
{
    assert((a + b) + c =~= a + (b + c));
}

/// The character sequences that a sequence of strings stands for.
pub open spec fn views(strings: Seq<String>) -> Seq<Seq<char>> {
    strings.map_values(|text: String| text@)
}

/// Joining one piece more appends the separator and the piece, unless it is the first.
pub proof fn lemma_join_push(parts: Seq<Seq<char>>, part: Seq<char>, separator: Seq<char>)
    ensures
        join(parts.push(part), separator) == if parts.len() == 0 {
            part
        } else {
            join(parts, separator) + separator + part
        },
{
    assert(parts.push(part).drop_last() == parts);
}

/// Concatenates `parts`, putting `separator` between each two neighbours.
pub fn join_strings(parts: &Vec<String>, separator: &str) -> (joined: String)
    ensures
        joined@ == join(views(parts@), separator@),
{
    let mut joined = String::new();
    let mut i: usize = 0;
    assert(views(parts@).take(0) == Seq::<Seq<char>>::empty());
    while i < parts.len()
        invariant
            i <= parts.len(),
            joined@ == join(views(parts@).take(i as int), separator@),
        decreases parts.len() - i,
    {
        if i > 0 {
            joined.append(separator);
        }
        joined.append(parts[i].as_str());
        proof {
            let all = views(parts@);
            assert(all.take(i + 1) == all.take(i as int).push(parts[i as int]@));
            lemma_join_push(all.take(i as int), parts[i as int]@, separator@);
        }
        i += 1;
    }
    assert(views(parts@).take(i as int) == views(parts@));
    joined
}

/// The text that std's `Debug` gives for a string: the string between double quotes, with
/// the characters that need it escaped.
pub uninterp spec fn quoted(text: Seq<char>) -> Seq<char>;

/// `Debug` for `str`, through `format!`: the result is a function of the characters alone,
/// named [`quoted`]. Nothing more is claimed of it.
#[verifier::external_body]
pub(crate) fn quote(text: &str) -> (rendered: String)
    ensures
        rendered@ == quoted(text@),
{
    format!("{:?}", text)
}

} // verus!
