//! Text helpers: comparing, searching and joining strings.
use vstd::prelude::*;

verus! {

/// The texts of a list of strings.
pub open spec fn texts(list: Seq<String>) -> Seq<Seq<char>> {
    list.map_values(|s: String| s@)
}

/// Whether `text` reads exactly as `other`.
pub fn same_text(text: &str, other: &str) -> (same: bool)
    ensures
        same == (text@ == other@),
{
    text.to_owned() == other.to_owned()
}

/// Whether the character `wanted` occurs in `text`.
pub fn contains_char(text: &str, wanted: char) -> (found: bool)
    ensures
        found == text@.contains(wanted),
{
    let mut found = false;
    for c in it: text.chars()
        invariant
            it.seq() == text@,
            found == text@.take(it.index() as int).contains(wanted),
    {
        proof {
            let i = it.index() as int;
            assert(text@.take(i + 1) =~= text@.take(i).push(c));
            if c == wanted {
                assert(text@.take(i + 1)[i] == wanted);
            }
            if text@.take(i).contains(wanted) {
                let k = text@.take(i).index_of(wanted);
                assert(text@.take(i + 1)[k] == wanted);
            }
        }
        if c == wanted {
            found = true;
        }
    }
    proof {
        assert(text@.take(text@.len() as int) =~= text@);
    }
    found
}

/// The text `head` followed by `tail`.
pub fn join(head: &str, tail: &str) -> (joined: String)
    ensures
        joined@ == head@ + tail@,
{
    let mut joined = head.to_owned();
    joined.append(tail);
    joined
}

/// Whether `wanted` is among the texts of `list`.
pub fn contains_text(list: &Vec<String>, wanted: &str) -> (found: bool)
    ensures
        found == texts(list@).contains(wanted@),
{
    let mut i: usize = 0;
    while i < list.len()
        invariant
            i <= list.len(),
            forall|k: int| 0 <= k < i ==> texts(list@)[k] != wanted@,
        decreases list.len() - i,
    {
        if same_text(list[i].as_str(), wanted) {
            assert(texts(list@)[i as int] == wanted@);
            return true;
        }
        i = i + 1;
    }
    false
}

/// The texts of a list are those of its strings, one for one.
pub proof fn texts_are_those_of_the_strings(list: Seq<String>)
    ensures
        texts(list).len() == list.len(),
        forall|i: int| 0 <= i < list.len() ==> #[trigger] texts(list)[i] == list[i]@,
{
}

} // verus!
