//! Strings as sequences of characters, and the few operations on them that the
//! engine needs.

use itertools::Itertools;
use vstd::prelude::*;
use vstd::string::*;

verus! {

/// The mathematical content of a string.
pub type Text = Seq<char>;

/// The contents of a list of strings.
pub open spec fn texts(list: Seq<String>) -> Seq<Text> {
    list.map_values(|s: String| s@)
}

/// The contents of an optional string.
pub open spec fn opt_text(value: Option<String>) -> Option<Text> {
    match value {
        Some(s) => Some(s@),
        None => None,
    }
}

/// The contents of an optional list of strings.
pub open spec fn opt_texts(value: Option<Vec<String>>) -> Option<Seq<Text>> {
    match value {
        Some(list) => Some(texts(list@)),
        None => None,
    }
}

/// All pieces written one after the other.
pub open spec fn concat(pieces: Seq<Text>) -> Text
    decreases pieces.len(),
{
    if pieces.len() == 0 {
        Seq::empty()
    } else {
        concat(pieces.drop_last()) + pieces.last()
    }
}

/// `parts` with `separator` put between every two neighbours.
pub open spec fn spaced(parts: Seq<Text>, separator: Text) -> Seq<Text>
    decreases parts.len(),
{
    if parts.len() <= 1 {
        parts
    } else {
        spaced(parts.drop_last(), separator).push(separator).push(parts.last())
    }
}

/// `parts` joined into one text with `separator` between neighbours.
pub open spec fn joined(parts: Seq<Text>, separator: Text) -> Text {
    concat(spaced(parts, separator))
}

/// Pushing a string onto a list pushes its content onto the list's contents.
pub proof fn lemma_texts_push(list: Seq<String>, last: String)
    ensures
        texts(list.push(last)) == texts(list).push(last@),
{
    assert(texts(list.push(last)) =~= texts(list).push(last@));
}

/// A fresh string with the content of `s`.
pub fn owned(s: &str) -> (out: String)
    ensures
        out@ == s@,
{
    s.to_owned()
}

/// Whether two strings have the same content.
pub fn same_text(left: &String, right: &String) -> (same: bool)
    ensures
        same == (left@ == right@),
{
    left.eq(right)
}

/// Whether two optional strings are both absent or have the same content.
pub fn same_opt_text(left: &Option<String>, right: &Option<String>) -> (same: bool)
    ensures
        same == (opt_text(*left) == opt_text(*right)),
{
    match (left, right) {
        (None, None) => true,
        (Some(a), Some(b)) => same_text(a, b),
        _ => false,
    }
}

/// A copy of a list of strings.
pub fn copy_texts(list: &Vec<String>) -> (out: Vec<String>)
    ensures
        texts(out@) == texts(list@),
{
    let mut out: Vec<String> = Vec::new();
    let mut i: usize = 0;
    while i < list.len()
        invariant
            i <= list.len(),
            texts(out@) == texts(list@.take(i as int)),
        decreases list.len() - i,
    {
        proof {
            lemma_texts_push(out@, list@[i as int]);
            assert(list@.take(i + 1) =~= list@.take(i as int).push(list@[i as int]));
            lemma_texts_push(list@.take(i as int), list@[i as int]);
        }
        out.push(list[i].clone());
        i += 1;
    }
    proof {
        assert(list@.take(i as int) =~= list@);
    }
    out
}

/// The position of the first string of `list` with the content of `wanted`.
pub fn position(list: &Vec<String>, wanted: &String) -> (found: Option<usize>)
    ensures
        match found {
            Some(i) => i < list.len() && list@[i as int]@ == wanted@ && forall|j: int|
                0 <= j < i ==> list@[j]@ != wanted@,
            None => !texts(list@).contains(wanted@),
        },
{
    let mut i: usize = 0;
    while i < list.len()
        invariant
            i <= list.len(),
            forall|j: int| 0 <= j < i ==> list@[j]@ != wanted@,
        decreases list.len() - i,
    {
        if same_text(&list[i], wanted) {
            return Some(i);
        }
        i += 1;
    }
    proof {
        if texts(list@).contains(wanted@) {
            let j = choose|j: int| 0 <= j < texts(list@).len() && texts(list@)[j] == wanted@;
            assert(list@[j]@ == wanted@);
        }
    }
    None
}

/// All strings of `pieces` written one after the other.
pub fn concat_all(pieces: &Vec<String>) -> (out: String)
    ensures
        out@ == concat(texts(pieces@)),
{
    let mut out = String::new();
    let mut i: usize = 0;
    while i < pieces.len()
        invariant
            i <= pieces.len(),
            out@ == concat(texts(pieces@.take(i as int))),
        decreases pieces.len() - i,
    {
        proof {
            let next = texts(pieces@.take(i + 1));
            assert(next.drop_last() =~= texts(pieces@.take(i as int)));
            assert(next.last() == pieces@[i as int]@);
        }
        out.append(pieces[i].as_str());
        i += 1;
    }
    proof {
        assert(pieces@.take(i as int) =~= pieces@);
    }
    out
}

/// Calls `Itertools::intersperse` of the itertools crate on the strings of
/// `parts` and collects what it yields. The adaptor yields the items of the
/// underlying iterator in their order, with a clone of `separator` between
/// every two of them and none before the first or after the last.
#[verifier::external_body]
fn interspersed(parts: Vec<String>, separator: String) -> (out: Vec<String>)
    ensures
        texts(out@) == spaced(texts(parts@), separator@),
{
    Itertools::intersperse(parts.into_iter(), separator).collect()
}

/// Joins `parts` into one string with `separator` between neighbours.
pub fn join(parts: Vec<String>, separator: &str) -> (out: String)
    ensures
        out@ == joined(texts(parts@), separator@),
{
    let pieces = interspersed(parts, owned(separator));
    concat_all(&pieces)
}

} // verus!
