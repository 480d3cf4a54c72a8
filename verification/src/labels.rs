//! Label maps: finite maps from label keys to label values, as they appear in
//! selectors and on services.

use crate::text::{join, joined, lemma_texts_push, same_text, texts, Text};
use vstd::prelude::*;
use vstd::string::*;

verus! {

/// The contents of a list of key-value pairs.
pub open spec fn pair_texts(pairs: Seq<(String, String)>) -> Seq<(Text, Text)> {
    pairs.map_values(|p: (String, String)| (p.0@, p.1@))
}

/// No key occurs in two pairs.
pub open spec fn distinct_keys(pairs: Seq<(Text, Text)>) -> bool {
    forall|i: int, j: int| 0 <= i < j < pairs.len() ==> pairs[i].0 != pairs[j].0
}

/// Some pair has the key `key`.
pub open spec fn has_key(pairs: Seq<(Text, Text)>, key: Text) -> bool {
    exists|i: int| 0 <= i < pairs.len() && #[trigger] pairs[i].0 == key
}

/// The position of a pair with the key `key`.
pub open spec fn key_position(pairs: Seq<(Text, Text)>, key: Text) -> int {
    choose|i: int| 0 <= i < pairs.len() && #[trigger] pairs[i].0 == key
}

/// `pairs` after `key` was bound to `value`: the pair with that key is
/// replaced in place, or a new pair is added at the end.
pub open spec fn bound(pairs: Seq<(Text, Text)>, key: Text, value: Text) -> Seq<(Text, Text)> {
    if has_key(pairs, key) {
        pairs.update(key_position(pairs, key), (key, value))
    } else {
        pairs.push((key, value))
    }
}

/// Every pair of `selector` is a pair of `labels`: the selector is a subset of
/// the labels.
pub open spec fn selects(selector: Seq<(Text, Text)>, labels: Seq<(Text, Text)>) -> bool {
    forall|i: int| 0 <= i < selector.len() ==> labels.contains(#[trigger] selector[i])
}

/// One pair written as `key=value`.
pub open spec fn pair_line(pair: (Text, Text)) -> Text {
    pair.0 + "="@ + pair.1
}

/// Every pair written as `key=value`.
pub open spec fn pair_lines(pairs: Seq<(Text, Text)>) -> Seq<Text> {
    pairs.map_values(|p: (Text, Text)| pair_line(p))
}

/// The pairs written as one label selector: `key=value` items separated by
/// commas.
pub open spec fn selector_text(pairs: Seq<(Text, Text)>) -> Text {
    joined(pair_lines(pairs), ","@)
}

/// A finite map from label keys to label values that remembers the order in
/// which its keys were first bound.
#[derive(Debug, PartialEq, Eq, Default)]
pub struct LabelMap {
    pairs: Vec<(String, String)>,
}

impl View for LabelMap {
    type V = Seq<(Text, Text)>;

    closed spec fn view(&self) -> Seq<(Text, Text)> {
        pair_texts(self.pairs@)
    }
}

impl Clone for LabelMap {
    fn clone(&self) -> (copy: LabelMap)
        ensures
            copy@ == self@,
    {
        self.duplicate()
    }
}

impl LabelMap {
    #[verifier::type_invariant]
    spec fn keys_are_distinct(self) -> bool {
        distinct_keys(self@)
    }

    /// The empty map.
    pub fn new() -> (map: LabelMap)
        ensures
            map@ == Seq::<(Text, Text)>::empty(),
    {
        let map = LabelMap { pairs: Vec::new() };
        assert(map@ =~= Seq::<(Text, Text)>::empty());
        map
    }

    /// The number of keys. No key is bound twice.
    pub fn len(&self) -> (n: usize)
        ensures
            n == self@.len(),
            distinct_keys(self@),
    {
        proof {
            use_type_invariant(self);
        }
        self.pairs.len()
    }

    /// Whether no key is bound.
    pub fn is_empty(&self) -> (empty: bool)
        ensures
            empty == (self@.len() == 0),
    {
        self.pairs.len() == 0
    }

    /// The key of the pair at `index`.
    pub fn key(&self, index: usize) -> (key: &String)
        requires
            index < self@.len(),
        ensures
            key@ == self@[index as int].0,
    {
        &self.pairs[index].0
    }

    /// The value of the pair at `index`.
    pub fn value(&self, index: usize) -> (value: &String)
        requires
            index < self@.len(),
        ensures
            value@ == self@[index as int].1,
    {
        &self.pairs[index].1
    }

    /// The value bound to `key`, if any.
    pub fn get(&self, key: &String) -> (value: Option<String>)
        ensures
            match value {
                Some(v) => self@.contains((key@, v@)),
                None => !has_key(self@, key@),
            },
    {
        let mut i: usize = 0;
        while i < self.pairs.len()
            invariant
                i <= self.pairs.len(),
                forall|j: int| 0 <= j < i ==> self@[j].0 != key@,
            decreases self.pairs.len() - i,
        {
            if same_text(&self.pairs[i].0, key) {
                let value = self.pairs[i].1.clone();
                assert(self@[i as int] == (key@, value@));
                return Some(value);
            }
            i += 1;
        }
        None
    }

    /// Whether `key` is bound to `value`.
    pub fn has(&self, key: &String, value: &String) -> (present: bool)
        ensures
            present == self@.contains((key@, value@)),
    {
        let mut i: usize = 0;
        while i < self.pairs.len()
            invariant
                i <= self.pairs.len(),
                forall|j: int| 0 <= j < i ==> self@[j] != (key@, value@),
            decreases self.pairs.len() - i,
        {
            if same_text(&self.pairs[i].0, key) && same_text(&self.pairs[i].1, value) {
                assert(self@[i as int] == (key@, value@));
                return true;
            }
            i += 1;
        }
        false
    }

    /// Binds `key` to `value`, replacing what `key` was bound to before.
    pub fn insert(&mut self, key: String, value: String)
        ensures
            final(self)@ == bound(old(self)@, key@, value@),
    {
        proof {
            use_type_invariant(&*self);
        }
        let ghost before = self@;
        let mut pairs: Vec<(String, String)> = Vec::new();
        let mut replaced = false;
        let mut i: usize = 0;
        while i < self.pairs.len()
            invariant
                i <= self.pairs.len(),
                self@ == before,
                distinct_keys(before),
                pairs@.len() == i,
                !replaced ==> forall|j: int| 0 <= j < i ==> before[j].0 != key@,
                !replaced ==> pair_texts(pairs@) == before.take(i as int),
                replaced ==> has_key(before, key@) && key_position(before, key@) < i
                    && pair_texts(pairs@) == before.update(
                    key_position(before, key@),
                    (key@, value@),
                ).take(i as int),
            decreases self.pairs.len() - i,
        {
            let ghost done = pairs@;
            if !replaced && same_text(&self.pairs[i].0, &key) {
                proof {
                    assert(before[i as int].0 == key@);
                    assert(has_key(before, key@));
                    assert(key_position(before, key@) == i);
                }
                pairs.push((key.clone(), value.clone()));
                replaced = true;
                proof {
                    assert(pair_texts(pairs@) =~= pair_texts(done).push((key@, value@)));
                    assert(pair_texts(pairs@) =~= before.update(i as int, (key@, value@)).take(
                        i + 1,
                    ));
                }
            } else {
                pairs.push((self.pairs[i].0.clone(), self.pairs[i].1.clone()));
                proof {
                    assert(self@[i as int] == (self.pairs@[i as int].0@, self.pairs@[i as int].1@));
                    assert(pair_texts(pairs@) =~= pair_texts(done).push(before[i as int]));
                    if replaced {
                        assert(pair_texts(pairs@) =~= before.update(
                            key_position(before, key@),
                            (key@, value@),
                        ).take(i + 1));
                    } else {
                        assert(pair_texts(pairs@) =~= before.take(i + 1));
                    }
                }
            }
            i += 1;
        }
        if !replaced {
            pairs.push((key, value));
            proof {
                assert(!has_key(before, key@));
                assert(before.take(i as int) =~= before);
                assert(pair_texts(pairs@) =~= before.push((key@, value@)));
            }
        } else {
            proof {
                let after = before.update(key_position(before, key@), (key@, value@));
                assert(after.take(i as int) =~= after);
            }
        }
        proof {
            let after = pair_texts(pairs@);
            assert(after == bound(before, key@, value@));
            assert forall|a: int, b: int| 0 <= a < b < after.len() implies after[a].0
                != after[b].0 by {
                if has_key(before, key@) {
                    let k = key_position(before, key@);
                    assert(before[a].0 != before[b].0);
                } else {
                    if b < before.len() {
                        assert(before[a].0 != before[b].0);
                    } else {
                        assert(before[a].0 != key@);
                    }
                }
            }
        }
        self.pairs = pairs;
    }

    /// Whether every pair of this map is a pair of `labels`.
    pub fn selects(&self, labels: &LabelMap) -> (all: bool)
        ensures
            all == selects(self@, labels@),
    {
        let mut i: usize = 0;
        while i < self.pairs.len()
            invariant
                i <= self.pairs.len(),
                forall|j: int| 0 <= j < i ==> labels@.contains(#[trigger] self@[j]),
            decreases self.pairs.len() - i,
        {
            if !labels.has(&self.pairs[i].0, &self.pairs[i].1) {
                assert(self@[i as int] == (self.pairs@[i as int].0@, self.pairs@[i as int].1@));
                return false;
            }
            assert(self@[i as int] == (self.pairs@[i as int].0@, self.pairs@[i as int].1@));
            i += 1;
        }
        true
    }

    /// A copy of this map.
    pub fn duplicate(&self) -> (copy: LabelMap)
        ensures
            copy@ == self@,
    {
        proof {
            use_type_invariant(self);
        }
        let mut pairs: Vec<(String, String)> = Vec::new();
        let mut i: usize = 0;
        while i < self.pairs.len()
            invariant
                i <= self.pairs.len(),
                pair_texts(pairs@) == pair_texts(self.pairs@.take(i as int)),
            decreases self.pairs.len() - i,
        {
            let ghost before = pairs@;
            pairs.push((self.pairs[i].0.clone(), self.pairs[i].1.clone()));
            proof {
                assert(self.pairs@.take(i + 1) =~= self.pairs@.take(i as int).push(
                    self.pairs@[i as int],
                ));
                assert(pair_texts(pairs@) =~= pair_texts(before).push(
                    (self.pairs@[i as int].0@, self.pairs@[i as int].1@),
                ));
                assert(pair_texts(self.pairs@.take(i + 1)) =~= pair_texts(
                    self.pairs@.take(i as int),
                ).push((self.pairs@[i as int].0@, self.pairs@[i as int].1@)));
            }
            i += 1;
        }
        proof {
            assert(self.pairs@.take(i as int) =~= self.pairs@);
        }
        LabelMap { pairs }
    }

    /// The pair at `index` written as `key=value`.
    pub fn line(&self, index: usize) -> (line: String)
        requires
            index < self@.len(),
        ensures
            line@ == pair_line(self@[index as int]),
    {
        let mut line = self.pairs[index].0.clone();
        line.append("=");
        line.append(self.pairs[index].1.as_str());
        line
    }

    /// The map written as one label selector.
    pub fn selector_text(&self) -> (out: String)
        ensures
            out@ == selector_text(self@),
    {
        let mut lines: Vec<String> = Vec::new();
        let mut i: usize = 0;
        while i < self.pairs.len()
            invariant
                i <= self.pairs.len(),
                texts(lines@) == pair_lines(self@.take(i as int)),
            decreases self.pairs.len() - i,
        {
            let line = self.line(i);
            proof {
                lemma_texts_push(lines@, line);
                assert(pair_lines(self@.take(i + 1)) =~= pair_lines(self@.take(i as int)).push(
                    pair_line(self@[i as int]),
                ));
            }
            lines.push(line);
            i += 1;
        }
        proof {
            assert(self@.take(i as int) =~= self@);
        }
        join(lines, ",")
    }
}

} // verus!
