//! The string table: keys and the messages they stand for, in a fixed order,
//! with no key twice.

use vstd::prelude::*;

verus! {

/// No key occurs twice in `pairs`.
pub open spec fn keys_distinct(pairs: Seq<(Seq<char>, Seq<char>)>) -> bool {
    forall|i: int, j: int| 0 <= i < j < pairs.len() ==> pairs[i].0 != pairs[j].0
}

/// The first place at which `key` stands in `pairs`, or their number if it
/// stands nowhere.
pub open spec fn position(pairs: Seq<(Seq<char>, Seq<char>)>, key: Seq<char>) -> int
    decreases pairs.len(),
{
    if pairs.len() == 0 {
        0
    } else if pairs[0].0 == key {
        0
    } else {
        1 + position(pairs.drop_first(), key)
    }
}

/// The message that `pairs` holds for `key`.
pub open spec fn lookup(pairs: Seq<(Seq<char>, Seq<char>)>, key: Seq<char>) -> Option<Seq<char>> {
    let at = position(pairs, key);
    if at < pairs.len() {
        Some(pairs[at].1)
    } else {
        None
    }
}

/// `pairs` after `key` was given `value`: a key that is already there keeps
/// its place and gets the new message, a new key goes to the end.
pub open spec fn put(
    pairs: Seq<(Seq<char>, Seq<char>)>,
    key: Seq<char>,
    value: Seq<char>,
) -> Seq<(Seq<char>, Seq<char>)> {
    let at = position(pairs, key);
    if at < pairs.len() {
        pairs.update(at, (key, value))
    } else {
        pairs.push((key, value))
    }
}

/// What a table holds after the pairs were put into an empty one, first to
/// last.
pub open spec fn collected(pairs: Seq<(Seq<char>, Seq<char>)>) -> Seq<(Seq<char>, Seq<char>)>
    decreases pairs.len(),
{
    if pairs.len() == 0 {
        Seq::empty()
    } else {
        put(collected(pairs.drop_last()), pairs.last().0, pairs.last().1)
    }
}

/// `position` is the length exactly when the key is absent, and otherwise
/// the first index that holds the key.
pub proof fn lemma_position(pairs: Seq<(Seq<char>, Seq<char>)>, key: Seq<char>)
    ensures
        0 <= position(pairs, key) <= pairs.len(),
        forall|i: int| 0 <= i < position(pairs, key) ==> pairs[i].0 != key,
        position(pairs, key) < pairs.len() ==> pairs[position(pairs, key)].0 == key,
    decreases pairs.len(),
{
    if pairs.len() > 0 && pairs[0].0 != key {
        let rest = pairs.drop_first();
        lemma_position(rest, key);
        assert forall|i: int| 0 <= i < position(pairs, key) implies pairs[i].0 != key by {
            if i > 0 {
                assert(pairs[i] == rest[i - 1]);
            }
        }
        if position(rest, key) < rest.len() {
            assert(pairs[position(rest, key) + 1] == rest[position(rest, key)]);
        }
    }
}

/// An index below which the key does not occur, and which holds the key or
/// is the length, is the key's position.
pub proof fn lemma_position_is(pairs: Seq<(Seq<char>, Seq<char>)>, key: Seq<char>, at: int)
    requires
        0 <= at <= pairs.len(),
        forall|i: int| 0 <= i < at ==> pairs[i].0 != key,
        at < pairs.len() ==> pairs[at].0 == key,
    ensures
        position(pairs, key) == at,
{
    lemma_position(pairs, key);
}

/// Putting a key keeps the keys distinct.
pub proof fn lemma_put_keeps_distinct(
    pairs: Seq<(Seq<char>, Seq<char>)>,
    key: Seq<char>,
    value: Seq<char>,
)
    requires
        keys_distinct(pairs),
    ensures
        keys_distinct(put(pairs, key, value)),
{
    lemma_position(pairs, key);
}

/// A table that was collected holds no key twice.
pub proof fn lemma_collected_distinct(pairs: Seq<(Seq<char>, Seq<char>)>)
    ensures
        keys_distinct(collected(pairs)),
    decreases pairs.len(),
{
    if pairs.len() > 0 {
        lemma_collected_distinct(pairs.drop_last());
        lemma_put_keeps_distinct(collected(pairs.drop_last()), pairs.last().0, pairs.last().1);
    }
}

/// Pairs whose keys are distinct are collected as they stand: each key and
/// each message unchanged, in the order given.
pub proof fn lemma_collected_of_distinct(pairs: Seq<(Seq<char>, Seq<char>)>)
    requires
        keys_distinct(pairs),
    ensures
        collected(pairs) == pairs,
    decreases pairs.len(),
{
    if pairs.len() > 0 {
        let front = pairs.drop_last();
        lemma_collected_of_distinct(front);
        lemma_position_is(front, pairs.last().0, front.len() as int);
        assert(front.push(pairs.last()) =~= pairs);
    }
}

/// Among pairs with distinct keys, each key finds its own message.
pub proof fn lemma_lookup_finds(pairs: Seq<(Seq<char>, Seq<char>)>, i: int)
    requires
        keys_distinct(pairs),
        0 <= i < pairs.len(),
    ensures
        lookup(pairs, pairs[i].0) == Some(pairs[i].1),
{
    lemma_position_is(pairs, pairs[i].0, i);
}

/// A flat table of strings: each key with its message, in the order in which
/// the keys came, and no key twice.
#[derive(Debug)]
pub struct StringTable {
    entries: Vec<(String, String)>,
}

impl View for StringTable {
    type V = Seq<(Seq<char>, Seq<char>)>;

    closed spec fn view(&self) -> Seq<(Seq<char>, Seq<char>)> {
        Seq::new(self.entries@.len(), |i: int| (self.entries@[i].0@, self.entries@[i].1@))
    }
}

impl StringTable {
    /// The invariant of a table: no key twice.
    pub open spec fn wf(&self) -> bool {
        keys_distinct(self@)
    }

    /// The empty table.
    pub fn new() -> (table: StringTable)
        ensures
            table@ == Seq::<(Seq<char>, Seq<char>)>::empty(),
            table.wf(),
    {
        StringTable { entries: Vec::new() }
    }

    /// The number of keys.
    pub fn len(&self) -> (n: usize)
        ensures
            n == self@.len(),
    {
        self.entries.len()
    }

    /// The key and the message at place `index`, if the table has that many.
    pub fn entry(&self, index: usize) -> (pair: Option<(&str, &str)>)
        ensures
            match pair {
                Some((key, value)) => index < self@.len() && (key@, value@) == self@[index as int],
                None => index >= self@.len(),
            },
    {
        if index < self.entries.len() {
            let pair = &self.entries[index];
            Some((pair.0.as_str(), pair.1.as_str()))
        } else {
            None
        }
    }

    /// The place of `key` among the entries, or their number if it is absent.
    fn find(&self, key: &String) -> (at: usize)
        ensures
            at == position(self@, key@),
            at <= self@.len(),
    {
        let mut at: usize = 0;
        while at < self.entries.len()
            invariant
                at <= self.entries@.len(),
                forall|i: int| 0 <= i < at ==> self@[i].0 != key@,
            decreases self.entries@.len() - at,
        {
            if self.entries[at].0 == *key {
                proof {
                    lemma_position_is(self@, key@, at as int);
                }
                return at;
            }
            at += 1;
        }
        proof {
            lemma_position_is(self@, key@, at as int);
        }
        at
    }

    /// The message for `key`, if the table has the key.
    pub fn get(&self, key: &str) -> (value: Option<&str>)
        ensures
            match value {
                Some(text) => lookup(self@, key@) == Some(text@),
                None => lookup(self@, key@) is None,
            },
    {
        let at = self.find(&key.to_owned());
        if at < self.entries.len() {
            Some(self.entries[at].1.as_str())
        } else {
            None
        }
    }

    /// Gives `key` the message `value`: a key that the table has keeps its
    /// place, a new key goes to the end.
    pub fn insert(&mut self, key: String, value: String)
        ensures
            final(self)@ == put(old(self)@, key@, value@),
            old(self).wf() ==> final(self).wf(),
    {
        let at = self.find(&key);
        proof {
            if old(self).wf() {
                lemma_put_keeps_distinct(old(self)@, key@, value@);
            }
        }
        let ghost after = put(old(self)@, key@, value@);
        if at < self.entries.len() {
            self.entries.set(at, (key, value));
        } else {
            self.entries.push((key, value));
        }
        assert(self@ =~= after);
    }
}

} // verus!
