//! The scratch map of a client: a place for extensions to keep state of
//! their own per connection.

use vstd::prelude::*;
use crate::text::{same, texts};

verus! {

/// A value in the scratch map of a client.
#[derive(Debug, PartialEq, Eq)]
pub enum ClientMapValue {
    /// A text.
    String(String),
    /// A list of texts.
    Array(Vec<String>),
    /// A truth value.
    Bool(bool),
    /// A signed number.
    Int(isize),
    /// An unsigned number.
    UInt(usize),
}

/// A value in the scratch map, as plain data.
pub enum ValueView {
    String(Seq<char>),
    Array(Seq<Seq<char>>),
    Bool(bool),
    Int(isize),
    UInt(usize),
}

impl View for ClientMapValue {
    type V = ValueView;

    open spec fn view(&self) -> ValueView {
        match self {
            ClientMapValue::String(text) => ValueView::String(text@),
            ClientMapValue::Array(list) => ValueView::Array(texts(list@)),
            ClientMapValue::Bool(b) => ValueView::Bool(*b),
            ClientMapValue::Int(n) => ValueView::Int(*n),
            ClientMapValue::UInt(n) => ValueView::UInt(*n),
        }
    }
}

impl Clone for ClientMapValue {
    /// A copy that holds the same data.
    fn clone(&self) -> (copy: ClientMapValue)
        ensures
            copy@ == self@,
    {
        match self {
            ClientMapValue::String(text) => ClientMapValue::String(text.clone()),
            ClientMapValue::Array(list) => {
                let mut copy: Vec<String> = Vec::new();
                let mut i: usize = 0;
                while i < list.len()
                    invariant
                        i <= list.len(),
                        texts(copy@) == texts(list@).take(i as int),
                    decreases list.len() - i,
                {
                    let item = list[i].clone();
                    assert(texts(copy@.push(item)) == texts(copy@).push(item@));
                    assert(texts(list@).take(i + 1) == texts(list@).take(i as int).push(
                        list@[i as int]@,
                    ));
                    copy.push(item);
                    i += 1;
                }
                assert(texts(list@).take(list.len() as int) == texts(list@));
                ClientMapValue::Array(copy)
            },
            ClientMapValue::Bool(b) => ClientMapValue::Bool(*b),
            ClientMapValue::Int(n) => ClientMapValue::Int(*n),
            ClientMapValue::UInt(n) => ClientMapValue::UInt(*n),
        }
    }
}

/// One key with its value.
#[derive(Debug)]
struct Entry {
    key: String,
    value: ClientMapValue,
}

/// The map that a list of entries stands for; of two entries with the
/// same key the later one counts.
spec fn map_of(entries: Seq<Entry>) -> Map<Seq<char>, ValueView>
    decreases entries.len(),
{
    if entries.len() == 0 {
        Map::empty()
    } else {
        map_of(entries.drop_last()).insert(entries.last().key@, entries.last().value@)
    }
}

/// No key occurs twice.
spec fn distinct(entries: Seq<Entry>) -> bool {
    forall|i: int, j: int| 0 <= i < j < entries.len() ==> entries[i].key@ != entries[j].key@
}

/// The key of the entry at position `i`.
spec fn key_at(entries: Seq<Entry>, i: int) -> Seq<char> {
    entries[i].key@
}

/// The keys of the map are the keys of the entries, and where no key
/// occurs twice each entry's value is the value under its key.
proof fn lemma_map_of(entries: Seq<Entry>)
    ensures
        forall|k: Seq<char>| #[trigger]
            map_of(entries).contains_key(k) ==> exists|i: int|
                0 <= i < entries.len() && #[trigger] key_at(entries, i) == k,
        forall|i: int|
            0 <= i < entries.len() ==> map_of(entries).contains_key(#[trigger] key_at(entries, i)),
        distinct(entries) ==> forall|i: int|
            0 <= i < entries.len() ==> map_of(entries)[#[trigger] key_at(entries, i)]
                == entries[i].value@,
    decreases entries.len(),
{
    if entries.len() > 0 {
        let front = entries.drop_last();
        let last = entries.last();
        lemma_map_of(front);
        assert(map_of(entries) == map_of(front).insert(last.key@, last.value@));
        assert forall|k: Seq<char>| #[trigger] map_of(entries).contains_key(k) implies exists|
            i: int,
        | 0 <= i < entries.len() && #[trigger] key_at(entries, i) == k by {
            if k == last.key@ {
                assert(key_at(entries, entries.len() - 1) == k);
            } else {
                assert(map_of(front).contains_key(k));
                let i = choose|i: int| 0 <= i < front.len() && #[trigger] key_at(front, i) == k;
                assert(key_at(entries, i) == k);
            }
        }
        assert forall|i: int| 0 <= i < entries.len() implies map_of(entries).contains_key(
            #[trigger] key_at(entries, i),
        ) by {
            if i < entries.len() - 1 {
                assert(key_at(front, i) == key_at(entries, i));
            }
        }
        if distinct(entries) {
            assert(distinct(front)) by {
                assert forall|i: int, j: int| 0 <= i < j < front.len() implies front[i].key@
                    != front[j].key@ by {
                    assert(entries[i].key@ != entries[j].key@);
                }
            }
            assert forall|i: int| 0 <= i < entries.len() implies map_of(
                entries,
            )[#[trigger] key_at(entries, i)] == entries[i].value@ by {
                if i < entries.len() - 1 {
                    assert(entries[i].key@ != entries[entries.len() - 1].key@);
                    assert(key_at(front, i) == key_at(entries, i));
                }
            }
        }
    }
}

/// Taking one entry out of a list without double keys takes its key out
/// of the map and leaves a list without double keys.
proof fn lemma_remove(entries: Seq<Entry>, at: int)
    requires
        distinct(entries),
        0 <= at < entries.len(),
    ensures
        distinct(entries.remove(at)),
        map_of(entries.remove(at)) == map_of(entries).remove(entries[at].key@),
    decreases entries.len(),
{
    let rest = entries.remove(at);
    assert forall|i: int, j: int| 0 <= i < j < rest.len() implies rest[i].key@
        != rest[j].key@ by {
        let a = if i < at {
            i
        } else {
            i + 1
        };
        let b = if j < at {
            j
        } else {
            j + 1
        };
        assert(entries[a].key@ != entries[b].key@);
    }
    let front = entries.drop_last();
    let last = entries.last();
    if at == entries.len() - 1 {
        assert(rest == front);
        lemma_map_of(front);
        assert(!map_of(front).contains_key(last.key@)) by {
            if map_of(front).contains_key(last.key@) {
                let i = choose|i: int|
                    0 <= i < front.len() && #[trigger] key_at(front, i) == last.key@;
                assert(entries[i].key@ != entries[entries.len() - 1].key@);
            }
        }
        assert(map_of(entries).remove(last.key@) =~= map_of(front));
    } else {
        assert(distinct(front)) by {
            assert forall|i: int, j: int| 0 <= i < j < front.len() implies front[i].key@
                != front[j].key@ by {
                assert(entries[i].key@ != entries[j].key@);
            }
        }
        lemma_remove(front, at);
        assert(rest.drop_last() == front.remove(at));
        assert(rest.last() == last);
        assert(entries[at].key@ != entries[entries.len() - 1].key@);
        assert(front[at] == entries[at]);
        assert(map_of(rest) =~= map_of(entries).remove(entries[at].key@));
    }
}

/// A map from text keys to values, owned by one client.
#[derive(Debug)]
pub struct ClientMap {
    entries: Vec<Entry>,
}

impl View for ClientMap {
    type V = Map<Seq<char>, ValueView>;

    closed spec fn view(&self) -> Map<Seq<char>, ValueView> {
        map_of(self.entries@)
    }
}

impl ClientMap {
    #[verifier::type_invariant]
    spec fn inv(self) -> bool {
        distinct(self.entries@)
    }

    /// The empty map.
    pub fn new() -> (map: ClientMap)
        ensures
            map@ == Map::<Seq<char>, ValueView>::empty(),
    {
        ClientMap { entries: Vec::new() }
    }

    /// The position of the entry with the given key.
    fn find(&self, key: &str) -> (position: Option<usize>)
        ensures
            match position {
                Some(i) => i < self.entries@.len() && self.entries@[i as int].key@ == key@,
                None => forall|i: int|
                    0 <= i < self.entries@.len() ==> (#[trigger] self.entries@[i]).key@ != key@,
            },
    {
        let mut i: usize = 0;
        while i < self.entries.len()
            invariant
                i <= self.entries@.len(),
                forall|k: int| 0 <= k < i ==> (#[trigger] self.entries@[k]).key@ != key@,
            decreases self.entries@.len() - i,
        {
            if same(self.entries[i].key.as_str(), key) {
                return Some(i);
            }
            i += 1;
        }
        None
    }

    /// Puts `value` under `key` and returns the value that was there
    /// before, if there was one.
    pub fn insert(&mut self, key: &str, value: ClientMapValue) -> (before: Option<ClientMapValue>)
        ensures
            final(self)@ == old(self)@.insert(key@, value@),
            old(self)@.contains_key(key@) ==> before is Some && before->0@ == old(self)@[key@],
            !old(self)@.contains_key(key@) ==> before is None,
    {
        proof {
            use_type_invariant(&*self);
            lemma_map_of(self.entries@);
        }
        let found = self.find(key);
        assert(found matches Some(at) ==> key_at(self.entries@, at as int) == key@);
        // The entries are taken out while they change and put back when
        // they are done, so that no key is double whenever the map can be seen.
        let mut entries: Vec<Entry> = Vec::new();
        core::mem::swap(&mut self.entries, &mut entries);
        let ghost start = entries@;
        let before = match found {
            Some(at) => {
                proof {
                    lemma_remove(start, at as int);
                }
                let entry = entries.remove(at);
                Some(entry.value)
            },
            None => None,
        };
        let ghost rest = entries@;
        let entry = Entry { key: key.to_owned(), value };
        proof {
            lemma_map_of(rest);
            assert(map_of(rest) == map_of(start).remove(key@));
            assert(!map_of(rest).contains_key(key@));
            let grown = rest.push(entry);
            assert(grown.drop_last() == rest);
            assert(distinct(grown)) by {
                assert forall|i: int, j: int| 0 <= i < j < grown.len() implies grown[i].key@
                    != grown[j].key@ by {
                    if j == grown.len() - 1 {
                        assert(rest[i].key@ != key@);
                    }
                }
            }
            assert(map_of(grown) =~= map_of(start).insert(key@, value@));
        }
        entries.push(entry);
        core::mem::swap(&mut self.entries, &mut entries);
        before
    }

    /// A copy of the value under `key`, if there is one.
    pub fn get(&self, key: &str) -> (value: Option<ClientMapValue>)
        ensures
            self@.contains_key(key@) ==> value is Some && value->0@ == self@[key@],
            !self@.contains_key(key@) ==> value is None,
    {
        proof {
            use_type_invariant(self);
            lemma_map_of(self.entries@);
        }
        match self.find(key) {
            Some(at) => {
                assert(key_at(self.entries@, at as int) == key@);
                Some(self.entries[at].value.clone())
            },
            None => None,
        }
    }

    /// Takes `key` out of the map and returns the value that was under
    /// it, if there was one.
    pub fn remove(&mut self, key: &str) -> (before: Option<ClientMapValue>)
        ensures
            final(self)@ == old(self)@.remove(key@),
            old(self)@.contains_key(key@) ==> before is Some && before->0@ == old(self)@[key@],
            !old(self)@.contains_key(key@) ==> before is None,
    {
        proof {
            use_type_invariant(&*self);
            lemma_map_of(self.entries@);
        }
        let found = self.find(key);
        match found {
            Some(at) => {
                assert(key_at(self.entries@, at as int) == key@);
                let mut entries: Vec<Entry> = Vec::new();
                proof {
                    lemma_remove(self.entries@, at as int);
                }
                core::mem::swap(&mut self.entries, &mut entries);
                let entry = entries.remove(at);
                core::mem::swap(&mut self.entries, &mut entries);
                Some(entry.value)
            },
            None => {
                assert(self@.remove(key@) =~= self@);
                None
            },
        }
    }

    /// How many keys the map holds.
    pub fn len(&self) -> (n: usize)
        ensures
            n == self@.len(),
    {
        proof {
            use_type_invariant(self);
            lemma_len(self.entries@);
        }
        self.entries.len()
    }
}

/// A list without double keys stands for a map with as many keys as the
/// list has entries.
proof fn lemma_len(entries: Seq<Entry>)
    requires
        distinct(entries),
    ensures
        map_of(entries).dom().finite(),
        map_of(entries).len() == entries.len(),
    decreases entries.len(),
{
    if entries.len() > 0 {
        let front = entries.drop_last();
        assert(distinct(front)) by {
            assert forall|i: int, j: int| 0 <= i < j < front.len() implies front[i].key@
                != front[j].key@ by {
                assert(entries[i].key@ != entries[j].key@);
            }
        }
        lemma_len(front);
        lemma_map_of(front);
        assert(!map_of(front).contains_key(entries.last().key@)) by {
            if map_of(front).contains_key(entries.last().key@) {
                let i = choose|i: int|
                    0 <= i < front.len() && #[trigger] key_at(front, i) == entries.last().key@;
                assert(entries[i].key@ != entries[entries.len() - 1].key@);
            }
        }
    }
}

} // verus!
