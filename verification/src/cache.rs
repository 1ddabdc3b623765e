//! The lookup cache: from the natural key of a row to its surrogate id.
//!
//! The cache lives for one ingestion run. It remembers the first id it is
//! told for a key and never changes it, so that resolving a key twice
//! within a run gives the same id and asks the store at most once.

use vstd::prelude::*;

verus! {

/// The id that a list of entries holds for a key: that of the first entry
/// with the key.
pub open spec fn found(entries: Seq<(String, i64)>, key: Seq<char>) -> Option<i64>
    decreases entries.len(),
{
    if entries.len() == 0 {
        None
    } else {
        match found(entries.drop_last(), key) {
            Some(id) => Some(id),
            None => if entries.last().0@ == key {
                Some(entries.last().1)
            } else {
                None
            },
        }
    }
}

/// A map after it is told an id for a key: a key it knows keeps its id, a
/// new key is taken up.
pub open spec fn remembered(known: Map<Seq<char>, i64>, key: Seq<char>, id: i64) -> Map<
    Seq<char>,
    i64,
> {
    if known.contains_key(key) {
        known
    } else {
        known.insert(key, id)
    }
}

proof fn lemma_found_none(entries: Seq<(String, i64)>, key: Seq<char>)
    requires
        forall|j: int| 0 <= j < entries.len() ==> (#[trigger] entries[j]).0@ != key,
    ensures
        found(entries, key) is None,
    decreases entries.len(),
{
    if entries.len() > 0 {
        let rest = entries.drop_last();
        assert forall|j: int| 0 <= j < rest.len() implies (#[trigger] rest[j]).0@ != key by {
            assert(rest[j] == entries[j]);
        }
        lemma_found_none(rest, key);
    }
}

proof fn lemma_found_first(entries: Seq<(String, i64)>, key: Seq<char>, at: int)
    requires
        0 <= at < entries.len(),
        entries[at].0@ == key,
        forall|j: int| 0 <= j < at ==> (#[trigger] entries[j]).0@ != key,
    ensures
        found(entries, key) == Some(entries[at].1),
    decreases entries.len(),
{
    let rest = entries.drop_last();
    if at == entries.len() - 1 {
        assert forall|j: int| 0 <= j < rest.len() implies (#[trigger] rest[j]).0@ != key by {
            assert(rest[j] == entries[j]);
        }
        lemma_found_none(rest, key);
    } else {
        assert(rest[at] == entries[at]);
        assert forall|j: int| 0 <= j < at implies (#[trigger] rest[j]).0@ != key by {
            assert(rest[j] == entries[j]);
        }
        lemma_found_first(rest, key, at);
    }
}

/// A cache from natural keys to surrogate ids.
#[derive(Debug)]
pub struct LookupCache {
    entries: Vec<(String, i64)>,
}

impl View for LookupCache {
    type V = Map<Seq<char>, i64>;

    closed spec fn view(&self) -> Map<Seq<char>, i64> {
        Map::new(
            |key: Seq<char>| found(self.entries@, key) is Some,
            |key: Seq<char>| found(self.entries@, key)->0,
        )
    }
}

impl LookupCache {
    /// A cache that knows no key.
    pub fn new() -> (cache: LookupCache)
        ensures
            cache@ == Map::<Seq<char>, i64>::empty(),
    {
        let cache = LookupCache { entries: Vec::new() };
        assert(cache@ =~= Map::<Seq<char>, i64>::empty());
        cache
    }

    /// The id remembered for a key, if any.
    pub fn get(&self, key: &str) -> (id: Option<i64>)
        ensures
            id == if self@.contains_key(key@) {
                Some(self@[key@])
            } else {
                None
            },
    {
        let wanted = key.to_owned();
        let mut i: usize = 0;
        while i < self.entries.len()
            invariant
                i <= self.entries.len(),
                wanted@ == key@,
                forall|j: int| 0 <= j < i ==> (#[trigger] self.entries@[j]).0@ != key@,
            decreases self.entries.len() - i,
        {
            if self.entries[i].0 == wanted {
                proof {
                    lemma_found_first(self.entries@, key@, i as int);
                }
                return Some(self.entries[i].1);
            }
            i += 1;
        }
        proof {
            lemma_found_none(self.entries@, key@);
        }
        None
    }

    /// Remembers an id for a key, unless the key has one already: the
    /// first id told for a key stays.
    pub fn insert(&mut self, key: String, id: i64)
        ensures
            final(self)@ == remembered(old(self)@, key@, id),
    {
        if self.get(key.as_str()).is_none() {
            let ghost before = self.entries@;
            let ghost text = key@;
            self.entries.push((key, id));
            proof {
                assert(self.entries@.drop_last() =~= before);
                assert(self.entries@.last().0@ == text);
                assert forall|q: Seq<char>| #[trigger]
                    found(self.entries@, q) == (match found(before, q) {
                        Some(known) => Some(known),
                        None => if q == text {
                            Some(id)
                        } else {
                            None
                        },
                    }) by {}
                assert(self@ =~= old(self)@.insert(text, id));
            }
        }
    }
}

/// Resolving a key again gives the id it was first given: once a key is
/// known, whatever is remembered later leaves its id as it is.
pub proof fn lemma_first_id_stays(
    known: Map<Seq<char>, i64>,
    key: Seq<char>,
    later_key: Seq<char>,
    later_id: i64,
)
    requires
        known.contains_key(key),
    ensures
        remembered(known, later_key, later_id).contains_key(key),
        remembered(known, later_key, later_id)[key] == known[key],
{
}

/// A key that is remembered is known afterwards, under the id told for it
/// if it was new.
pub proof fn lemma_remembered_is_known(known: Map<Seq<char>, i64>, key: Seq<char>, id: i64)
    ensures
        remembered(known, key, id).contains_key(key),
        !known.contains_key(key) ==> remembered(known, key, id)[key] == id,
        known.contains_key(key) ==> remembered(known, key, id) == known,
{
}

} // verus!
