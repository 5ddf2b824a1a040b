//! A registry of entries by id: an id is registered once, and an absent id
//! is reported as such.

use crate::error::{is_already_exists, is_not_found, Error};
use crate::keyed::KeyedMap;
use vstd::prelude::*;

verus! {

/// Entries by id. What an entry is, is up to the caller: a sandbox itself,
/// or a handle by which a sandbox is shared and locked.
pub struct Registry<H> {
    entries: KeyedMap<H>,
}

impl<H> View for Registry<H> {
    type V = Map<Seq<char>, H>;

    closed spec fn view(&self) -> Map<Seq<char>, H> {
        self.entries@
    }
}

impl<H> Default for Registry<H> {
    /// The registry without any entry.
    fn default() -> (registry: Self)
        ensures
            registry@ == Map::<Seq<char>, H>::empty(),
    {
        Registry::new()
    }
}

impl<H> Registry<H> {
    /// The registry without any entry.
    pub fn new() -> (registry: Self)
        ensures
            registry@ == Map::<Seq<char>, H>::empty(),
    {
        Registry { entries: KeyedMap::new() }
    }

    /// How many ids are registered.
    pub fn len(&self) -> (n: usize)
        ensures
            self@.dom().finite(),
            n == self@.dom().len(),
    {
        self.entries.len()
    }

    /// Whether `id` is registered.
    pub fn contains(&self, id: &str) -> (present: bool)
        ensures
            present == self@.contains_key(id@),
    {
        self.entries.contains_key(id)
    }

    /// The registered ids, each once, in no order that callers may rely on.
    pub fn ids(&self) -> (ids: Vec<String>)
        ensures
            forall|i: int| 0 <= i < ids.len() ==> self@.contains_key(#[trigger] ids[i]@),
            forall|id: Seq<char>|
                self@.contains_key(id) ==> exists|i: int|
                    0 <= i < ids.len() && #[trigger] ids[i]@ == id,
            forall|i: int, j: int| 0 <= i < j < ids.len() ==> ids[i]@ != ids[j]@,
    {
        self.entries.keys()
    }

    /// Registers `entry` under `id`. Fails, and changes nothing, where `id`
    /// is registered already: what is registered is never overwritten.
    pub fn register(&mut self, id: &str, entry: H) -> (done: Result<(), Error>)
        ensures
            !old(self)@.contains_key(id@) ==> done is Ok && final(self)@ == old(self)@.insert(
                id@,
                entry,
            ),
            old(self)@.contains_key(id@) ==> is_already_exists(done, id@) && final(self)@ == old(self)@,
    {
        if self.entries.contains_key(id) {
            return Err(Error::already_exists(id));
        }
        self.entries.insert(id.to_owned(), entry);
        Ok(())
    }

    /// The entry of `id`, or the failure that it is absent.
    pub fn lookup(&self, id: &str) -> (found: Result<&H, Error>)
        ensures
            self@.contains_key(id@) ==> found == Ok::<&H, Error>(&self@[id@]),
            !self@.contains_key(id@) ==> is_not_found(found, id@),
    {
        match self.entries.get(id) {
            Some(entry) => Ok(entry),
            None => Err(Error::not_found(id)),
        }
    }

    /// Takes `id` out and hands back its entry. An absent id changes nothing
    /// and is no failure.
    pub fn remove(&mut self, id: &str) -> (entry: Option<H>)
        ensures
            final(self)@ == old(self)@.remove(id@),
            entry == (if old(self)@.contains_key(id@) {
                Some(old(self)@[id@])
            } else {
                None
            }),
    {
        self.entries.remove(id)
    }
}

} // verus!
