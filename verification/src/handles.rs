use vstd::prelude::*;

verus! {

/// The live handles of one kind that the backend keeps, each under its id: the senders to
/// child processes, network connections and servers, file watchers, addon state.
#[verifier::reject_recursive_types(V)]
pub struct Handles<V> {
    map: vstd::hash_map::StringHashMap<V>,
}

impl<V> Handles<V> {
    /// The handles by id.
    pub closed spec fn contents(&self) -> Map<Seq<char>, V> {
        self.map@
    }

    /// No handles.
    pub fn new() -> (r: Handles<V>)
        ensures
            r.contents() == Map::<Seq<char>, V>::empty(),
    {
        Handles { map: vstd::hash_map::StringHashMap::new() }
    }

    /// Keeps a handle under `id`, replacing one already there.
    pub fn start(&mut self, id: String, handle: V)
        ensures
            final(self).contents() == old(self).contents().insert(id@, handle),
    {
        self.map.insert(id, handle);
    }

    /// The handle under `id`, if there is one.
    pub fn get(&self, id: &String) -> (r: Option<&V>)
        ensures
            match r {
                Some(h) => self.contents().contains_key(id@) && *h == self.contents()[id@],
                None => !self.contents().contains_key(id@),
            },
    {
        self.map.get(id.as_str())
    }

    /// Forgets the handle under `id`; says whether there was one. The others stay.
    pub fn stop(&mut self, id: &String) -> (was: bool)
        ensures
            was == old(self).contents().contains_key(id@),
            final(self).contents() == old(self).contents().remove(id@),
    {
        let was = self.map.contains_key(id.as_str());
        self.map.remove(id.as_str());
        was
    }

    /// After a write to the connection under `id`: a write that ends it forgets it.
    pub fn after_write(&mut self, id: &String, end: bool)
        ensures
            final(self).contents() == if end { old(self).contents().remove(id@) } else { old(self).contents() },
    {
        if end {
            self.map.remove(id.as_str());
        }
    }

    /// The number of handles.
    pub fn count(&self) -> (r: usize)
        ensures
            r == self.contents().len(),
    {
        self.map.len()
    }

    /// Forgets every handle.
    pub fn clear(&mut self)
        ensures
            final(self).contents() == Map::<Seq<char>, V>::empty(),
    {
        self.map.clear();
    }
}

} // verus!
