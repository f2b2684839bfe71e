use vstd::hash_map::StringHashMap;
use vstd::prelude::*;

verus! {

/// A mapping from short text labels to integers. Inserting under a key that
/// is already present overwrites its value; looking a key up never fails, it
/// answers present-with-value or absent.
pub struct LabelMap {
    table: StringHashMap<i32>,
}

impl View for LabelMap {
    type V = Map<Seq<char>, i32>;

    closed spec fn view(&self) -> Map<Seq<char>, i32> {
        self.table@
    }
}

impl LabelMap {
    /// An empty mapping.
    pub fn new() -> (m: LabelMap)
        ensures
            m@ == Map::<Seq<char>, i32>::empty(),
    {
        LabelMap { table: StringHashMap::new() }
    }

    /// Binds the key to the value, overwriting any value the key had before.
    pub fn insert(&mut self, key: String, value: i32)
        ensures
            final(self)@ == old(self)@.insert(key@, value),
    {
        self.table.insert(key, value);
    }

    /// The value bound to the key, or absent when the key is unbound.
    pub fn get(&self, key: &str) -> (r: Option<i32>)
        ensures
            match r {
                Some(v) => self@.contains_key(key@) && v == self@[key@],
                None => !self@.contains_key(key@),
            },
    {
        match self.table.get(key) {
            Some(v) => Some(*v),
            None => None,
        }
    }

    /// Whether the key is bound.
    pub fn contains_key(&self, key: &str) -> (r: bool)
        ensures
            r == self@.contains_key(key@),
    {
        self.table.contains_key(key)
    }

    /// Unbinds the key; afterwards it is absent.
    pub fn remove(&mut self, key: &str)
        ensures
            final(self)@ == old(self)@.remove(key@),
    {
        self.table.remove(key);
    }
}

} // verus!
