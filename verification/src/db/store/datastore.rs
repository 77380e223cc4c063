use vstd::hash_map::StringHashMap;
use vstd::prelude::*;

verus! {

/// A store refused to keep an item.
#[derive(Clone, Copy, Debug, PartialEq, Eq, Structural)]
pub enum StoreError {
    WriteRefused,
}

/// A key-value store of items under string identifiers. Its contents are a
/// map from identifiers to items.
pub trait DataStore<T> {
    /// The items the store holds, by identifier.
    spec fn contents(&self) -> Map<Seq<char>, T>;

    /// The item stored under `id`, if any.
    fn get(&self, id: &String) -> (item: Option<&T>)
        ensures
            match item {
                Some(v) => self.contents().contains_key(id@) && *v == self.contents()[id@],
                None => !self.contents().contains_key(id@),
            },
    ;

    /// Stores `item` under `id`, replacing what was there. A store that
    /// refuses the write keeps its contents.
    fn put(&mut self, id: String, item: T) -> (result: Result<(), StoreError>)
        ensures
            match result {
                Ok(()) => final(self).contents() == old(self).contents().insert(id@, item),
                Err(_) => final(self).contents() == old(self).contents(),
            },
    ;
}

/// A data store in memory, held in a hash map.
#[verifier::reject_recursive_types(T)]
pub struct HashMapStore<T> {
    data: StringHashMap<T>,
}

impl<T> HashMapStore<T> {
    /// An empty store.
    pub fn new() -> (store: Self)
        ensures
            store.contents() == Map::<Seq<char>, T>::empty(),
    {
        HashMapStore { data: StringHashMap::new() }
    }
}

impl<T> DataStore<T> for HashMapStore<T> {
    closed spec fn contents(&self) -> Map<Seq<char>, T> {
        self.data@
    }

    fn get(&self, id: &String) -> (item: Option<&T>) {
        self.data.get(id.as_str())
    }

    /// Never refuses a write.
    fn put(&mut self, id: String, item: T) -> (result: Result<(), StoreError>)
        ensures
            result is Ok,
    {
        self.data.insert(id, item);
        Ok(())
    }
}

} // verus!
