//! Hash maps of the `hashbrown` crate that the parser keeps: string attributes, counts of type
//! flags and the index of the paths seen so far, and a string map with a limit on its keys.
use vstd::prelude::*;

use crate::buffers::LimitedBackingBufferError;

verus! {

/// The map with no entries.
pub open spec fn no_entries() -> Map<Seq<char>, Seq<char>> {
    Map::empty()
}

/// No counts at all.
pub open spec fn no_counts() -> Map<u8, usize> {
    Map::empty()
}

/// No paths at all.
pub open spec fn no_paths() -> Map<Seq<char>, usize> {
    Map::empty()
}

/// A map from strings to strings, held in a `hashbrown::HashMap`.
#[verifier::external_body]
#[derive(Debug)]
pub struct StringMap {
    inner: hashbrown::HashMap<String, String>,
}

/// The entries of a [`StringMap`], each string taken by its characters.
pub uninterp spec fn string_map_contents(m: StringMap) -> Map<Seq<char>, Seq<char>>;

impl StringMap {
    /// The entries of the map.
    pub open spec fn contents(&self) -> Map<Seq<char>, Seq<char>> {
        string_map_contents(*self)
    }

    /// `hashbrown::HashMap::new`: an empty map.
    #[verifier::external_body]
    pub fn new() -> (r: Self)
        ensures
            string_map_contents(r) == no_entries(),
    {
        StringMap { inner: hashbrown::HashMap::new() }
    }

    /// `hashbrown::HashMap::len`: the number of keys, of a map with finitely many keys.
    #[verifier::external_body]
    pub fn len(&self) -> (r: usize)
        ensures
            r == string_map_contents(*self).dom().len(),
    {
        self.inner.len()
    }

    /// `hashbrown::HashMap::get`: the value stored under `key`, if any.
    #[verifier::external_body]
    pub fn get(&self, key: &str) -> (r: Option<&String>)
        ensures
            r is Some <==> string_map_contents(*self).dom().contains(key@),
            r matches Some(v) ==> v@ == string_map_contents(*self)[key@],
    {
        self.inner.get(key)
    }

    /// `hashbrown::HashMap::contains_key`: whether `key` is stored.
    #[verifier::external_body]
    pub fn contains_key(&self, key: &str) -> (r: bool)
        ensures
            r == string_map_contents(*self).dom().contains(key@),
    {
        self.inner.contains_key(key)
    }

    /// `hashbrown::HashMap::insert`: stores `value` under `key` and returns the value it
    /// replaces.
    #[verifier::external_body]
    pub fn insert(&mut self, key: String, value: String) -> (r: Option<String>)
        ensures
            string_map_contents(*final(self)) == string_map_contents(*old(self)).insert(key@, value@),
            r is Some <==> string_map_contents(*old(self)).dom().contains(key@),
            r matches Some(v) ==> v@ == string_map_contents(*old(self))[key@],
    {
        self.inner.insert(key, value)
    }

    /// `hashbrown::HashMap::clear`: removes every entry.
    #[verifier::external_body]
    pub fn clear(&mut self)
        ensures
            string_map_contents(*final(self)) == no_entries(),
    {
        self.inner.clear()
    }

    /// `hashbrown::HashMap::iter`, each entry copied: every entry once, in the order in which the
    /// map is walked, which is left unsaid.
    #[verifier::external_body]
    pub fn entries(&self) -> (r: Vec<(String, String)>)
        ensures
            r@.len() == string_map_contents(*self).dom().len(),
            forall|i: int|
                0 <= i < r@.len() ==> string_map_contents(*self).dom().contains(#[trigger] r@[i].0@)
                    && string_map_contents(*self)[r@[i].0@] == r@[i].1@,
            forall|i: int, j: int|
                0 <= i < j < r@.len() ==> #[trigger] r@[i].0@ != #[trigger] r@[j].0@,
            forall|k: Seq<char>|
                #[trigger] string_map_contents(*self).dom().contains(k) ==> exists|i: int|
                    0 <= i < r@.len() && r@[i].0@ == k,
    {
        self.inner.iter().map(|(k, v)| (k.clone(), v.clone())).collect()
    }

    /// A copy of the map.
    #[verifier::external_body]
    pub fn duplicate(&self) -> (r: Self)
        ensures
            string_map_contents(r) == string_map_contents(*self),
    {
        StringMap { inner: self.inner.clone() }
    }
}

impl Clone for StringMap {
    fn clone(&self) -> (r: Self)
        ensures
            r.contents() == self.contents(),
    {
        self.duplicate()
    }
}

/// A string map that refuses new keys beyond a maximum number of keys.
pub struct LimitedHashMap {
    map: StringMap,
    max_keys: usize,
}

impl LimitedHashMap {
    /// The entries of the map.
    pub closed spec fn contents(&self) -> Map<Seq<char>, Seq<char>> {
        self.map.contents()
    }

    /// The most keys the map takes.
    pub closed spec fn limit(&self) -> usize {
        self.max_keys
    }

    /// An empty map that takes at most `max_keys` keys.
    pub fn new(max_keys: usize) -> (r: Self)
        ensures
            r.contents() == no_entries(),
            r.limit() == max_keys,
    {
        LimitedHashMap { map: StringMap::new(), max_keys }
    }

    /// The most keys the map takes.
    pub fn max_keys(&self) -> (r: usize)
        ensures
            r == self.limit(),
    {
        self.max_keys
    }

    /// The map without its limit.
    pub fn as_hash_map(&self) -> (r: &StringMap)
        ensures
            r.contents() == self.contents(),
    {
        &self.map
    }

    pub fn len(&self) -> (r: usize)
        ensures
            r == self.contents().dom().len(),
    {
        self.map.len()
    }

    pub fn is_empty(&self) -> (r: bool)
        ensures
            r == (self.contents().dom().len() == 0),
    {
        self.map.len() == 0
    }

    pub fn get(&self, key: &str) -> (r: Option<&String>)
        ensures
            r is Some <==> self.contents().dom().contains(key@),
            r matches Some(v) ==> v@ == self.contents()[key@],
    {
        self.map.get(key)
    }

    pub fn contains_key(&self, key: &str) -> (r: bool)
        ensures
            r == self.contents().dom().contains(key@),
    {
        self.map.contains_key(key)
    }

    /// Stores `value` under `key`, unless `key` is new and the map already holds its maximum
    /// number of keys.
    pub fn insert(&mut self, key: String, value: String) -> (r: Result<
        Option<String>,
        LimitedBackingBufferError<core::convert::Infallible>,
    >)
        ensures
            final(self).limit() == old(self).limit(),
            !old(self).contents().dom().contains(key@) && old(self).contents().dom().len()
                >= old(self).limit() ==> {
                &&& r == Err::<Option<String>, LimitedBackingBufferError<core::convert::Infallible>>(
                    LimitedBackingBufferError::MemoryLimitExceeded(old(self).limit()),
                )
                &&& final(self).contents() == old(self).contents()
            },
            old(self).contents().dom().contains(key@) || old(self).contents().dom().len()
                < old(self).limit() ==> {
                &&& r matches Ok(prev) && (prev is Some <==> old(self).contents().dom().contains(
                    key@,
                ))
                &&& final(self).contents() == old(self).contents().insert(key@, value@)
            },
    {
        let len = self.map.len();
        if !self.map.contains_key(key.as_str()) && len >= self.max_keys {
            return Err(LimitedBackingBufferError::MemoryLimitExceeded(self.max_keys));
        }
        Ok(self.map.insert(key, value))
    }

    /// Removes every entry.
    pub fn clear(&mut self)
        ensures
            final(self).contents() == no_entries(),
            final(self).limit() == old(self).limit(),
    {
        self.map.clear()
    }

    /// Every entry once, in an order left unsaid.
    pub fn entries(&self) -> (r: Vec<(String, String)>)
        ensures
            r@.len() == self.contents().dom().len(),
            forall|i: int|
                0 <= i < r@.len() ==> self.contents().dom().contains(#[trigger] r@[i].0@)
                    && self.contents()[r@[i].0@] == r@[i].1@,
            forall|i: int, j: int|
                0 <= i < j < r@.len() ==> #[trigger] r@[i].0@ != #[trigger] r@[j].0@,
            forall|k: Seq<char>|
                #[trigger] self.contents().dom().contains(k) ==> exists|i: int|
                    0 <= i < r@.len() && r@[i].0@ == k,
    {
        self.map.entries()
    }
}

/// Counts of type flags, keyed by the byte each flag is written as, held in a
/// `hashbrown::HashMap`.
#[verifier::external_body]
#[derive(Debug)]
pub struct TypeFlagCounts {
    inner: hashbrown::HashMap<u8, usize>,
}

/// The counts of a [`TypeFlagCounts`], by flag byte.
pub uninterp spec fn type_flag_counts(m: TypeFlagCounts) -> Map<u8, usize>;

impl TypeFlagCounts {
    /// The counts by flag byte.
    pub open spec fn contents(&self) -> Map<u8, usize> {
        type_flag_counts(*self)
    }

    /// `hashbrown::HashMap::new`: no counts.
    #[verifier::external_body]
    pub fn new() -> (r: Self)
        ensures
            type_flag_counts(r) == no_counts(),
    {
        TypeFlagCounts { inner: hashbrown::HashMap::new() }
    }

    /// `hashbrown::HashMap::get`, copied: the count stored under `key`, if any.
    #[verifier::external_body]
    pub fn get(&self, key: u8) -> (r: Option<usize>)
        ensures
            r is Some <==> type_flag_counts(*self).dom().contains(key),
            r matches Some(v) ==> v == type_flag_counts(*self)[key],
    {
        self.inner.get(&key).copied()
    }

    /// `hashbrown::HashMap::insert`: stores `value` under `key`.
    #[verifier::external_body]
    pub fn insert(&mut self, key: u8, value: usize)
        ensures
            type_flag_counts(*final(self)) == type_flag_counts(*old(self)).insert(key, value),
    {
        self.inner.insert(key, value);
    }
}

/// The position of each path in a list of entries, held in a `hashbrown::HashMap`.
#[verifier::external_body]
#[derive(Debug)]
pub struct PathIndex {
    inner: hashbrown::HashMap<String, usize>,
}

/// The positions of a [`PathIndex`], by path.
pub uninterp spec fn path_index_contents(m: PathIndex) -> Map<Seq<char>, usize>;

impl PathIndex {
    /// The positions by path.
    pub open spec fn contents(&self) -> Map<Seq<char>, usize> {
        path_index_contents(*self)
    }

    /// `hashbrown::HashMap::new`: no paths.
    #[verifier::external_body]
    pub fn new() -> (r: Self)
        ensures
            path_index_contents(r) == no_paths(),
    {
        PathIndex { inner: hashbrown::HashMap::new() }
    }

    /// `hashbrown::HashMap::get`, copied: the position stored under `key`, if any.
    #[verifier::external_body]
    pub fn get(&self, key: &str) -> (r: Option<usize>)
        ensures
            r is Some <==> path_index_contents(*self).dom().contains(key@),
            r matches Some(v) ==> v == path_index_contents(*self)[key@],
    {
        self.inner.get(key).copied()
    }

    /// `hashbrown::HashMap::insert`: stores `value` under `key`.
    #[verifier::external_body]
    pub fn insert(&mut self, key: String, value: usize)
        ensures
            path_index_contents(*final(self)) == path_index_contents(*old(self)).insert(key@, value),
    {
        self.inner.insert(key, value);
    }
}

} // verus!
