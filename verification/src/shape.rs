//! A fixed shape: a map from chip name to the pre-declared log2 row count
//! that every shard of a stage must use. The map itself is a hashbrown
//! hash map; the contracts speak of its contents as a mathematical map
//! from character sequences to log2 heights.

use vstd::prelude::*;

verus! {

/// A pre-declared log2 row count per chip name. Chips absent from the map
/// are sized dynamically.
///
/// The hash map inside is held behind trusted wrappers; `shape_entries`
/// names what it holds.
#[verifier::external_body]
pub struct RecursionShape {
    inner: hashbrown::HashMap<String, usize>,
}

/// The contents of the shape map: chip name to log2 row count.
pub uninterp spec fn shape_entries(s: RecursionShape) -> Map<Seq<char>, usize>;

/// The contents of a shape map that holds nothing.
pub open spec fn no_shape_entries() -> Map<Seq<char>, usize> {
    Map::empty()
}

impl RecursionShape {
    /// Relies on `hashbrown::HashMap::new`: a fresh map holds nothing.
    #[verifier::external_body]
    pub fn new() -> (r: RecursionShape)
        ensures
            shape_entries(r) == no_shape_entries(),
    {
        RecursionShape { inner: hashbrown::HashMap::new() }
    }

    /// Relies on `hashbrown::HashMap::insert`: the value is stored under the
    /// key, replacing any earlier value; `String` keys compare by their
    /// characters.
    #[verifier::external_body]
    pub fn insert(&mut self, name: &str, log2_height: usize)
        ensures
            shape_entries(*final(self)) == shape_entries(*old(self)).insert(name@, log2_height),
    {
        self.inner.insert(name.to_owned(), log2_height);
    }

    /// Relies on `hashbrown::HashMap::get`: returns the value stored under
    /// the key, or nothing when the key is absent; `String` keys compare by
    /// their characters.
    #[verifier::external_body]
    pub fn get(&self, name: &str) -> (r: Option<usize>)
        ensures
            shape_entries(*self).contains_key(name@) ==> r == Some(
                shape_entries(*self)[name@],
            ),
            !shape_entries(*self).contains_key(name@) ==> r is None,
    {
        self.inner.get(name).copied()
    }
}

/// The log2 row count an optional shape fixes for the named chip, if any.
pub open spec fn fixed_log2_of(shape: Option<RecursionShape>, name: Seq<char>) -> Option<usize> {
    match shape {
        Option::None => Option::None,
        Option::Some(s) => if shape_entries(s).contains_key(name) {
            Option::Some(shape_entries(s)[name])
        } else {
            Option::None
        },
    }
}

} // verus!
