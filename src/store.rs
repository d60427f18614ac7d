use vstd::prelude::*;

use std::collections::HashMap;

use crate::key_set::AssetKey;

verus! {

broadcast use vstd::std_specs::hash::group_hash_axioms;

/// The current bytes of each loaded script asset. Units hold only a key and
/// read their bytes from here each time they run.
#[derive(Debug)]
pub struct ScriptStore {
    assets: HashMap<u64, Vec<u8>>,
}

impl View for ScriptStore {
    type V = Map<AssetKey, Seq<u8>>;

    closed spec fn view(&self) -> Map<AssetKey, Seq<u8>> {
        Map::new(|k: AssetKey| self.assets@.contains_key(k.id), |k: AssetKey| self.assets@[k.id]@)
    }
}

impl ScriptStore {
    pub fn new() -> (r: ScriptStore)
        ensures
            r@ == Map::<AssetKey, Seq<u8>>::empty(),
    {
        let r = ScriptStore { assets: HashMap::new() };
        assert(r@ =~= Map::<AssetKey, Seq<u8>>::empty());
        r
    }

    /// Records `bytes` as the current content of `key`, loaded or reloaded.
    pub fn set(&mut self, key: AssetKey, bytes: Vec<u8>)
        ensures
            final(self)@ == old(self)@.insert(key, bytes@),
    {
        let ghost b = bytes@;
        self.assets.insert(key.id, bytes);
        assert(self@ =~= old(self)@.insert(key, b));
    }

    /// Forgets the content of `key`.
    pub fn remove(&mut self, key: AssetKey)
        ensures
            final(self)@ == old(self)@.remove(key),
    {
        self.assets.remove(&key.id);
        assert(self@ =~= old(self)@.remove(key));
    }

    pub fn contains(&self, key: AssetKey) -> (r: bool)
        ensures
            r == self@.contains_key(key),
    {
        self.assets.contains_key(&key.id)
    }

    /// The current bytes of `key`, if it is loaded.
    pub fn get(&self, key: AssetKey) -> (r: Option<&Vec<u8>>)
        ensures
            match r {
                Some(b) => self@.contains_key(key) && b@ == self@[key],
                None => !self@.contains_key(key),
            },
    {
        self.assets.get(&key.id)
    }
}

} // verus!
