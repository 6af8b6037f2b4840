use vstd::prelude::*;

use crate::imagery_state::ImageryState;
use crate::tile_key::{parent_key, TileKey};

verus! {

/// Identifies one imagery tile: its tile address and the entity id of the
/// imagery layer it belongs to.
#[derive(Clone, Copy, Debug, PartialEq, Eq, Hash, Structural)]
pub struct ImageryKey {
    pub key: TileKey,
    pub layer_id: u64,
}

impl ImageryKey {
    pub fn new(key: TileKey, layer_id: u64) -> (r: ImageryKey)
        ensures
            r == (ImageryKey { key, layer_id }),
    {
        ImageryKey { key, layer_id }
    }
}

/// One imagery tile as the cache keeps it: its load state, the id of its
/// loaded texture, its reference count, the key of its parent imagery (the
/// tile one level up in the same layer) and its own key.
#[derive(Clone, Copy, Debug, PartialEq, Eq, Structural)]
pub struct ImageryInternal {
    pub state: ImageryState,
    pub texture: Option<u64>,
    pub reference_count: u32,
    pub parent: Option<ImageryKey>,
    pub key: ImageryKey,
}

impl ImageryInternal {
    /// A fresh imagery: not loaded, without texture and unreferenced.
    pub fn new(imagery_key: ImageryKey, parent: Option<ImageryKey>) -> (r: ImageryInternal)
        ensures
            r == (ImageryInternal {
                state: ImageryState::UNLOADED,
                texture: None,
                reference_count: 0,
                parent,
                key: imagery_key,
            }),
    {
        ImageryInternal {
            state: ImageryState::UNLOADED,
            texture: None,
            reference_count: 0,
            parent,
            key: imagery_key,
        }
    }

    pub fn get_tile_key(&self) -> (r: &TileKey)
        ensures
            *r == self.key.key,
    {
        &self.key.key
    }

    pub fn get_layer_id(&self) -> (r: u64)
        ensures
            r == self.key.layer_id,
    {
        self.key.layer_id
    }

    pub fn get_state(&self) -> (r: ImageryState)
        ensures
            r == self.state,
    {
        self.state
    }

    /// Records the loaded texture; nothing else changes.
    pub fn set_texture(&mut self, new_texture: u64)
        ensures
            *final(self) == (ImageryInternal { texture: Some(new_texture), ..*old(self) }),
    {
        self.texture = Some(new_texture);
    }
}

/// No two entries share a key.
pub open spec fn keys_distinct(s: Seq<ImageryInternal>) -> bool {
    forall|i: int, j: int|
        0 <= i < s.len() && 0 <= j < s.len() && i != j ==> #[trigger] s[i].key != #[trigger] s[j].key
}

/// Some entry of `s` has key `k`.
pub open spec fn has_key_in(s: Seq<ImageryInternal>, k: ImageryKey) -> bool {
    exists|i: int| 0 <= i < s.len() && #[trigger] s[i].key == k
}

/// The entries of `s` as a map from key to entry.
pub open spec fn entries_view(s: Seq<ImageryInternal>) -> Map<ImageryKey, ImageryInternal> {
    Map::new(
        |k: ImageryKey| has_key_in(s, k),
        |k: ImageryKey| s[choose|i: int| 0 <= i < s.len() && #[trigger] s[i].key == k],
    )
}

/// What a lookup of `k` in `m` gives.
pub open spec fn cache_lookup(m: Map<ImageryKey, ImageryInternal>, k: ImageryKey) -> Option<ImageryInternal> {
    if m.contains_key(k) {
        Some(m[k])
    } else {
        None
    }
}

/// The imagery tiles of all layers, found by their key.
pub struct ImageryCache {
    entries: Vec<ImageryInternal>,
}

impl View for ImageryCache {
    type V = Map<ImageryKey, ImageryInternal>;

    closed spec fn view(&self) -> Map<ImageryKey, ImageryInternal> {
        entries_view(self.entries@)
    }
}

proof fn lemma_entry_in_view(s: Seq<ImageryInternal>, i: int)
    requires
        keys_distinct(s),
        0 <= i < s.len(),
    ensures
        entries_view(s).contains_key(s[i].key),
        entries_view(s)[s[i].key] == s[i],
{
    assert(has_key_in(s, s[i].key));
    let j = choose|j: int| 0 <= j < s.len() && #[trigger] s[j].key == s[i].key;
    assert(s[j].key == s[i].key);
}

impl ImageryCache {
    /// The cache's entries have distinct keys.
    pub closed spec fn wf(&self) -> bool {
        keys_distinct(self.entries@)
    }

    /// An empty cache.
    pub fn new() -> (r: ImageryCache)
        ensures
            r.wf(),
            r@ == Map::<ImageryKey, ImageryInternal>::empty(),
    {
        let r = ImageryCache { entries: Vec::new() };
        assert(r@ =~= Map::<ImageryKey, ImageryInternal>::empty());
        r
    }

    fn find(&self, key: &ImageryKey) -> (r: Option<usize>)
        ensures
            r matches Some(i) ==> i < self.entries@.len() && self.entries@[i as int].key == *key,
            r is None ==> !has_key_in(self.entries@, *key),
    {
        let mut i: usize = 0;
        while i < self.entries.len()
            invariant
                i <= self.entries@.len(),
                forall|j: int| 0 <= j < i ==> #[trigger] self.entries@[j].key != *key,
            decreases self.entries@.len() - i,
        {
            if self.entries[i].key == *key {
                return Some(i);
            }
            i = i + 1;
        }
        None
    }

    /// The imagery stored under `key`, if any.
    pub fn get_cloned(&self, key: &ImageryKey) -> (r: Option<ImageryInternal>)
        requires
            self.wf(),
        ensures
            r == cache_lookup(self@, *key),
    {
        match self.find(key) {
            Some(i) => {
                proof {
                    lemma_entry_in_view(self.entries@, i as int);
                }
                Some(self.entries[i])
            },
            None => None,
        }
    }

    /// Removes the imagery stored under `key` and returns it, if any.
    pub fn remove(&mut self, key: &ImageryKey) -> (r: Option<ImageryInternal>)
        requires
            old(self).wf(),
        ensures
            final(self).wf(),
            final(self)@ == old(self)@.remove(*key),
            r == cache_lookup(old(self)@, *key),
    {
        let ghost s = self.entries@;
        match self.find(key) {
            Some(i) => {
                proof {
                    lemma_entry_in_view(s, i as int);
                }
                let x = self.entries.remove(i);
                proof {
                    let s2 = self.entries@;
                    assert(s2 =~= s.remove(i as int));
                    assert forall|a: int, b: int|
                        0 <= a < s2.len() && 0 <= b < s2.len() && a != b implies #[trigger] s2[a].key != #[trigger] s2[b].key by {
                        let a0 = if a < i { a } else { a + 1 };
                        let b0 = if b < i { b } else { b + 1 };
                        assert(s2[a] == s[a0]);
                        assert(s2[b] == s[b0]);
                    }
                    assert forall|k: ImageryKey| #[trigger] entries_view(s2).contains_key(k)
                        <==> entries_view(s).remove(*key).contains_key(k) by {
                        if has_key_in(s2, k) {
                            let a = choose|a: int| 0 <= a < s2.len() && #[trigger] s2[a].key == k;
                            let a0 = if a < i { a } else { a + 1 };
                            assert(s2[a] == s[a0]);
                            assert(has_key_in(s, k));
                        }
                        if has_key_in(s, k) && k != *key {
                            let a0 = choose|a: int| 0 <= a < s.len() && #[trigger] s[a].key == k;
                            let a = if a0 < i { a0 } else { a0 - 1 };
                            assert(s2[a] == s[a0]);
                            assert(has_key_in(s2, k));
                        }
                    }
                    assert forall|k: ImageryKey| #[trigger] entries_view(s2).contains_key(k)
                        implies entries_view(s2)[k] == entries_view(s).remove(*key)[k] by {
                        let a = choose|a: int| 0 <= a < s2.len() && #[trigger] s2[a].key == k;
                        let a0 = if a < i { a } else { a + 1 };
                        assert(s2[a] == s[a0]);
                        lemma_entry_in_view(s2, a);
                        lemma_entry_in_view(s, a0);
                    }
                    assert(entries_view(s2) =~= entries_view(s).remove(*key));
                }
                Some(x)
            },
            None => {
                proof {
                    assert(entries_view(s) =~= entries_view(s).remove(*key));
                }
                None
            },
        }
    }

    /// Stores `imagery` under its key, replacing what was stored there.
    fn put(&mut self, imagery: ImageryInternal)
        requires
            old(self).wf(),
        ensures
            final(self).wf(),
            final(self)@ == old(self)@.insert(imagery.key, imagery),
    {
        let ghost s = self.entries@;
        let k = imagery.key;
        match self.find(&k) {
            Some(i) => {
                self.entries.set(i, imagery);
                proof {
                    let s2 = self.entries@;
                    assert(s2 =~= s.update(i as int, imagery));
                    assert forall|a: int, b: int|
                        0 <= a < s2.len() && 0 <= b < s2.len() && a != b implies #[trigger] s2[a].key != #[trigger] s2[b].key by {
                        assert(s2[a].key == s[a].key);
                        assert(s2[b].key == s[b].key);
                    }
                    assert forall|kk: ImageryKey| #[trigger] entries_view(s2).contains_key(kk)
                        <==> entries_view(s).insert(k, imagery).contains_key(kk) by {
                        if has_key_in(s2, kk) {
                            let a = choose|a: int| 0 <= a < s2.len() && #[trigger] s2[a].key == kk;
                            assert(s2[a].key == s[a].key);
                        }
                        if has_key_in(s, kk) {
                            let a = choose|a: int| 0 <= a < s.len() && #[trigger] s[a].key == kk;
                            assert(s2[a].key == s[a].key);
                        }
                        if kk == k {
                            assert(s2[i as int].key == k);
                        }
                    }
                    assert forall|kk: ImageryKey| #[trigger] entries_view(s2).contains_key(kk)
                        implies entries_view(s2)[kk] == entries_view(s).insert(k, imagery)[kk] by {
                        let a = choose|a: int| 0 <= a < s2.len() && #[trigger] s2[a].key == kk;
                        assert(s2[a].key == s[a].key);
                        lemma_entry_in_view(s2, a);
                        if a != i {
                            lemma_entry_in_view(s, a);
                        }
                    }
                    assert(entries_view(s2) =~= entries_view(s).insert(k, imagery));
                }
            },
            None => {
                self.entries.push(imagery);
                proof {
                    let s2 = self.entries@;
                    assert(s2 =~= s.push(imagery));
                    assert forall|kk: ImageryKey| #[trigger] entries_view(s2).contains_key(kk)
                        <==> entries_view(s).insert(k, imagery).contains_key(kk) by {
                        if has_key_in(s2, kk) {
                            let a = choose|a: int| 0 <= a < s2.len() && #[trigger] s2[a].key == kk;
                            if a < s.len() {
                                assert(s2[a] == s[a]);
                            }
                        }
                        if has_key_in(s, kk) {
                            let a = choose|a: int| 0 <= a < s.len() && #[trigger] s[a].key == kk;
                            assert(s2[a] == s[a]);
                        }
                        if kk == k {
                            assert(s2[s.len() as int].key == k);
                        }
                    }
                    assert forall|kk: ImageryKey| #[trigger] entries_view(s2).contains_key(kk)
                        implies entries_view(s2)[kk] == entries_view(s).insert(k, imagery)[kk] by {
                        let a = choose|a: int| 0 <= a < s2.len() && #[trigger] s2[a].key == kk;
                        lemma_entry_in_view(s2, a);
                        if a < s.len() {
                            assert(s2[a] == s[a]);
                            lemma_entry_in_view(s, a);
                        }
                    }
                    assert(entries_view(s2) =~= entries_view(s).insert(k, imagery));
                }
            },
        }
    }

    /// Creates the imagery of tile `tile_key` in layer `layer_entity`, stores
    /// it (replacing what was stored under its key) and returns it. Below the
    /// root level its parent is the imagery of the parent tile in the same
    /// layer, which must already be in the cache.
    pub fn add(&mut self, layer_entity: u64, tile_key: &TileKey) -> (r: ImageryInternal)
        requires
            old(self).wf(),
            tile_key.level != 0 ==> old(self)@.contains_key(
                ImageryKey { key: parent_key(*tile_key).unwrap(), layer_id: layer_entity },
            ),
        ensures
            final(self).wf(),
            r == (ImageryInternal {
                state: ImageryState::UNLOADED,
                texture: None,
                reference_count: 0,
                parent: if tile_key.level == 0 {
                    None
                } else {
                    Some(ImageryKey { key: parent_key(*tile_key).unwrap(), layer_id: layer_entity })
                },
                key: ImageryKey { key: *tile_key, layer_id: layer_entity },
            }),
            final(self)@ == old(self)@.insert(r.key, r),
            r.parent matches Some(p) ==> final(self)@.contains_key(p),
    {
        let mut parent: Option<ImageryKey> = None;
        if tile_key.level != 0 {
            if let Some(parent_tile) = tile_key.parent() {
                let found = self.get_cloned(&ImageryKey::new(parent_tile, layer_entity));
                parent = Some(found.unwrap().key);
            }
        }
        let key = ImageryKey { key: *tile_key, layer_id: layer_entity };
        let imagery = ImageryInternal::new(key, parent);
        self.put(imagery);
        imagery
    }
}

impl Default for ImageryCache {
    fn default() -> (r: ImageryCache)
        ensures
            r.wf(),
            r@ == Map::<ImageryKey, ImageryInternal>::empty(),
    {
        ImageryCache::new()
    }
}

/// Looking up a key right after an imagery was stored under it gives that
/// imagery; every other key gives what it gave before.
pub proof fn lemma_get_after_add(
    m: Map<ImageryKey, ImageryInternal>,
    added: ImageryInternal,
    other: ImageryKey,
)
    ensures
        cache_lookup(m.insert(added.key, added), added.key) == Some(added),
        other != added.key ==> cache_lookup(m.insert(added.key, added), other) == cache_lookup(m, other),
{
}

/// After a key is removed, looking it up gives nothing; every other key gives
/// what it gave before. Removing a key that was just added to a cache that
/// did not hold it gives the cache back.
pub proof fn lemma_get_after_remove(
    m: Map<ImageryKey, ImageryInternal>,
    removed: ImageryKey,
    other: ImageryKey,
    added: ImageryInternal,
)
    ensures
        cache_lookup(m.remove(removed), removed) is None,
        other != removed ==> cache_lookup(m.remove(removed), other) == cache_lookup(m, other),
        !m.contains_key(added.key) ==> m.insert(added.key, added).remove(added.key) == m,
{
    assert(!m.contains_key(added.key) ==> m.insert(added.key, added).remove(added.key) =~= m);
}

} // verus!
