//! The decoded tags.

use vstd::hash_map::StringHashMap;
use vstd::prelude::*;

verus! {

/// A mapping from tag keys to tag values. Keys are kept as they stand in
/// the stream: lookups are exact and case-sensitive.
///
/// To a contract a `TagMap` is the mathematical map from keys to values:
/// its view. Beside the values it keeps the keys in the order in which they
/// first came, so that the tags can be listed.
pub struct TagMap {
    index: StringHashMap<String>,
    order: Vec<String>,
}

impl View for TagMap {
    type V = Map<Seq<char>, Seq<char>>;

    closed spec fn view(&self) -> Map<Seq<char>, Seq<char>> {
        self.index@.map_values(|v: String| v@)
    }
}

/// The texts of some strings.
pub open spec fn texts(strings: Seq<String>) -> Seq<Seq<char>> {
    strings.map_values(|s: String| s@)
}

/// Whether `keys` lists the keys of `tags`: each of them, once, and nothing
/// else.
pub open spec fn lists_keys(keys: Seq<Seq<char>>, tags: Map<Seq<char>, Seq<char>>) -> bool {
    keys.no_duplicates() && keys.to_set() == tags.dom()
}

/// A list of the keys of a mapping is as long as the mapping is large,
/// and the mapping is therefore finite.
pub proof fn lemma_lists_keys_len(keys: Seq<Seq<char>>, tags: Map<Seq<char>, Seq<char>>)
    requires
        lists_keys(keys, tags),
    ensures
        tags.dom().finite(),
        keys.len() == tags.len(),
{
    vstd::seq_lib::seq_to_set_is_finite(keys);
    keys.unique_seq_to_set();
}

impl TagMap {
    #[verifier::type_invariant]
    spec fn order_lists_keys(self) -> bool {
        lists_keys(texts(self.order@), self@)
    }

    /// The keys in the order in which they were first set.
    pub closed spec fn key_order(&self) -> Seq<Seq<char>> {
        texts(self.order@)
    }

    /// A mapping without tags.
    pub fn new() -> (tags: Self)
        ensures
            tags@ == Map::<Seq<char>, Seq<char>>::empty(),
            tags.key_order() == Seq::<Seq<char>>::empty(),
    {
        let index: StringHashMap<String> = StringHashMap::new();
        let order: Vec<String> = Vec::new();
        proof {
            let tags = index@.map_values(|v: String| v@);
            assert(tags =~= Map::<Seq<char>, Seq<char>>::empty());
            assert(texts(order@) =~= Seq::<Seq<char>>::empty());
            assert(texts(order@).to_set() =~= tags.dom());
        }
        TagMap { index, order }
    }

    /// Sets the value of `key`, in place of any value it had. A key that
    /// had no value becomes the last of the keys.
    pub fn insert(&mut self, key: String, value: String)
        ensures
            final(self)@ == old(self)@.insert(key@, value@),
            final(self).key_order() == if old(self)@.contains_key(key@) {
                old(self).key_order()
            } else {
                old(self).key_order().push(key@)
            },
    {
        proof {
            use_type_invariant(&*self);
        }
        // The fields are taken out, changed and put back as a whole, so that
        // the invariant is never looked at while only one of them is new.
        let mut taken = TagMap::new();
        std::mem::swap(self, &mut taken);
        let TagMap { mut index, mut order } = taken;
        let ghost keys_before = texts(order@);
        let ghost tags_before = index@.map_values(|v: String| v@);
        if !index.contains_key(key.as_str()) {
            order.push(key.clone());
        }
        index.insert(key, value);
        proof {
            let keys = texts(order@);
            let tags = index@.map_values(|v: String| v@);
            assert(tags =~= tags_before.insert(key@, value@));
            if tags_before.contains_key(key@) {
                assert(keys =~= keys_before);
                assert(tags.dom() =~= tags_before.dom());
            } else {
                assert(keys =~= keys_before.push(key@));
                assert(!keys_before.contains(key@)) by {
                    if keys_before.contains(key@) {
                        assert(keys_before.to_set().contains(key@));
                    }
                }
                assert(keys.no_duplicates());
                assert(keys.to_set() =~= tags.dom()) by {
                    assert forall|k: Seq<char>| keys.to_set().contains(k) == tags.dom().contains(
                        k,
                    ) by {
                        if keys.contains(k) {
                            let i = choose|i: int| 0 <= i < keys.len() && keys[i] == k;
                            if i < keys_before.len() {
                                assert(keys_before[i] == k);
                                assert(keys_before.to_set().contains(k));
                            }
                        }
                        if tags.dom().contains(k) {
                            if k == key@ {
                                assert(keys[keys_before.len() as int] == k);
                            } else {
                                assert(keys_before.to_set().contains(k));
                                let i = choose|i: int|
                                    0 <= i < keys_before.len() && keys_before[i] == k;
                                assert(keys[i] == k);
                            }
                        }
                    }
                }
            }
        }
        *self = TagMap { index, order };
    }

    /// The value of `key`, if it has one.
    pub fn get(&self, key: &str) -> (value: Option<&str>)
        ensures
            value is Some <==> self@.contains_key(key@),
            value matches Some(v) ==> v@ == self@[key@],
    {
        match self.index.get(key) {
            Some(v) => Some(v.as_str()),
            None => None,
        }
    }

    /// Whether `key` has a value.
    pub fn contains_key(&self, key: &str) -> (present: bool)
        ensures
            present == self@.contains_key(key@),
    {
        self.index.contains_key(key)
    }

    /// Whether there are no tags at all.
    pub fn is_empty(&self) -> (empty: bool)
        ensures
            empty == (self@ == Map::<Seq<char>, Seq<char>>::empty()),
    {
        let empty = self.index.is_empty();
        proof {
            if empty {
                assert(self@ =~= Map::<Seq<char>, Seq<char>>::empty());
            } else {
                assert(self@.dom() =~= self.index@.dom());
            }
        }
        empty
    }

    /// The number of tags.
    pub fn len(&self) -> (n: usize)
        ensures
            n == self@.len(),
    {
        proof {
            assert(self@.dom() =~= self.index@.dom());
        }
        self.index.len()
    }

    /// The keys, each once, in the order in which they were first set.
    pub fn keys(&self) -> (keys: &Vec<String>)
        ensures
            texts(keys@) == self.key_order(),
            lists_keys(self.key_order(), self@),
            keys@.len() == self@.len(),
    {
        proof {
            use_type_invariant(self);
            lemma_lists_keys_len(texts(self.order@), self@);
        }
        &self.order
    }
}

} // verus!
