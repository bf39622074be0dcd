//! The store: items with catalog metadata and per-environment values.
use vstd::prelude::*;

use crate::crypto::{parse_sensitivity, spec_parse_sensitivity, SensitivityLevel};
use crate::smap::{
    find_index, has_key, insert_entry, lemma_lookup_at, lemma_view_map_insert, lemma_view_map_remove,
    lookup, remove_entry, sorted_keys, view_map,
};
use crate::text::views;

verus! {

/// Sensitivity declaration for a catalog item.
#[derive(Debug, Clone, Copy, PartialEq, Eq, Structural)]
pub enum Sensitivity {
    Plaintext,
    Sensitive,
    Secret,
}

/// The encryption level a declared sensitivity calls for.
pub open spec fn spec_level_of(s: Sensitivity) -> Option<SensitivityLevel> {
    match s {
        Sensitivity::Plaintext => None,
        Sensitivity::Sensitive => Some(SensitivityLevel::Sensitive),
        Sensitivity::Secret => Some(SensitivityLevel::Secret),
    }
}

impl Sensitivity {
    /// The encryption level this sensitivity calls for (none for plaintext).
    pub fn to_sensitivity_level(&self) -> (r: Option<SensitivityLevel>)
        ensures
            r == spec_level_of(*self),
    {
        match self {
            Sensitivity::Plaintext => None,
            Sensitivity::Sensitive => Some(SensitivityLevel::Sensitive),
            Sensitivity::Secret => Some(SensitivityLevel::Secret),
        }
    }
}

/// The abstract content of an item.
pub struct ItemView {
    pub description: Option<Seq<char>>,
    pub sensitivity: Option<Sensitivity>,
    pub origin: Option<Seq<char>>,
    pub environments: Seq<Seq<char>>,
    pub tags: Seq<Seq<char>>,
    pub values: Map<Seq<char>, Seq<char>>,
}

/// The view of an optional string.
pub open spec fn opt_view(o: Option<String>) -> Option<Seq<char>> {
    match o {
        Some(s) => Some(s@),
        None => None,
    }
}

impl ItemView {
    /// The same item with other values.
    pub open spec fn with_values(self, values: Map<Seq<char>, Seq<char>>) -> ItemView {
        ItemView { values, ..self }
    }

    /// The same item with `value` stored for `env`.
    pub open spec fn set(self, env: Seq<char>, value: Seq<char>) -> ItemView {
        self.with_values(self.values.insert(env, value))
    }
}

/// An item with no metadata and no values.
pub open spec fn empty_item_view() -> ItemView {
    ItemView {
        description: None,
        sensitivity: None,
        origin: None,
        environments: Seq::empty(),
        tags: Seq::empty(),
        values: Map::empty(),
    }
}

/// A single item: catalog metadata + per-environment values (kept sorted by
/// environment name).
pub struct Item {
    pub description: Option<String>,
    pub sensitivity: Option<Sensitivity>,
    pub origin: Option<String>,
    pub environments: Vec<String>,
    pub tags: Vec<String>,
    pub values: Vec<(String, String)>,
}

impl View for Item {
    type V = ItemView;

    open spec fn view(&self) -> ItemView {
        ItemView {
            description: opt_view(self.description),
            sensitivity: self.sensitivity,
            origin: opt_view(self.origin),
            environments: views(self.environments@),
            tags: views(self.tags@),
            values: view_map(self.values@),
        }
    }
}

/// A copy of a vector of strings.
pub fn clone_strings(v: &Vec<String>) -> (r: Vec<String>)
    ensures
        r@ == v@,
{
    let mut r: Vec<String> = Vec::new();
    let mut i: usize = 0;
    while i < v.len()
        invariant
            i <= v.len(),
            r@ == v@.take(i as int),
        decreases v.len() - i,
    {
        r.push(v[i].clone());
        i = i + 1;
        assert(v@.take(i as int) =~= v@.take((i - 1) as int).push(v@[i - 1]));
    }
    assert(v@.take(v.len() as int) =~= v@);
    r
}

/// A copy of an optional string.
pub fn clone_opt(o: &Option<String>) -> (r: Option<String>)
    ensures
        r == *o,
{
    match o {
        Some(s) => Some(s.clone()),
        None => None,
    }
}

fn clone_pairs(v: &Vec<(String, String)>) -> (r: Vec<(String, String)>)
    ensures
        r@ == v@,
{
    let mut r: Vec<(String, String)> = Vec::new();
    let mut i: usize = 0;
    while i < v.len()
        invariant
            i <= v.len(),
            r@ == v@.take(i as int),
        decreases v.len() - i,
    {
        let (a, b) = &v[i];
        r.push((a.clone(), b.clone()));
        i = i + 1;
        assert(v@.take(i as int) =~= v@.take((i - 1) as int).push(v@[i - 1]));
    }
    assert(v@.take(v.len() as int) =~= v@);
    r
}

impl Item {
    /// Values are kept with distinct environments in sorted order.
    pub open spec fn wf(&self) -> bool {
        sorted_keys(self.values@)
    }

    /// An item with no metadata and no values.
    pub fn empty() -> (r: Item)
        ensures
            r.wf(),
            r@ == empty_item_view(),
            r.values@.len() == 0,
    {
        let r = Item {
            description: None,
            sensitivity: None,
            origin: None,
            environments: Vec::new(),
            tags: Vec::new(),
            values: Vec::new(),
        };
        assert(r@.values =~= Map::<Seq<char>, Seq<char>>::empty());
        assert(r@.environments =~= Seq::<Seq<char>>::empty());
        assert(r@.tags =~= Seq::<Seq<char>>::empty());
        r
    }

    /// A copy of this item.
    pub fn duplicate(&self) -> (r: Item)
        ensures
            r.description == self.description,
            r.sensitivity == self.sensitivity,
            r.origin == self.origin,
            r.environments@ == self.environments@,
            r.tags@ == self.tags@,
            r.values@ == self.values@,
            r@ == self@,
    {
        Item {
            description: clone_opt(&self.description),
            sensitivity: self.sensitivity,
            origin: clone_opt(&self.origin),
            environments: clone_strings(&self.environments),
            tags: clone_strings(&self.tags),
            values: clone_pairs(&self.values),
        }
    }

    /// The value stored for `env`, if any.
    pub fn value(&self, env: &str) -> (r: Option<&String>)
        requires
            self.wf(),
        ensures
            r matches Some(v) ==> self@.values.contains_key(env@) && self@.values[env@] == v@,
            r is None ==> !self@.values.contains_key(env@),
    {
        match find_index(&self.values, env) {
            Some(i) => {
                proof {
                    lemma_lookup_at(self.values@, i as int);
                }
                Some(&self.values[i].1)
            },
            None => None,
        }
    }

    /// Whether a value is stored for `env`.
    pub fn has_value(&self, env: &str) -> (r: bool)
        requires
            self.wf(),
        ensures
            r == self@.values.contains_key(env@),
    {
        self.value(env).is_some()
    }

    /// Stores `value` for `env`.
    pub fn set_value(&mut self, env: &str, value: String)
        requires
            old(self).wf(),
        ensures
            final(self).wf(),
            final(self)@ == old(self)@.set(env@, value@),
    {
        let ghost v0 = self.values@;
        let ghost value_copy = value;
        insert_entry(&mut self.values, crate::text::owned(env), value);
        proof {
            let v1 = self.values@;
            lemma_view_map_insert(v0, v1, env@, value_copy);
        }
    }

    /// Removes the value for `env`, returning whether there was one.
    pub fn remove_value(&mut self, env: &str) -> (r: bool)
        requires
            old(self).wf(),
        ensures
            final(self).wf(),
            r == old(self)@.values.contains_key(env@),
            final(self)@ == old(self)@.with_values(old(self)@.values.remove(env@)),
    {
        let ghost v0 = self.values@;
        let r = remove_entry(&mut self.values, env);
        proof {
            let v1 = self.values@;
            lemma_view_map_remove(v0, v1, env@);
        }
        r
    }
}

/// Store-level metadata.
pub struct StoreMeta {
    pub default_environments: Vec<String>,
}

/// The abstract content of a store.
pub struct StoreView {
    pub default_environments: Seq<Seq<char>>,
    pub items: Map<Seq<char>, ItemView>,
}

/// The full store: metadata + items, kept sorted by item ID.
pub struct Store {
    pub meta: StoreMeta,
    pub items: Vec<(String, Item)>,
}

impl View for Store {
    type V = StoreView;

    open spec fn view(&self) -> StoreView {
        StoreView {
            default_environments: views(self.meta.default_environments@),
            items: view_map(self.items@),
        }
    }
}

impl StoreView {
    /// The same store with other items.
    pub open spec fn with_items(self, items: Map<Seq<char>, ItemView>) -> StoreView {
        StoreView { items, ..self }
    }

    /// The item under `id`, or an empty one.
    pub open spec fn item_or_empty(self, id: Seq<char>) -> ItemView {
        if self.items.contains_key(id) {
            self.items[id]
        } else {
            empty_item_view()
        }
    }
}

/// Apply default environments to an item that doesn't already have its own.
pub open spec fn with_default_environments(defaults: Seq<Seq<char>>, item: ItemView) -> ItemView {
    if item.environments.len() == 0 && defaults.len() > 0 {
        ItemView { environments: defaults, ..item }
    } else {
        item
    }
}

/// Apply default environments to an item that doesn't already have its own.
pub fn apply_default_environments(meta: &StoreMeta, item: &mut Item)
    ensures
        final(item)@ == with_default_environments(views(meta.default_environments@), old(item)@),
        final(item).values@ == old(item).values@,
        final(item).description == old(item).description,
        final(item).sensitivity == old(item).sensitivity,
        final(item).origin == old(item).origin,
        final(item).tags@ == old(item).tags@,
{
    if item.environments.len() == 0 && meta.default_environments.len() > 0 {
        item.environments = clone_strings(&meta.default_environments);
    }
}

impl Store {
    /// Items are sorted by ID and each item is well formed.
    pub open spec fn wf(&self) -> bool {
        &&& sorted_keys(self.items@)
        &&& forall|i: int| 0 <= i < self.items@.len() ==> (#[trigger] self.items@[i]).1.wf()
    }

    /// An empty store.
    pub fn new() -> (r: Store)
        ensures
            r.wf(),
            r@.items == Map::<Seq<char>, ItemView>::empty(),
            r@.default_environments.len() == 0,
            r.items@.len() == 0,
    {
        let r = Store { meta: StoreMeta { default_environments: Vec::new() }, items: Vec::new() };
        assert(r@.items =~= Map::<Seq<char>, ItemView>::empty());
        r
    }

    /// Number of items.
    pub fn len(&self) -> (r: usize)
        ensures
            r == self.items@.len(),
    {
        self.items.len()
    }

    /// Whether the store has no items.
    pub fn is_empty(&self) -> (r: bool)
        ensures
            r == (self.items@.len() == 0),
    {
        self.items.len() == 0
    }

    /// The item under `id`, if any.
    pub fn get(&self, id: &str) -> (r: Option<&Item>)
        requires
            self.wf(),
        ensures
            r matches Some(it) ==> self@.items.contains_key(id@) && self@.items[id@] == it@
                && it.wf(),
            r is None ==> !self@.items.contains_key(id@),
    {
        match find_index(&self.items, id) {
            Some(i) => {
                proof {
                    lemma_lookup_at(self.items@, i as int);
                }
                Some(&self.items[i].1)
            },
            None => None,
        }
    }

    /// Whether an item exists under `id`.
    pub fn contains(&self, id: &str) -> (r: bool)
        requires
            self.wf(),
        ensures
            r == self@.items.contains_key(id@),
    {
        self.get(id).is_some()
    }

    /// Stores `item` under `id`, replacing any item there.
    pub fn put(&mut self, id: &str, item: Item)
        requires
            old(self).wf(),
            item.wf(),
        ensures
            final(self).wf(),
            final(self)@ == old(self)@.with_items(old(self)@.items.insert(id@, item@)),
            final(self).meta == old(self).meta,
    {
        let ghost s0 = self.items@;
        let ghost item_copy = item;
        insert_entry(&mut self.items, crate::text::owned(id), item);
        proof {
            let s1 = self.items@;
            lemma_view_map_insert(s0, s1, id@, item_copy);
            assert forall|i: int| 0 <= i < s1.len() implies (#[trigger] s1[i]).1.wf() by {
                lemma_lookup_at(s1, i);
                let k = s1[i].0@;
                if k != id@ {
                    assert(has_key(s0, k));
                    let j = choose|j: int| 0 <= j < s0.len() && #[trigger] s0[j].0@ == k;
                    lemma_lookup_at(s0, j);
                    assert(s0[j].1.wf());
                }
            }
        }
    }

    /// Removes the item under `id`, returning whether there was one.
    pub fn remove(&mut self, id: &str) -> (r: bool)
        requires
            old(self).wf(),
        ensures
            final(self).wf(),
            r == old(self)@.items.contains_key(id@),
            final(self)@ == old(self)@.with_items(old(self)@.items.remove(id@)),
            final(self).meta == old(self).meta,
    {
        let ghost s0 = self.items@;
        let r = remove_entry(&mut self.items, id);
        proof {
            let s1 = self.items@;
            lemma_view_map_remove(s0, s1, id@);
            assert forall|i: int| 0 <= i < s1.len() implies (#[trigger] s1[i]).1.wf() by {
                lemma_lookup_at(s1, i);
                let k = s1[i].0@;
                assert(has_key(s0, k));
                let j = choose|j: int| 0 <= j < s0.len() && #[trigger] s0[j].0@ == k;
                lemma_lookup_at(s0, j);
                assert(s0[j].1.wf());
            }
        }
        r
    }

    /// A copy of the item under `id`, or an empty item.
    pub fn item_or_empty(&self, id: &str) -> (r: Item)
        requires
            self.wf(),
        ensures
            r.wf(),
            r@ == self@.item_or_empty(id@),
    {
        match self.get(id) {
            Some(it) => it.duplicate(),
            None => Item::empty(),
        }
    }

    /// Stores `value` for `env` on the item under `id`, creating the item if
    /// needed.
    pub fn set_value(&mut self, id: &str, env: &str, value: String)
        requires
            old(self).wf(),
        ensures
            final(self).wf(),
            final(self)@ == old(self)@.with_items(
                old(self)@.items.insert(id@, old(self)@.item_or_empty(id@).set(env@, value@)),
            ),
            final(self).meta == old(self).meta,
    {
        let mut item = self.item_or_empty(id);
        item.set_value(env, value);
        self.put(id, item);
    }

    /// A copy of the whole store.
    pub fn duplicate(&self) -> (r: Store)
        requires
            self.wf(),
        ensures
            r.wf(),
            r@ == self@,
            r.items@.len() == self.items@.len(),
            forall|i: int| 0 <= i < r.items@.len() ==> (#[trigger] r.items@[i]).0@ == self.items@[i].0@
                && r.items@[i].1@ == self.items@[i].1@,
    {
        let mut items: Vec<(String, Item)> = Vec::new();
        let mut i: usize = 0;
        while i < self.items.len()
            invariant
                self.wf(),
                i <= self.items@.len(),
                items@.len() == i,
                forall|j: int| 0 <= j < i ==> (#[trigger] items@[j]).0 == self.items@[j].0
                    && items@[j].1.values@ == self.items@[j].1.values@ && items@[j].1@
                    == self.items@[j].1@,
            decreases self.items.len() - i,
        {
            let (k, it) = &self.items[i];
            items.push((k.clone(), it.duplicate()));
            i = i + 1;
        }
        let r = Store {
            meta: StoreMeta { default_environments: clone_strings(&self.meta.default_environments) },
            items,
        };
        proof {
            assert forall|a: int, b: int| 0 <= a < b < r.items@.len() implies crate::text::seq_lt(
                #[trigger] r.items@[a].0@,
                #[trigger] r.items@[b].0@,
            ) by {
                assert(self.items@[a].0 == r.items@[a].0);
                assert(self.items@[b].0 == r.items@[b].0);
            }
            assert forall|k: int| 0 <= k < r.items@.len() implies (#[trigger] r.items@[k]).1.wf() by {
                assert(self.items@[k].1.wf());
            }
            assert forall|key: Seq<char>| #[trigger] has_key(r.items@, key) == has_key(self.items@, key) by {
                if has_key(r.items@, key) {
                    let j = choose|j: int| 0 <= j < r.items@.len() && #[trigger] r.items@[j].0@ == key;
                    assert(self.items@[j].0@ == key);
                }
                if has_key(self.items@, key) {
                    let j = choose|j: int| 0 <= j < self.items@.len() && #[trigger] self.items@[j].0@ == key;
                    assert(r.items@[j].0@ == key);
                }
            }
            assert forall|key: Seq<char>| has_key(r.items@, key) implies #[trigger] lookup(r.items@, key)->0@
                == lookup(self.items@, key)->0@ by {
                let j = choose|j: int| 0 <= j < r.items@.len() && #[trigger] r.items@[j].0@ == key;
                lemma_lookup_at(r.items@, j);
                lemma_lookup_at(self.items@, j);
            }
            assert(view_map(r.items@) =~= view_map(self.items@));
        }
        r
    }
}

/// The first encryption level declared by any of the values, in environment order.
pub open spec fn first_value_level(values: Seq<(String, String)>) -> Option<SensitivityLevel>
    decreases values.len(),
{
    if values.len() == 0 {
        None
    } else {
        match spec_parse_sensitivity(values[0].1@) {
            Some(l) => Some(l),
            None => first_value_level(values.drop_first()),
        }
    }
}

/// The first encryption level declared by any of the values.
pub fn first_value_level_exec(values: &Vec<(String, String)>) -> (r: Option<SensitivityLevel>)
    ensures
        r == first_value_level(values@),
{
    let mut i: usize = 0;
    assert(values@.skip(0) =~= values@);
    while i < values.len()
        invariant
            i <= values@.len(),
            first_value_level(values@) == first_value_level(values@.skip(i as int)),
        decreases values.len() - i,
    {
        let ghost rest = values@.skip(i as int);
        assert(rest[0] == values@[i as int]);
        match parse_sensitivity(values[i].1.as_str()) {
            Some(l) => {
                return Some(l);
            },
            None => {},
        }
        assert(rest.drop_first() =~= values@.skip(i + 1));
        i = i + 1;
    }
    None
}

/// The level an item calls for: its declared sensitivity, else the level of
/// its first encrypted value.
pub open spec fn item_level(item: Item) -> Option<SensitivityLevel> {
    match item.sensitivity {
        Some(s) => match spec_level_of(s) {
            Some(l) => Some(l),
            None => first_value_level(item.values@),
        },
        None => first_value_level(item.values@),
    }
}

/// The level the stored item under `id` calls for, if any.
pub open spec fn spec_infer_level(items: Seq<(String, Item)>, id: Seq<char>) -> Option<SensitivityLevel> {
    match lookup(items, id) {
        Some(item) => item_level(item),
        None => None,
    }
}

/// The level an item calls for: its declared sensitivity, else the level of
/// its first encrypted value.
pub fn item_level_exec(item: &Item) -> (r: Option<SensitivityLevel>)
    ensures
        r == item_level(*item),
{
    let declared = match &item.sensitivity {
        Some(s) => s.to_sensitivity_level(),
        None => None,
    };
    match declared {
        Some(l) => Some(l),
        None => first_value_level_exec(&item.values),
    }
}

/// Infer the encryption level for item `id` from its catalog sensitivity, or
/// from its existing encrypted values.
pub fn infer_sensitivity_level(store: &Store, id: &str) -> (r: Option<SensitivityLevel>)
    requires
        store.wf(),
    ensures
        r == spec_infer_level(store.items@, id@),
{
    match find_index(&store.items, id) {
        Some(i) => {
            proof {
                lemma_lookup_at(store.items@, i as int);
            }
            item_level_exec(&store.items[i].1)
        },
        None => None,
    }
}

/// The level that explicit flags ask for (`secret` wins over `sensitive`).
pub open spec fn spec_level_from_flags(sensitive: bool, secret: bool) -> Option<SensitivityLevel> {
    if secret {
        Some(SensitivityLevel::Secret)
    } else if sensitive {
        Some(SensitivityLevel::Sensitive)
    } else {
        None
    }
}

/// The level that explicit flags ask for (`secret` wins over `sensitive`).
pub fn sensitivity_level_from_flags(sensitive: bool, secret: bool) -> (r: Option<SensitivityLevel>)
    ensures
        r == spec_level_from_flags(sensitive, secret),
{
    if secret {
        Some(SensitivityLevel::Secret)
    } else if sensitive {
        Some(SensitivityLevel::Sensitive)
    } else {
        None
    }
}

} // verus!
