//! A registry that holds providers under their identifiers.

use std::sync::Arc;
use vstd::prelude::*;
use crate::text::{compare_text, lemma_compare_equal, lemma_less_transitive, text_less};

verus! {

/// Every text of `s` sorts strictly before every later one.
pub open spec fn strictly_sorted(s: Seq<Seq<char>>) -> bool {
    forall|i: int, j: int| 0 <= i < j < s.len() ==> text_less(#[trigger] s[i], #[trigger] s[j])
}

/// `s` lists the texts of `dom`, each once, in increasing order.
pub open spec fn sorted_listing(s: Seq<Seq<char>>, dom: Set<Seq<char>>) -> bool {
    &&& strictly_sorted(s)
    &&& forall|k: Seq<char>| dom.contains(k) <==> s.contains(k)
}

/// What a lookup of `key` in `m` answers.
pub open spec fn lookup<V>(m: Map<Seq<char>, V>, key: Seq<char>) -> Option<V> {
    if m.dom().contains(key) {
        Some(m[key])
    } else {
        None
    }
}

/// Texts in strict order are distinct.
proof fn lemma_less_not_equal(a: Seq<char>, b: Seq<char>)
    requires
        text_less(a, b),
    ensures
        a != b,
{
    lemma_compare_equal(a, b);
}

/// In a strictly sorted sequence each text sits at one index only.
proof fn lemma_sorted_index(s: Seq<Seq<char>>, i: int)
    requires
        strictly_sorted(s),
        0 <= i < s.len(),
    ensures
        s.contains(s[i]),
        s.index_of(s[i]) == i,
{
    assert(s[i] == s[i]);
    let j = s.index_of(s[i]);
    if j < i {
        lemma_less_not_equal(s[j], s[i]);
    } else if j > i {
        lemma_less_not_equal(s[i], s[j]);
    }
}

/// The identifiers of a sequence of entries.
pub open spec fn keys_of<P: ?Sized>(entries: Seq<(String, Arc<P>)>) -> Seq<Seq<char>> {
    entries.map_values(|e: (String, Arc<P>)| e.0@)
}

/// A sequence of entries read as a map from identifier to provider.
pub open spec fn map_of<P: ?Sized>(entries: Seq<(String, Arc<P>)>) -> Map<Seq<char>, Arc<P>> {
    Map::new(
        |k: Seq<char>| keys_of(entries).contains(k),
        |k: Seq<char>| entries[keys_of(entries).index_of(k)].1,
    )
}

/// Reading entry `i` of a sorted sequence of entries.
proof fn lemma_map_of_at<P: ?Sized>(entries: Seq<(String, Arc<P>)>, i: int)
    requires
        strictly_sorted(keys_of(entries)),
        0 <= i < entries.len(),
    ensures
        keys_of(entries)[i] == entries[i].0@,
        map_of(entries).dom().contains(entries[i].0@),
        map_of(entries)[entries[i].0@] == entries[i].1,
{
    lemma_sorted_index(keys_of(entries), i);
}

/// Inserting an entry at its place in the order keeps the order and adds
/// the entry to the map.
proof fn lemma_map_of_insert<P: ?Sized>(
    entries: Seq<(String, Arc<P>)>,
    pos: int,
    entry: (String, Arc<P>),
)
    requires
        strictly_sorted(keys_of(entries)),
        0 <= pos <= entries.len(),
        forall|i: int| 0 <= i < pos ==> text_less(#[trigger] keys_of(entries)[i], entry.0@),
        forall|i: int|
            pos <= i < entries.len() ==> text_less(entry.0@, #[trigger] keys_of(entries)[i]),
    ensures
        strictly_sorted(keys_of(entries.insert(pos, entry))),
        map_of(entries.insert(pos, entry)) == map_of(entries).insert(entry.0@, entry.1),
{
    let e2 = entries.insert(pos, entry);
    let k1 = keys_of(entries);
    let k2 = keys_of(e2);
    assert(k2 =~= k1.insert(pos, entry.0@));
    assert forall|i: int, j: int| 0 <= i < j < k2.len() implies text_less(
        #[trigger] k2[i],
        #[trigger] k2[j],
    ) by {
        if j < pos {
        } else if j == pos {
        } else if i < pos {
            lemma_less_transitive(k1[i], entry.0@, k1[j - 1]);
        } else if i == pos {
        } else {
        }
    }
    let m1 = map_of(entries);
    let m2 = map_of(e2);
    let m3 = m1.insert(entry.0@, entry.1);
    assert forall|k: Seq<char>| #[trigger] m2.dom().contains(k) <==> m3.dom().contains(k) by {
        if m2.dom().contains(k) {
            let i = choose|i: int| 0 <= i < k2.len() && k2[i] == k;
            if i < pos {
                assert(k1[i] == k);
            } else if i > pos {
                assert(k1[i - 1] == k);
            }
        }
        if m1.dom().contains(k) {
            let i = choose|i: int| 0 <= i < k1.len() && k1[i] == k;
            if i < pos {
                assert(k2[i] == k);
            } else {
                assert(k2[i + 1] == k);
            }
        }
        if k == entry.0@ {
            assert(k2[pos] == k);
        }
    }
    assert forall|k: Seq<char>| #[trigger] m2.dom().contains(k) implies m2[k] == m3[k] by {
        if k == entry.0@ {
            lemma_map_of_at(e2, pos);
        } else {
            let i = choose|i: int| 0 <= i < k1.len() && k1[i] == k;
            lemma_map_of_at(entries, i);
            if i < pos {
                lemma_map_of_at(e2, i);
            } else {
                lemma_map_of_at(e2, i + 1);
            }
        }
    }
    assert(m2 =~= m3);
}

/// Replacing the entry that holds an identifier keeps the order and
/// rebinds the identifier in the map.
proof fn lemma_map_of_replace<P: ?Sized>(
    entries: Seq<(String, Arc<P>)>,
    pos: int,
    entry: (String, Arc<P>),
)
    requires
        strictly_sorted(keys_of(entries)),
        0 <= pos < entries.len(),
        keys_of(entries)[pos] == entry.0@,
    ensures
        strictly_sorted(keys_of(entries.update(pos, entry))),
        map_of(entries.update(pos, entry)) == map_of(entries).insert(entry.0@, entry.1),
{
    let e2 = entries.update(pos, entry);
    assert(keys_of(e2) =~= keys_of(entries));
    let m2 = map_of(e2);
    let m3 = map_of(entries).insert(entry.0@, entry.1);
    assert(m2.dom() =~= m3.dom()) by {
        assert(keys_of(entries)[pos] == entry.0@);
    }
    assert forall|k: Seq<char>| #[trigger] m2.dom().contains(k) implies m2[k] == m3[k] by {
        let i = choose|i: int| 0 <= i < keys_of(e2).len() && keys_of(e2)[i] == k;
        lemma_map_of_at(e2, i);
        if i != pos {
            lemma_map_of_at(entries, i);
            if i < pos {
                lemma_less_not_equal(keys_of(entries)[i], keys_of(entries)[pos]);
            } else {
                lemma_less_not_equal(keys_of(entries)[pos], keys_of(entries)[i]);
            }
        }
    }
    assert(m2 =~= m3);
}

/// Removing the entry that holds an identifier keeps the order and removes
/// the identifier from the map.
proof fn lemma_map_of_remove<P: ?Sized>(entries: Seq<(String, Arc<P>)>, pos: int)
    requires
        strictly_sorted(keys_of(entries)),
        0 <= pos < entries.len(),
    ensures
        strictly_sorted(keys_of(entries.remove(pos))),
        map_of(entries.remove(pos)) == map_of(entries).remove(entries[pos].0@),
{
    let e2 = entries.remove(pos);
    let k1 = keys_of(entries);
    let k2 = keys_of(e2);
    let id = entries[pos].0@;
    assert(k2 =~= k1.remove(pos));
    assert forall|i: int, j: int| 0 <= i < j < k2.len() implies text_less(
        #[trigger] k2[i],
        #[trigger] k2[j],
    ) by {
        if j < pos {
        } else if i < pos {
            assert(k2[j] == k1[j + 1]);
        } else {
            assert(k2[i] == k1[i + 1]);
            assert(k2[j] == k1[j + 1]);
        }
    }
    let m2 = map_of(e2);
    let m3 = map_of(entries).remove(id);
    assert forall|k: Seq<char>| #[trigger] m2.dom().contains(k) <==> m3.dom().contains(k) by {
        if m2.dom().contains(k) {
            let i = choose|i: int| 0 <= i < k2.len() && k2[i] == k;
            if i < pos {
                assert(k1[i] == k);
                lemma_less_not_equal(k1[i], k1[pos]);
            } else {
                assert(k1[i + 1] == k);
                lemma_less_not_equal(k1[pos], k1[i + 1]);
            }
        }
        if m3.dom().contains(k) {
            let i = choose|i: int| 0 <= i < k1.len() && k1[i] == k;
            assert(i != pos);
            if i < pos {
                assert(k2[i] == k);
            } else {
                assert(k2[i - 1] == k);
            }
        }
    }
    assert forall|k: Seq<char>| #[trigger] m2.dom().contains(k) implies m2[k] == m3[k] by {
        let i = choose|i: int| 0 <= i < k2.len() && k2[i] == k;
        lemma_map_of_at(e2, i);
        if i < pos {
            lemma_map_of_at(entries, i);
        } else {
            lemma_map_of_at(entries, i + 1);
        }
    }
    assert(m2 =~= m3);
}

/// `Arc::clone` from std: it makes another pointer to the same
/// allocation, so the clone points to the same value as the pointer it was made from.
#[verifier::external_body]
fn share<P: ?Sized>(provider: &Arc<P>) -> (r: Arc<P>)
    ensures
        r == *provider,
{
    Arc::clone(provider)
}

/// Registry of provider implementations, each under its identifier,
/// so that a provider can be selected at run time.
pub struct ProviderRegistry<P: ?Sized> {
    entries: Vec<(String, Arc<P>)>,
}

impl<P: ?Sized> ProviderRegistry<P> {
    /// The identifiers held, in the order of the entries.
    pub closed spec fn keys(&self) -> Seq<Seq<char>> {
        keys_of(self.entries@)
    }

    /// Entries are kept sorted by identifier, each identifier once.
    #[verifier::type_invariant]
    closed spec fn sorted_by_id(&self) -> bool {
        strictly_sorted(self.keys())
    }

    /// The provider registered under the identifier at index `i`.
    proof fn lemma_entry(&self, i: int)
        requires
            strictly_sorted(self.keys()),
            0 <= i < self.entries.len(),
        ensures
            self@.dom().contains(self.keys()[i]),
            self@[self.keys()[i]] == self.entries@[i].1,
            self.keys()[i] == self.entries@[i].0@,
    {
        lemma_sorted_index(self.keys(), i);
    }

    /// The identifiers and the size of the registry as a map.
    proof fn lemma_domain(&self)
        requires
            strictly_sorted(self.keys()),
        ensures
            self@.dom() == self.keys().to_set(),
            self@.dom().finite(),
            self@.len() == self.entries.len(),
    {
        assert(self@.dom() =~= self.keys().to_set());
        assert(self.keys().no_duplicates()) by {
            assert forall|i: int, j: int|
                0 <= i < self.keys().len() && 0 <= j < self.keys().len() && i != j implies
                self.keys()[i] != self.keys()[j] by {
                if i < j {
                    lemma_less_not_equal(self.keys()[i], self.keys()[j]);
                } else {
                    lemma_less_not_equal(self.keys()[j], self.keys()[i]);
                }
            }
        }
        self.keys().unique_seq_to_set();
        vstd::seq_lib::seq_to_set_is_finite(self.keys());
    }

    /// Register `provider` under `provider_id`; a provider registered
    /// under the same identifier before is replaced.
    pub fn register(&mut self, provider_id: &str, provider: Arc<P>)
        ensures
            final(self)@ == old(self)@.insert(provider_id@, provider),
    {
        proof {
            use_type_invariant(&*self);
        }
        let (pos, found) = self.locate(provider_id);
        let mut entries: Vec<(String, Arc<P>)> = Vec::new();
        std::mem::swap(&mut entries, &mut self.entries);
        let ghost before = entries@;
        let entry = (String::from_str(provider_id), provider);
        if found {
            entries.set(pos, entry);
            proof {
                lemma_map_of_replace(before, pos as int, entry);
            }
        } else {
            entries.insert(pos, entry);
            proof {
                lemma_map_of_insert(before, pos as int, entry);
            }
        }
        self.entries = entries;
    }

    /// Remove the provider registered under `provider_id`, returning it.
    pub fn remove(&mut self, provider_id: &str) -> (r: Option<Arc<P>>)
        ensures
            r == lookup(old(self)@, provider_id@),
            final(self)@ == old(self)@.remove(provider_id@),
    {
        proof {
            use_type_invariant(&*self);
        }
        let (pos, found) = self.locate(provider_id);
        if found {
            let mut entries: Vec<(String, Arc<P>)> = Vec::new();
            std::mem::swap(&mut entries, &mut self.entries);
            let ghost before = entries@;
            proof {
                lemma_map_of_at(before, pos as int);
                lemma_map_of_remove(before, pos as int);
            }
            let (_, provider) = entries.remove(pos);
            self.entries = entries;
            Some(provider)
        } else {
            proof {
                assert(self@.remove(provider_id@) =~= self@);
            }
            None
        }
    }

    /// The identifiers of all registered providers, sorted.
    pub fn provider_ids(&self) -> (r: Vec<String>)
        ensures
            r@.map_values(|s: String| s@) == self.keys(),
            sorted_listing(self.keys(), self@.dom()),
    {
        proof {
            use_type_invariant(self);
            self.lemma_domain();
        }
        let mut ids: Vec<String> = Vec::new();
        let n = self.entries.len();
        for i in 0..n
            invariant
                n == self.entries.len(),
                ids.len() == i,
                forall|j: int| 0 <= j < i ==> #[trigger] ids@[j]@ == self.keys()[j],
        {
            ids.push(self.entries[i].0.clone());
        }
        assert(ids@.map_values(|s: String| s@) =~= self.keys());
        ids
    }

    /// All registered providers, in the order of their identifiers.
    pub fn all_providers(&self) -> (r: Vec<Arc<P>>)
        ensures
            r@ == self.keys().map_values(|k: Seq<char>| self@[k]),
            sorted_listing(self.keys(), self@.dom()),
    {
        proof {
            use_type_invariant(self);
            self.lemma_domain();
        }
        let mut all: Vec<Arc<P>> = Vec::new();
        let n = self.entries.len();
        for i in 0..n
            invariant
                n == self.entries.len(),
                strictly_sorted(self.keys()),
                all.len() == i,
                forall|j: int| 0 <= j < i ==> #[trigger] all@[j] == self@[self.keys()[j]],
        {
            proof {
                self.lemma_entry(i as int);
            }
            all.push(share(&self.entries[i].1));
        }
        assert(all@ =~= self.keys().map_values(|k: Seq<char>| self@[k]));
        all
    }

    /// Create an empty registry.
    pub fn new() -> (r: Self)
        ensures
            r@ == Map::<Seq<char>, Arc<P>>::empty(),
    {
        let r = ProviderRegistry { entries: Vec::new() };
        assert(r@ =~= Map::<Seq<char>, Arc<P>>::empty());
        r
    }

    /// Whether a provider is registered under `provider_id`.
    pub fn contains(&self, provider_id: &str) -> (r: bool)
        ensures
            r == self@.dom().contains(provider_id@),
    {
        proof {
            use_type_invariant(self);
        }
        let (_, found) = self.locate(provider_id);
        found
    }

    /// The provider registered under `provider_id`, if any.
    pub fn get(&self, provider_id: &str) -> (r: Option<Arc<P>>)
        ensures
            r == lookup(self@, provider_id@),
    {
        proof {
            use_type_invariant(self);
        }
        let (pos, found) = self.locate(provider_id);
        if found {
            proof {
                self.lemma_entry(pos as int);
            }
            Some(share(&self.entries[pos].1))
        } else {
            None
        }
    }

    /// The number of registered providers.
    pub fn len(&self) -> (r: usize)
        ensures
            r == self@.len(),
            self@.dom().finite(),
    {
        proof {
            use_type_invariant(self);
            self.lemma_domain();
        }
        self.entries.len()
    }

    /// Whether no provider is registered.
    pub fn is_empty(&self) -> (r: bool)
        ensures
            r == (self@.len() == 0),
            self@.dom().finite(),
    {
        proof {
            use_type_invariant(self);
            self.lemma_domain();
        }
        self.entries.len() == 0
    }

    /// Find where `id` stands or would stand among the sorted entries.
    fn locate(&self, id: &str) -> (r: (usize, bool))
        requires
            strictly_sorted(self.keys()),
        ensures
            r.0 <= self.entries.len(),
            r.1 ==> r.0 < self.entries.len() && self.keys()[r.0 as int] == id@,
            !r.1 ==> !self.keys().contains(id@),
            forall|i: int| 0 <= i < r.0 ==> text_less(#[trigger] self.keys()[i], id@),
            !r.1 ==> forall|i: int|
                r.0 <= i < self.entries.len() ==> text_less(id@, #[trigger] self.keys()[i]),
    {
        let n = self.entries.len();
        let mut i: usize = 0;
        while i < n
            invariant
                n == self.entries.len(),
                i <= n,
                strictly_sorted(self.keys()),
                forall|j: int| 0 <= j < i ==> text_less(#[trigger] self.keys()[j], id@),
            decreases n - i,
        {
            let c = compare_text(self.entries[i].0.as_str(), id);
            assert(self.keys()[i as int] == self.entries[i as int].0@);
            if c == 0 {
                proof {
                    lemma_compare_equal(self.keys()[i as int], id@);
                }
                return (i, true);
            } else if c > 0 {
                proof {
                    crate::text::lemma_compare_antisymmetric(self.keys()[i as int], id@);
                    assert forall|j: int| i <= j < n implies text_less(id@, #[trigger] self.keys()[j]) by {
                        if j > i {
                            lemma_less_transitive(id@, self.keys()[i as int], self.keys()[j]);
                        }
                    }
                    assert forall|j: int| 0 <= j < n implies #[trigger] self.keys()[j] != id@ by {
                        if j < i {
                            lemma_less_not_equal(self.keys()[j], id@);
                        } else {
                            lemma_less_not_equal(id@, self.keys()[j]);
                        }
                    }
                }
                return (i, false);
            }
            i = i + 1;
        }
        proof {
            assert forall|j: int| 0 <= j < n implies #[trigger] self.keys()[j] != id@ by {
                lemma_less_not_equal(self.keys()[j], id@);
            }
        }
        (n, false)
    }
}

impl<P: ?Sized> View for ProviderRegistry<P> {
    type V = Map<Seq<char>, Arc<P>>;

    /// Each registered identifier, mapped to its provider.
    closed spec fn view(&self) -> Map<Seq<char>, Arc<P>> {
        map_of(self.entries@)
    }
}

/// After registering `provider` under `id`, looking `id` up gives
/// `provider`.
pub proof fn law_get_after_register<P: ?Sized>(
    before: ProviderRegistry<P>,
    after: ProviderRegistry<P>,
    id: Seq<char>,
    provider: Arc<P>,
)
    requires
        after@ == before@.insert(id, provider),
    ensures
        lookup(after@, id) == Some(provider),
        after@.dom().contains(id),
{
}

/// Registering under one identifier leaves the lookup of every other
/// identifier unchanged.
pub proof fn law_register_keeps_others<P: ?Sized>(
    before: ProviderRegistry<P>,
    after: ProviderRegistry<P>,
    id: Seq<char>,
    provider: Arc<P>,
    other: Seq<char>,
)
    requires
        after@ == before@.insert(id, provider),
        other != id,
    ensures
        lookup(after@, other) == lookup(before@, other),
{
}

/// Registering under an identifier that is taken replaces the provider and
/// keeps the count; under a new identifier it adds one.
pub proof fn law_register_count<P: ?Sized>(
    before: ProviderRegistry<P>,
    after: ProviderRegistry<P>,
    id: Seq<char>,
    provider: Arc<P>,
)
    requires
        before@.dom().finite(),
        after@ == before@.insert(id, provider),
    ensures
        after@.len() == if before@.dom().contains(id) {
            before@.len()
        } else {
            before@.len() + 1
        },
{
}

/// After removing `id`, looking it up finds nothing, every other
/// identifier is looked up as before, and the count drops by one exactly
/// when `id` was registered.
pub proof fn law_remove<P: ?Sized>(
    before: ProviderRegistry<P>,
    after: ProviderRegistry<P>,
    id: Seq<char>,
    other: Seq<char>,
)
    requires
        before@.dom().finite(),
        after@ == before@.remove(id),
    ensures
        lookup(after@, id) is None,
        other != id ==> lookup(after@, other) == lookup(before@, other),
        after@.len() == if before@.dom().contains(id) {
            before@.len() - 1
        } else {
            before@.len() as int
        },
{
}

/// Removing what was just registered under a fresh identifier restores the
/// registry as it was.
pub proof fn law_remove_undoes_register<P: ?Sized>(
    before: ProviderRegistry<P>,
    middle: ProviderRegistry<P>,
    after: ProviderRegistry<P>,
    id: Seq<char>,
    provider: Arc<P>,
)
    requires
        !before@.dom().contains(id),
        middle@ == before@.insert(id, provider),
        after@ == middle@.remove(id),
    ensures
        after@ == before@,
{
    assert(after@ =~= before@);
}

/// An identifier is registered exactly when looking it up finds a provider.
pub proof fn law_contains_iff_found<P: ?Sized>(registry: ProviderRegistry<P>, id: Seq<char>)
    ensures
        registry@.dom().contains(id) == (lookup(registry@, id) is Some),
{
}

impl<P: ?Sized> Default for ProviderRegistry<P> {
    /// An empty registry.
    fn default() -> (r: Self)
        ensures
            r@ == Map::<Seq<char>, Arc<P>>::empty(),
    {
        Self::new()
    }
}

} // verus!
