//! Batches of items returned by a provider, with pagination metadata.

use vstd::prelude::*;

verus! {

/// The items of `items` whose flag in `keep` is set, in the order they come.
pub open spec fn select<T>(items: Seq<T>, keep: Seq<bool>) -> Seq<T>
    decreases items.len(),
{
    if items.len() == 0 {
        Seq::empty()
    } else {
        let rest = select(items.drop_last(), keep.take(items.len() - 1));
        if keep[items.len() - 1] {
            rest.push(items.last())
        } else {
            rest
        }
    }
}

/// Filtering never adds items: what is kept is at most what there was.
pub proof fn lemma_select_no_longer<T>(items: Seq<T>, keep: Seq<bool>)
    requires
        keep.len() == items.len(),
    ensures
        select(items, keep).len() <= items.len(),
    decreases items.len(),
{
    if items.len() > 0 {
        lemma_select_no_longer(items.drop_last(), keep.take(items.len() - 1));
    }
}

/// Keeping every item keeps the items as they are.
pub proof fn lemma_select_all<T>(items: Seq<T>, keep: Seq<bool>)
    requires
        keep.len() == items.len(),
        forall|i: int| 0 <= i < keep.len() ==> keep[i],
    ensures
        select(items, keep) == items,
    decreases items.len(),
{
    if items.len() > 0 {
        lemma_select_all(items.drop_last(), keep.take(items.len() - 1));
        assert(items.drop_last().push(items.last()) =~= items);
    } else {
        assert(items =~= Seq::<T>::empty());
    }
}

/// Keeping no item leaves nothing.
pub proof fn lemma_select_none<T>(items: Seq<T>, keep: Seq<bool>)
    requires
        keep.len() == items.len(),
        forall|i: int| 0 <= i < keep.len() ==> !keep[i],
    ensures
        select(items, keep) == Seq::<T>::empty(),
    decreases items.len(),
{
    if items.len() > 0 {
        lemma_select_none(items.drop_last(), keep.take(items.len() - 1));
    }
}

/// A page of items from a provider, with metadata about the pagination state.
#[derive(Debug, Clone)]
pub struct ProviderBatch<T> {
    /// Items in this batch.
    pub items: Vec<T>,
    /// Total number of items matching the query, across all pages (may be an
    /// estimate, or 0, where a provider does not report it).
    pub total_count: i64,
    /// Whether more pages are available.
    pub has_next_page: bool,
    /// Cursor for fetching the next page, where the provider uses cursors.
    pub next_page_token: Option<String>,
}

impl<T> ProviderBatch<T> {
    /// A batch holding `items`, counted, with no further page.
    pub fn new(items: Vec<T>) -> (r: Self)
        ensures
            r.items@ == items@,
            r.total_count == items.len() as i64,
            !r.has_next_page,
            r.next_page_token is None,
    {
        let count = items.len() as i64;
        ProviderBatch { items, total_count: count, has_next_page: false, next_page_token: None }
    }

    /// A batch of `items` with the given pagination metadata.
    pub fn with_pagination(
        items: Vec<T>,
        total_count: i64,
        has_next_page: bool,
        next_page_token: Option<String>,
    ) -> (r: Self)
        ensures
            r.items@ == items@,
            r.total_count == total_count,
            r.has_next_page == has_next_page,
            r.next_page_token == next_page_token,
    {
        ProviderBatch { items, total_count, has_next_page, next_page_token }
    }

    /// A batch with no items, a total count of 0 and no further page.
    pub fn empty() -> (r: Self)
        ensures
            r.items@ == Seq::<T>::empty(),
            r.total_count == 0,
            !r.has_next_page,
            r.next_page_token is None,
    {
        ProviderBatch { items: Vec::new(), total_count: 0, has_next_page: false, next_page_token: None }
    }

    /// The number of items in this batch.
    pub fn len(&self) -> (r: usize)
        ensures
            r == self.items.len(),
    {
        self.items.len()
    }

    /// Whether this batch holds no items.
    pub fn is_empty(&self) -> (r: bool)
        ensures
            r == (self.items.len() == 0),
    {
        self.items.len() == 0
    }

    /// Whether this is the last page.
    pub fn is_last_page(&self) -> (r: bool)
        ensures
            r == !self.has_next_page,
    {
        !self.has_next_page
    }

    /// The items of this batch.
    pub fn items(&self) -> (r: &[T])
        ensures
            r@ == self.items@,
    {
        self.items.as_slice()
    }

    /// Consume the batch and return its items.
    pub fn into_items(self) -> (r: Vec<T>)
        ensures
            r@ == self.items@,
    {
        self.items
    }

    /// Apply `f` to every item, in order; the metadata is kept as it is.
    pub fn map<U, F>(self, f: F) -> (r: ProviderBatch<U>)
        where
            F: Fn(T) -> U,
        requires
            forall|i: int| 0 <= i < self.items.len() ==> call_requires(f, (self.items[i],)),
        ensures
            r.items.len() == self.items.len(),
            forall|i: int|
                0 <= i < self.items.len() ==> call_ensures(f, (self.items[i],), #[trigger] r.items[i]),
            r.total_count == self.total_count,
            r.has_next_page == self.has_next_page,
            r.next_page_token == self.next_page_token,
    {
        let ghost old_items = self.items@;
        let mut mapped: Vec<U> = Vec::new();
        for item in it: self.items.into_iter()
            invariant
                it.seq() == old_items,
                forall|i: int| 0 <= i < old_items.len() ==> call_requires(f, (old_items[i],)),
                mapped.len() == it.index(),
                forall|i: int|
                    0 <= i < it.index() ==> call_ensures(f, (old_items[i],), #[trigger] mapped@[i]),
        {
            proof {
                assert(item == old_items[it.index() as int]);
            }
            let u = f(item);
            mapped.push(u);
        }
        ProviderBatch {
            items: mapped,
            total_count: self.total_count,
            has_next_page: self.has_next_page,
            next_page_token: self.next_page_token,
        }
    }

    /// Keep the items for which `f` answers `true`; the total count becomes
    /// the number of items kept, the pagination state is unchanged.
    pub fn filter<F>(self, f: F) -> (r: ProviderBatch<T>)
        where
            F: Fn(&T) -> bool,
        requires
            forall|i: int| 0 <= i < self.items.len() ==> call_requires(f, (&self.items[i],)),
        ensures
            exists|keep: Seq<bool>|
                {
                    &&& keep.len() == self.items.len()
                    &&& forall|i: int|
                        0 <= i < keep.len() ==> call_ensures(f, (&self.items[i],), #[trigger] keep[i])
                    &&& r.items@ == select(self.items@, keep)
                },
            r.total_count == r.items.len() as i64,
            r.has_next_page == self.has_next_page,
            r.next_page_token == self.next_page_token,
    {
        let ghost old_items = self.items@;
        let mut kept: Vec<T> = Vec::new();
        let mut keep: Ghost<Seq<bool>> = Ghost(Seq::empty());
        let mut idx: usize = 0;
        let n = self.items.len();
        for item in it: self.items.into_iter()
            invariant
                it.index() <= old_items.len(),
                it.seq() == old_items,
                n == old_items.len(),
                keep@.len() == it.index(),
                forall|i: int| 0 <= i < it.index() ==> call_requires(f, (&old_items[i],)),
                forall|i: int| 0 <= i < old_items.len() ==> call_requires(f, (&old_items[i],)),
                forall|i: int|
                    0 <= i < keep@.len() ==> call_ensures(f, (&old_items[i],), #[trigger] keep@[i]),
                kept@ == select(old_items.take(it.index() as int), keep@),
        {
            let b = f(&item);
            proof {
                let k = it.index() as int;
                assert(item == old_items[k]);
                assert(old_items.take(k + 1).drop_last() == old_items.take(k));
                assert(keep@.push(b).take(k) =~= keep@);
                keep@ = keep@.push(b);
            }
            if b {
                kept.push(item);
            }
        }
        proof {
            assert(old_items.take(old_items.len() as int) == old_items);
        }
        let count = kept.len() as i64;
        ProviderBatch {
            items: kept,
            total_count: count,
            has_next_page: self.has_next_page,
            next_page_token: self.next_page_token,
        }
    }
}

impl<T> Default for ProviderBatch<T> {
    /// The empty batch.
    fn default() -> (r: Self)
        ensures
            r.items@ == Seq::<T>::empty(),
            r.total_count == 0,
            !r.has_next_page,
            r.next_page_token is None,
    {
        Self::empty()
    }
}

} // verus!
