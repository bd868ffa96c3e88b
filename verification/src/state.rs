//! Searches in progress, the arithmetic of paging, and the store that keeps
//! the searches.

use vstd::prelude::*;
use lru::LruCache;
use crate::cache::{
    cache_cap, cache_entries, cache_get, cache_ids, cache_len, cache_limit, cache_new, cache_pop,
    cache_put, distinct_ids, holds, ids_of, lemma_position, lemma_put, lemma_remove, lemma_touch,
    lookup, put_spec, remove_spec, touch_spec,
};
use crate::constants::PER_PAGE;

verus! {

/// One paginated search in progress.
#[derive(Debug, PartialEq, Eq)]
pub struct Search {
    /// Identifies the search for as long as it is stored.
    pub id: usize,
    /// The text searched for.
    pub keyword: String,
    /// How many hits come before the page that is shown.
    pub offset: usize,
}

impl Clone for Search {
    fn clone(&self) -> (copy: Self)
        ensures
            copy == *self,
    {
        Search { id: self.id, keyword: self.keyword.clone(), offset: self.offset }
    }
}

/// How a stored search is taken up again.
#[derive(Debug, Clone, Copy, PartialEq, Eq)]
pub enum SearchMode {
    /// Show the page before the current one.
    PrevPage,
    /// Show the current page again.
    Direct,
    /// Show the page after the current one.
    NextPage,
}

impl Search {
    /// The offset is a whole number of pages.
    pub open spec fn page_aligned(&self) -> bool {
        self.offset % PER_PAGE == 0
    }

    /// The same search, one page earlier.
    pub fn prev_page(self) -> (prev: Self)
        requires
            self.offset >= PER_PAGE,
        ensures
            prev.id == self.id,
            prev.keyword == self.keyword,
            prev.offset == self.offset - PER_PAGE,
            self.page_aligned() ==> prev.page_aligned(),
    {
        Search { id: self.id, keyword: self.keyword, offset: self.offset - PER_PAGE }
    }

    /// The same search, one page later.
    pub fn next_page(self) -> (next: Self)
        requires
            self.offset + PER_PAGE <= usize::MAX,
        ensures
            next.id == self.id,
            next.keyword == self.keyword,
            next.offset == self.offset + PER_PAGE,
            self.page_aligned() ==> next.page_aligned(),
    {
        Search { id: self.id, keyword: self.keyword, offset: self.offset + PER_PAGE }
    }
}

/// Why a stored search could not be taken up.
#[derive(Debug, Clone, Copy, PartialEq, Eq)]
pub enum SearchError {
    /// The search engine gave no answer.
    Backend,
    /// No search is stored under the identifier.
    NotFound,
    /// The page asked for lies before the first page, or past what an
    /// offset can hold.
    PreconditionViolation,
}

/// Whether `search` has a page in the direction of `mode`.
pub open spec fn can_resolve(search: Search, mode: SearchMode) -> bool {
    match mode {
        SearchMode::PrevPage => search.offset >= PER_PAGE,
        SearchMode::Direct => true,
        SearchMode::NextPage => search.offset + PER_PAGE <= usize::MAX,
    }
}

/// The search that `mode` leads to: the same search, its offset moved by one
/// page or left as it is.
pub open spec fn resolve_spec(search: Search, mode: SearchMode) -> Search {
    Search {
        id: search.id,
        keyword: search.keyword,
        offset: match mode {
            SearchMode::PrevPage => (search.offset - PER_PAGE) as usize,
            SearchMode::Direct => search.offset,
            SearchMode::NextPage => (search.offset + PER_PAGE) as usize,
        },
    }
}

/// Tells whether `search` has a page in the direction of `mode`.
pub fn resolvable(search: &Search, mode: SearchMode) -> (yes: bool)
    ensures
        yes == can_resolve(*search, mode),
{
    match mode {
        SearchMode::PrevPage => search.offset >= PER_PAGE,
        SearchMode::Direct => true,
        SearchMode::NextPage => search.offset <= usize::MAX - PER_PAGE,
    }
}

/// The search to show after `mode` is asked of `search`. The store is not
/// involved.
pub fn resolve(search: Search, mode: SearchMode) -> (next: Search)
    requires
        can_resolve(search, mode),
    ensures
        next == resolve_spec(search, mode),
{
    match mode {
        SearchMode::PrevPage => search.prev_page(),
        SearchMode::Direct => search,
        SearchMode::NextPage => search.next_page(),
    }
}

/// Paging moves the offset by exactly one page, and showing a page again
/// moves nothing. A search past its first page has a page before it.
pub proof fn lemma_resolve_offsets(search: Search)
    requires
        search.page_aligned(),
    ensures
        search.offset > 0 ==> can_resolve(search, SearchMode::PrevPage),
        search.offset > 0 ==> resolve_spec(search, SearchMode::PrevPage).offset == search.offset
            - PER_PAGE,
        can_resolve(search, SearchMode::NextPage) ==> resolve_spec(
            search,
            SearchMode::NextPage,
        ).offset == search.offset + PER_PAGE,
        resolve_spec(search, SearchMode::Direct) == search,
        forall|mode: SearchMode|
            can_resolve(search, mode) ==> (#[trigger] resolve_spec(search, mode)).page_aligned(),
{
}

/// The searches in progress: at most a fixed number of them, each under its
/// identifier, the one used most recently first. When room is needed the one
/// used least recently is forgotten. Identifiers are handed out in rising
/// order and never twice.
pub struct AtriState {
    count: usize,
    searches: LruCache<usize, Search>,
}

impl View for AtriState {
    type V = Seq<(usize, Search)>;

    /// The stored searches with their identifiers, the most recent first.
    closed spec fn view(&self) -> Seq<(usize, Search)> {
        cache_entries(self.searches)
    }
}

impl AtriState {
    /// The number of searches that the store holds at most.
    pub closed spec fn limit(&self) -> nat {
        cache_limit(self.searches)
    }

    /// The identifier that the next new search gets.
    pub closed spec fn counter(&self) -> usize {
        self.count
    }

    /// The store is within its limit, no identifier is stored twice, every
    /// search is stored under its own identifier, every stored identifier
    /// has been handed out, and every stored offset is a whole number of
    /// pages.
    pub open spec fn wf(&self) -> bool {
        &&& self.limit() > 0
        &&& self@.len() <= self.limit()
        &&& distinct_ids(self@)
        &&& forall|i: int|
            0 <= i < self@.len() ==> {
                &&& (#[trigger] self@[i]).0 < self.counter()
                &&& self@[i].1.id == self@[i].0
                &&& self@[i].1.page_aligned()
            }
    }

    /// An empty store for at most `capacity` searches.
    pub fn new(capacity: usize) -> (state: Self)
        requires
            capacity > 0,
        ensures
            state.wf(),
            state@ == Seq::<(usize, Search)>::empty(),
            state.limit() == capacity,
            state.counter() == 0,
    {
        AtriState { count: 0, searches: cache_new(capacity) }
    }

    /// The number of stored searches.
    pub fn len(&self) -> (len: usize)
        ensures
            len == self@.len(),
    {
        cache_len(&self.searches)
    }

    /// The number of searches that the store holds at most.
    pub fn capacity(&self) -> (capacity: usize)
        ensures
            capacity == self.limit(),
    {
        cache_cap(&self.searches)
    }

    /// The identifier that the next new search gets.
    pub fn next_id(&self) -> (id: usize)
        ensures
            id == self.counter(),
    {
        self.count
    }

    /// The identifiers of the stored searches, the most recent first.
    pub fn ids(&self) -> (ids: Vec<usize>)
        ensures
            ids@ == ids_of(self@),
    {
        cache_ids(&self.searches)
    }

    /// Begins a search for `keyword`: it gets the next identifier, starts at
    /// offset 0 and is stored as the most recent one.
    pub fn new_search(&mut self, keyword: String) -> (search: Search)
        requires
            old(self).wf(),
            old(self).counter() < usize::MAX,
        ensures
            final(self).wf(),
            search == (Search { id: old(self).counter(), keyword, offset: 0 }),
            final(self)@ == put_spec(old(self)@, old(self).limit(), search.id, search),
            final(self).counter() == old(self).counter() + 1,
            final(self).limit() == old(self).limit(),
            !holds(old(self)@, search.id),
    {
        let id = self.count;
        let search = Search { id, keyword, offset: 0 };
        proof {
            lemma_put(self@, self.limit(), id, search);
            lemma_position(self@, id);
        }
        self.count = id + 1;
        cache_put(&mut self.searches, id, search.clone());
        search
    }

    /// A copy of the search stored under `id`, which thereby becomes the most
    /// recent one.
    pub fn get_and_touch(&mut self, id: usize) -> (found: Result<Search, SearchError>)
        requires
            old(self).wf(),
        ensures
            final(self).wf(),
            found == match lookup(old(self)@, id) {
                Some(search) => Ok::<Search, SearchError>(search),
                None => Err(SearchError::NotFound),
            },
            final(self)@ == touch_spec(old(self)@, id),
            final(self).counter() == old(self).counter(),
            final(self).limit() == old(self).limit(),
    {
        proof {
            lemma_touch(self@, id);
        }
        match cache_get(&mut self.searches, id) {
            Some(search) => Ok(search.clone()),
            None => Err(SearchError::NotFound),
        }
    }

    /// Stores `search` under `id` as the most recent search, in place of what
    /// was stored there. If nothing was, the search is stored anew, and in a
    /// full store the least recent search leaves.
    pub fn put(&mut self, id: usize, search: Search)
        requires
            old(self).wf(),
            id < old(self).counter(),
            search.id == id,
            search.page_aligned(),
        ensures
            final(self).wf(),
            final(self)@ == put_spec(old(self)@, old(self).limit(), id, search),
            final(self).counter() == old(self).counter(),
            final(self).limit() == old(self).limit(),
    {
        proof {
            lemma_put(self@, self.limit(), id, search);
        }
        cache_put(&mut self.searches, id, search);
    }

    /// Forgets the search stored under `search_id`, if there is one.
    pub fn drop_search(&mut self, search_id: usize)
        requires
            old(self).wf(),
        ensures
            final(self).wf(),
            final(self)@ == remove_spec(old(self)@, search_id),
            !holds(final(self)@, search_id),
            final(self).counter() == old(self).counter(),
            final(self).limit() == old(self).limit(),
    {
        proof {
            lemma_remove(self@, search_id);
        }
        cache_pop(&mut self.searches, search_id);
    }

    /// Takes up the search stored under `search_id`: it becomes the most
    /// recent one, and the result is the search that `mode` leads to, whose
    /// page is to be fetched. What is stored stays as it is until
    /// `finish_search`.
    pub fn continue_search(&mut self, search_id: usize, mode: SearchMode) -> (target: Result<
        Search,
        SearchError,
    >)
        requires
            old(self).wf(),
        ensures
            final(self).wf(),
            target == match lookup(old(self)@, search_id) {
                None => Err::<Search, SearchError>(SearchError::NotFound),
                Some(search) => if can_resolve(search, mode) {
                    Ok(resolve_spec(search, mode))
                } else {
                    Err(SearchError::PreconditionViolation)
                },
            },
            target matches Ok(search) ==> search.id == search_id && search.page_aligned(),
            final(self)@ == touch_spec(old(self)@, search_id),
            final(self).counter() == old(self).counter(),
            final(self).limit() == old(self).limit(),
    {
        proof {
            lemma_position(self@, search_id);
        }
        match self.get_and_touch(search_id) {
            Err(error) => Err(error),
            Ok(search) => {
                if resolvable(&search, mode) {
                    Ok(resolve(search, mode))
                } else {
                    Err(SearchError::PreconditionViolation)
                }
            },
        }
    }

    /// Records that the page of `target` was fetched: after paging, `target`
    /// is stored under its identifier as the most recent search; after
    /// showing a page again, nothing changes.
    pub fn finish_search(&mut self, mode: SearchMode, target: &Search)
        requires
            old(self).wf(),
            target.id < old(self).counter(),
            target.page_aligned(),
        ensures
            final(self).wf(),
            final(self)@ == match mode {
                SearchMode::Direct => old(self)@,
                _ => put_spec(old(self)@, old(self).limit(), target.id, *target),
            },
            final(self).counter() == old(self).counter(),
            final(self).limit() == old(self).limit(),
    {
        match mode {
            SearchMode::Direct => {},
            _ => {
                self.put(target.id, target.clone());
            },
        }
    }
}

} // verus!
