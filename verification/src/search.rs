//! The catalog: how a listing becomes games, and what is asked of the search
//! engine and answered by it.

use vstd::prelude::*;
use crate::constants::PER_PAGE;
use crate::state::Search;
use crate::text::{decimal_spec, lemma_split_nonempty, split, split_spec, views};

verus! {

/// One entry of the catalog, as the search engine holds it.
#[derive(Debug, Clone, PartialEq, Eq)]
pub struct Game {
    /// Position of the entry in the listing that the index was built from.
    pub id: usize,
    /// Last segment of the entry's path.
    pub name: String,
    /// The segments of the entry's path, never empty.
    pub paths: Vec<String>,
    /// Size of the download, as the listing words it.
    pub size: String,
}

/// A game as specifications see it.
pub struct GameView {
    pub id: usize,
    pub name: Seq<char>,
    pub paths: Seq<Seq<char>>,
    pub size: Seq<char>,
}

impl GameView {
    /// The path has a segment, and the name is its last one.
    pub open spec fn well_formed(self) -> bool {
        self.paths.len() > 0 && self.name == self.paths.last()
    }
}

impl View for Game {
    type V = GameView;

    open spec fn view(&self) -> GameView {
        GameView { id: self.id, name: self.name@, paths: views(self.paths@), size: self.size@ }
    }
}

/// One entry of the remote listing: a path with `/` between its segments, and
/// a size.
#[derive(Debug, Clone, PartialEq, Eq)]
pub struct GameResp {
    pub name: String,
    pub size: String,
}

/// The views of a vector of games, in order.
pub open spec fn game_views(games: Seq<Game>) -> Seq<GameView> {
    Seq::new(games.len(), |i: int| games[i]@)
}

/// The segments of a listed path: its fields between slashes, without the
/// first field if that one is empty.
pub open spec fn path_segments(name: Seq<char>) -> Seq<Seq<char>> {
    let fields = split_spec(name, '/');
    if fields[0].len() == 0 {
        fields.drop_first()
    } else {
        fields
    }
}

/// The game that the entry at position `id` of the listing becomes; none if
/// its path has no segment.
pub open spec fn index_entry_spec(id: usize, name: Seq<char>, size: Seq<char>) -> Option<
    GameView,
> {
    let paths = path_segments(name);
    if paths.len() == 0 {
        None
    } else {
        Some(GameView { id, name: paths.last(), paths, size })
    }
}

/// The games that a listing becomes: one for each entry whose path has a
/// segment, in the listing's order, each with its position in the listing as
/// its identifier.
pub open spec fn index_spec(listing: Seq<GameResp>) -> Seq<GameView>
    decreases listing.len(),
{
    if listing.len() == 0 {
        Seq::empty()
    } else {
        let before = index_spec(listing.drop_last());
        let last = listing.last();
        match index_entry_spec((listing.len() - 1) as usize, last.name@, last.size@) {
            Some(game) => before.push(game),
            None => before,
        }
    }
}

/// Every game of an index has a path and is named by its last segment, and
/// the games bear rising positions of the listing as their identifiers, so
/// that no two share one.
pub proof fn lemma_index_well_formed(listing: Seq<GameResp>)
    requires
        listing.len() <= usize::MAX,
    ensures
        index_spec(listing).len() <= listing.len(),
        forall|i: int|
            0 <= i < index_spec(listing).len() ==> {
                &&& (#[trigger] index_spec(listing)[i]).well_formed()
                &&& index_spec(listing)[i].id < listing.len()
            },
        forall|i: int, j: int|
            0 <= i < j < index_spec(listing).len() ==> (#[trigger] index_spec(listing)[i]).id < (
            #[trigger] index_spec(listing)[j]).id,
    decreases listing.len(),
{
    if listing.len() > 0 {
        let before = index_spec(listing.drop_last());
        let games = index_spec(listing);
        lemma_index_well_formed(listing.drop_last());
        assert forall|i: int, j: int| 0 <= i < j < games.len() implies (#[trigger] games[i]).id < (
        #[trigger] games[j]).id by {
            assert(games[i] == before[i]);
            if j < before.len() {
                assert(games[j] == before[j]);
            }
        }
    }
}

/// Turns the entry at position `id` of the listing into a game, unless its
/// path has no segment.
pub fn index_entry(id: usize, entry: GameResp) -> (game: Option<Game>)
    ensures
        match index_entry_spec(id, entry.name@, entry.size@) {
            Some(view) => game is Some && game->0@ == view,
            None => game is None,
        },
{
    let mut paths = split(entry.name.as_str(), '/');
    proof {
        lemma_split_nonempty(entry.name@, '/');
    }
    let ghost fields = views(paths@);
    assert(paths[0]@ == fields[0]);
    if paths[0].as_str().unicode_len() == 0 {
        paths.remove(0);
        assert(views(paths@) =~= fields.drop_first());
    }
    if paths.len() == 0 {
        return None;
    }
    let ghost segments = views(paths@);
    assert(paths[paths.len() - 1]@ == segments.last());
    let name = paths[paths.len() - 1].clone();
    Some(Game { id, name, paths, size: entry.size })
}

/// Builds the catalog from the remote listing.
pub fn init_index(listing: Vec<GameResp>) -> (games: Vec<Game>)
    ensures
        game_views(games@) == index_spec(listing@),
{
    let mut games: Vec<Game> = Vec::new();
    let ghost whole = listing@;
    let total = listing.len();
    let mut id: usize = 0;
    for entry in it: listing
        invariant
            it.seq() == whole,
            whole.len() == total,
            id == it.index(),
            game_views(games@) == index_spec(whole.take(it.index())),
    {
        let ghost read = whole.take(id as int);
        let ghost next = whole.take(id + 1);
        let ghost before = game_views(games@);
        proof {
            assert(next.drop_last() =~= read);
            assert(next.last() == entry);
        }
        match index_entry(id, entry) {
            Some(game) => {
                games.push(game);
                assert(game_views(games@) =~= before.push(game@));
            },
            None => {},
        }
        id = id + 1;
    }
    assert(whole.take(whole.len() as int) =~= whole);
    games
}

/// What is asked of the search engine: the hits for `keyword`, at most
/// `limit` of them, after the first `offset`.
#[derive(Debug, Clone, PartialEq, Eq)]
pub struct Query {
    pub keyword: String,
    pub limit: usize,
    pub offset: usize,
}

/// A query as specifications see it.
pub struct QueryView {
    pub keyword: Seq<char>,
    pub limit: usize,
    pub offset: usize,
}

impl View for Query {
    type V = QueryView;

    open spec fn view(&self) -> QueryView {
        QueryView { keyword: self.keyword@, limit: self.limit, offset: self.offset }
    }
}

/// What the search engine answers: the hits in its order, and its estimate
/// of how many there are in all.
#[derive(Debug, Clone, PartialEq, Eq)]
pub struct SearchResults {
    pub hits: Vec<Game>,
    pub estimated_total_hits: Option<usize>,
}

/// The search engine could not be reached, or its answer could not be read.
#[derive(Debug, Clone, Copy, PartialEq, Eq)]
pub struct BackendError;

/// The query for the first page of a search for `keyword`: one hit more
/// than a page shows, so that a further page shows in the number of hits.
pub open spec fn first_query(keyword: Seq<char>) -> QueryView {
    QueryView { keyword, limit: (PER_PAGE + 1) as usize, offset: 0 }
}

/// The query for the page of `search`: its keyword, its offset, and one hit
/// more than a page shows.
pub open spec fn page_query_spec(search: Search) -> QueryView {
    QueryView { keyword: search.keyword@, limit: (PER_PAGE + 1) as usize, offset: search.offset }
}

/// The query that fetches an item: its identifier in decimal as the keyword,
/// and one hit.
pub open spec fn item_query(item_id: usize) -> QueryView {
    QueryView { keyword: decimal_spec(item_id as nat), limit: 1, offset: 0 }
}

/// Makes the query for the page of `search`.
pub fn page_query(search: &Search) -> (query: Query)
    ensures
        query@ == page_query_spec(*search),
{
    Query { keyword: search.keyword.clone(), limit: PER_PAGE + 1, offset: search.offset }
}

} // verus!
