use atri::search::{index_entry, init_index, page_query, Game, GameResp, Query};
use atri::state::Search;

fn entry(name: &str, size: &str) -> GameResp {
    GameResp { name: name.to_string(), size: size.to_string() }
}

fn game(id: usize, paths: &[&str], size: &str) -> Game {
    Game {
        id,
        name: paths[paths.len() - 1].to_string(),
        paths: paths.iter().map(|part| part.to_string()).collect(),
        size: size.to_string(),
    }
}

#[test]
fn entry_with_leading_slash_is_indexed_by_its_segments() {
    let made = index_entry(0, entry("/VNs/Foo/bar.zip", "1.2 GB")).unwrap();
    assert_eq!(made.paths, vec!["VNs", "Foo", "bar.zip"]);
    assert_eq!(made.name, "bar.zip");
    assert_eq!(made.size, "1.2 GB");
    assert_eq!(made.id, 0);
}

#[test]
fn empty_entry_is_dropped() {
    assert_eq!(index_entry(3, entry("", "0")), None);
}

#[test]
fn entry_without_leading_slash_keeps_all_segments() {
    assert_eq!(index_entry(7, entry("VNs/bar.zip", "5")), Some(game(7, &["VNs", "bar.zip"], "5")));
    assert_eq!(index_entry(8, entry("bar.zip", "5")), Some(game(8, &["bar.zip"], "5")));
}

#[test]
fn only_one_leading_empty_segment_is_stripped() {
    assert_eq!(index_entry(1, entry("//a", "s")), Some(game(1, &["", "a"], "s")));
    assert_eq!(index_entry(2, entry("/", "s")), Some(game(2, &[""], "s")));
    assert_eq!(index_entry(3, entry("/a/", "s")), Some(game(3, &["a", ""], "s")));
}

#[test]
fn index_numbers_games_by_their_place_in_the_listing() {
    let listing = vec![
        entry("/a/one.zip", "1"),
        entry("", "2"),
        entry("/b/two.zip", "3"),
        entry("", "4"),
        entry("three.zip", "5"),
    ];
    let games = init_index(listing);
    assert_eq!(
        games,
        vec![
            game(0, &["a", "one.zip"], "1"),
            game(2, &["b", "two.zip"], "3"),
            game(4, &["three.zip"], "5"),
        ]
    );
}

#[test]
fn index_of_nothing_is_empty() {
    assert_eq!(init_index(Vec::new()), Vec::<Game>::new());
    assert_eq!(init_index(vec![entry("", "1")]), Vec::<Game>::new());
}

#[test]
fn page_query_asks_for_one_hit_more_than_a_page() {
    let search = Search { id: 2, keyword: "foo".to_string(), offset: 20 };
    assert_eq!(page_query(&search), Query { keyword: "foo".to_string(), limit: 11, offset: 20 });
}
