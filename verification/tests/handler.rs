use atri::codec::{Callback, MalformedCallback};
use atri::handler::{
    callback_handler, item_reply, make_keyboard, message_handler, resume, Button, ButtonLabel,
    Command, Pending, Reply, Step,
};
use atri::link::{download_link, download_text};
use atri::search::{BackendError, Game, Query, SearchResults};
use atri::state::{AtriState, Search, SearchError, SearchMode};

fn game(id: usize, name: &str) -> Game {
    Game {
        id,
        name: name.to_string(),
        paths: vec!["VNs".to_string(), name.to_string()],
        size: "1 GB".to_string(),
    }
}

fn hits(from: usize, count: usize) -> Vec<Game> {
    (from..from + count).map(|id| game(id, &format!("item{}.zip", id))).collect()
}

fn results(from: usize, count: usize) -> Result<SearchResults, BackendError> {
    Ok(SearchResults { hits: hits(from, count), estimated_total_hits: Some(14) })
}

fn button(label: ButtonLabel, data: &str) -> Button {
    Button { label, data: data.to_string() }
}

fn labels(row: &[Button]) -> Vec<ButtonLabel> {
    row.iter().map(|b| b.label.clone()).collect()
}

#[test]
fn keyboard_of_first_full_page_offers_next_only() {
    let search = Search { id: 3, keyword: "foo".to_string(), offset: 0 };
    let keyboard = make_keyboard(&search, hits(100, 11));
    assert_eq!(keyboard.len(), 11);
    for i in 0..10 {
        assert_eq!(
            keyboard[i],
            vec![button(
                ButtonLabel::Item(format!("item{}.zip", 100 + i)),
                &format!("g {} 3", 100 + i)
            )]
        );
    }
    assert_eq!(
        keyboard[10],
        vec![button(ButtonLabel::Cancel, "c 3"), button(ButtonLabel::NextPage, "s 3")]
    );
}

#[test]
fn keyboard_of_last_page_offers_prev_only() {
    let search = Search { id: 3, keyword: "foo".to_string(), offset: 10 };
    let keyboard = make_keyboard(&search, hits(0, 3));
    assert_eq!(keyboard.len(), 4);
    assert_eq!(keyboard[2], vec![button(ButtonLabel::Item("item2.zip".to_string()), "g 2 3")]);
    assert_eq!(
        keyboard[3],
        vec![button(ButtonLabel::PrevPage, "p 3"), button(ButtonLabel::Cancel, "c 3")]
    );
}

#[test]
fn keyboard_of_middle_page_offers_both() {
    let search = Search { id: 8, keyword: "foo".to_string(), offset: 20 };
    let keyboard = make_keyboard(&search, hits(0, 11));
    assert_eq!(
        keyboard[10],
        vec![
            button(ButtonLabel::PrevPage, "p 8"),
            button(ButtonLabel::Cancel, "c 8"),
            button(ButtonLabel::NextPage, "s 8"),
        ]
    );
}

#[test]
fn keyboard_of_exactly_one_page_offers_no_next() {
    let search = Search { id: 1, keyword: "foo".to_string(), offset: 0 };
    let keyboard = make_keyboard(&search, hits(0, 10));
    assert_eq!(keyboard.len(), 11);
    assert_eq!(keyboard[10], vec![button(ButtonLabel::Cancel, "c 1")]);
}

#[test]
fn keyboard_of_no_hits_has_only_the_controls() {
    let search = Search { id: 1, keyword: "foo".to_string(), offset: 0 };
    let keyboard = make_keyboard(&search, Vec::new());
    assert_eq!(keyboard, vec![vec![button(ButtonLabel::Cancel, "c 1")]]);
}

#[test]
fn keyboard_shows_at_most_a_page_and_needs_the_exact_surplus_for_next() {
    let search = Search { id: 1, keyword: "foo".to_string(), offset: 0 };
    let keyboard = make_keyboard(&search, hits(0, 12));
    assert_eq!(keyboard.len(), 11);
    assert_eq!(keyboard[10], vec![button(ButtonLabel::Cancel, "c 1")]);
}

#[test]
fn message_without_command_is_ignored() {
    assert_eq!(message_handler(None), Step::Ignore);
}

#[test]
fn start_and_help_are_answered_at_once() {
    assert_eq!(message_handler(Some(Command::Start)), Step::Reply(Reply::Greeting));
    assert_eq!(message_handler(Some(Command::Help)), Step::Reply(Reply::Help));
}

#[test]
fn search_without_keyword_asks_for_one() {
    assert_eq!(
        message_handler(Some(Command::Shinnku(String::new()))),
        Step::Reply(Reply::KeywordMissing)
    );
}

#[test]
fn search_with_keyword_queries_the_first_page() {
    assert_eq!(
        message_handler(Some(Command::Shinnku("foo".to_string()))),
        Step::Query {
            query: Query { keyword: "foo".to_string(), limit: 11, offset: 0 },
            pending: Pending::NewSearch { keyword: "foo".to_string() },
        }
    );
}

#[test]
fn paging_through_a_search() {
    let mut state = AtriState::new(1000);
    let step = message_handler(Some(Command::Shinnku("foo".to_string())));
    let (query, pending) = match step {
        Step::Query { query, pending } => (query, pending),
        other => panic!("{:?}", other),
    };
    assert_eq!(query, Query { keyword: "foo".to_string(), limit: 11, offset: 0 });

    let reply = resume(&mut state, pending, results(0, 11));
    let keyboard = match reply {
        Reply::Results { estimated_total, keyboard } => {
            assert_eq!(estimated_total, Some(14));
            keyboard
        }
        other => panic!("{:?}", other),
    };
    assert_eq!(keyboard.len(), 11);
    assert_eq!(keyboard[0], vec![button(ButtonLabel::Item("item0.zip".to_string()), "g 0 0")]);
    assert_eq!(keyboard[9], vec![button(ButtonLabel::Item("item9.zip".to_string()), "g 9 0")]);
    assert_eq!(labels(&keyboard[10]), vec![ButtonLabel::Cancel, ButtonLabel::NextPage]);
    assert_eq!(state.len(), 1);

    let next = keyboard[10][1].data.clone();
    assert_eq!(next, "s 0");
    let step = callback_handler(&mut state, Some(&next), true);
    let (query, pending) = match step {
        Step::Query { query, pending } => (query, pending),
        other => panic!("{:?}", other),
    };
    assert_eq!(query, Query { keyword: "foo".to_string(), limit: 11, offset: 10 });
    assert_eq!(
        pending,
        Pending::Page {
            mode: SearchMode::NextPage,
            target: Search { id: 0, keyword: "foo".to_string(), offset: 10 },
        }
    );
    assert_eq!(
        state.get_and_touch(0),
        Ok(Search { id: 0, keyword: "foo".to_string(), offset: 0 })
    );

    let reply = resume(&mut state, pending, results(10, 3));
    let keyboard = match reply {
        Reply::Results { keyboard, .. } => keyboard,
        other => panic!("{:?}", other),
    };
    assert_eq!(keyboard.len(), 4);
    assert_eq!(keyboard[0], vec![button(ButtonLabel::Item("item10.zip".to_string()), "g 10 0")]);
    assert_eq!(
        keyboard[3],
        vec![button(ButtonLabel::PrevPage, "p 0"), button(ButtonLabel::Cancel, "c 0")]
    );
    assert_eq!(
        state.get_and_touch(0),
        Ok(Search { id: 0, keyword: "foo".to_string(), offset: 10 })
    );
}

#[test]
fn cancel_then_redisplay_finds_nothing() {
    let mut state = AtriState::new(1000);
    let made = state.new_search("foo".to_string());
    let other = state.new_search("bar".to_string());
    let cancel = Callback::Cancel { search_id: made.id }.encode();
    assert_eq!(callback_handler(&mut state, Some(&cancel), true), Step::Reply(Reply::Cancelled));
    assert_eq!(state.ids(), vec![other.id]);
    let again = Callback::Page { mode: SearchMode::Direct, search_id: made.id }.encode();
    assert_eq!(
        callback_handler(&mut state, Some(&again), true),
        Step::Reply(Reply::SearchFailed(SearchError::NotFound))
    );
    assert_eq!(state.ids(), vec![other.id]);
}

#[test]
fn callback_without_token_or_message_is_ignored() {
    let mut state = AtriState::new(10);
    state.new_search("foo".to_string());
    assert_eq!(callback_handler(&mut state, None, true), Step::Ignore);
    assert_eq!(callback_handler(&mut state, Some("c 0"), false), Step::Ignore);
    assert_eq!(callback_handler(&mut state, None, false), Step::Ignore);
    assert_eq!(state.len(), 1);
}

#[test]
fn malformed_tokens_are_rejected_and_change_nothing() {
    let mut state = AtriState::new(10);
    state.new_search("foo".to_string());
    assert_eq!(
        callback_handler(&mut state, Some("x 0"), true),
        Step::Reject(MalformedCallback::UnknownTag)
    );
    assert_eq!(
        callback_handler(&mut state, Some("c"), true),
        Step::Reject(MalformedCallback::FieldCount)
    );
    assert_eq!(
        callback_handler(&mut state, Some("c zero"), true),
        Step::Reject(MalformedCallback::InvalidId)
    );
    assert_eq!(
        callback_handler(&mut state, Some(""), true),
        Step::Reject(MalformedCallback::UnknownTag)
    );
    assert_eq!(state.len(), 1);
    assert_eq!(state.ids(), vec![0]);
}

#[test]
fn prev_on_the_first_page_is_refused() {
    let mut state = AtriState::new(10);
    state.new_search("foo".to_string());
    assert_eq!(
        callback_handler(&mut state, Some("p 0"), true),
        Step::Reply(Reply::SearchFailed(SearchError::PreconditionViolation))
    );
    assert_eq!(
        state.get_and_touch(0),
        Ok(Search { id: 0, keyword: "foo".to_string(), offset: 0 })
    );
}

#[test]
fn redisplay_queries_the_stored_offset_and_marks_the_search_recent() {
    let mut state = AtriState::new(10);
    state.new_search("foo".to_string());
    state.put(0, Search { id: 0, keyword: "foo".to_string(), offset: 30 });
    state.new_search("bar".to_string());
    assert_eq!(state.ids(), vec![1, 0]);
    let step = callback_handler(&mut state, Some("r 0"), true);
    assert_eq!(
        step,
        Step::Query {
            query: Query { keyword: "foo".to_string(), limit: 11, offset: 30 },
            pending: Pending::Page {
                mode: SearchMode::Direct,
                target: Search { id: 0, keyword: "foo".to_string(), offset: 30 },
            },
        }
    );
    assert_eq!(state.ids(), vec![0, 1]);
}

#[test]
fn backend_failure_leaves_the_store_untouched() {
    let mut state = AtriState::new(10);
    let reply = resume(
        &mut state,
        Pending::NewSearch { keyword: "foo".to_string() },
        Err(BackendError),
    );
    assert_eq!(reply, Reply::SearchFailed(SearchError::Backend));
    assert_eq!(state.len(), 0);
    assert_eq!(state.next_id(), 0);

    state.new_search("foo".to_string());
    let step = callback_handler(&mut state, Some("s 0"), true);
    let pending = match step {
        Step::Query { pending, .. } => pending,
        other => panic!("{:?}", other),
    };
    let reply = resume(&mut state, pending, Err(BackendError));
    assert_eq!(reply, Reply::SearchFailed(SearchError::Backend));
    assert_eq!(
        state.get_and_touch(0),
        Ok(Search { id: 0, keyword: "foo".to_string(), offset: 0 })
    );
}

#[test]
fn a_search_without_hits_is_stored_and_reported_empty() {
    let mut state = AtriState::new(10);
    let reply = resume(
        &mut state,
        Pending::NewSearch { keyword: "nothing".to_string() },
        Ok(SearchResults { hits: Vec::new(), estimated_total_hits: Some(0) }),
    );
    assert_eq!(reply, Reply::NothingFound);
    assert_eq!(state.ids(), vec![0]);
}

#[test]
fn a_page_for_an_id_never_handed_out_is_refused() {
    let mut state = AtriState::new(10);
    let reply = resume(
        &mut state,
        Pending::Page {
            mode: SearchMode::NextPage,
            target: Search { id: 4, keyword: "foo".to_string(), offset: 10 },
        },
        results(0, 3),
    );
    assert_eq!(reply, Reply::SearchFailed(SearchError::PreconditionViolation));
    assert_eq!(state.len(), 0);
}

#[test]
fn a_page_of_an_evicted_search_is_stored_anew() {
    let mut state = AtriState::new(1);
    state.new_search("foo".to_string());
    let step = callback_handler(&mut state, Some("s 0"), true);
    let pending = match step {
        Step::Query { pending, .. } => pending,
        other => panic!("{:?}", other),
    };
    state.new_search("bar".to_string());
    assert_eq!(state.ids(), vec![1]);
    let reply = resume(&mut state, pending, results(10, 2));
    assert!(matches!(reply, Reply::Results { .. }));
    assert_eq!(state.ids(), vec![0]);
    assert_eq!(
        state.get_and_touch(0),
        Ok(Search { id: 0, keyword: "foo".to_string(), offset: 10 })
    );
}

#[test]
fn opening_an_item_queries_it_by_its_id() {
    let mut state = AtriState::new(10);
    state.new_search("foo".to_string());
    let step = callback_handler(&mut state, Some("g 42 0"), true);
    assert_eq!(
        step,
        Step::Query {
            query: Query { keyword: "42".to_string(), limit: 1, offset: 0 },
            pending: Pending::Item { search_id: 0 },
        }
    );
    assert_eq!(state.ids(), vec![0]);
}

#[test]
fn an_opened_item_shows_its_link_and_the_way_back() {
    let mut state = AtriState::new(10);
    let found = Game {
        id: 42,
        name: "bar.zip".to_string(),
        paths: vec!["VNs".to_string(), "Foo".to_string(), "bar.zip".to_string()],
        size: "1.2 GB".to_string(),
    };
    let reply = resume(
        &mut state,
        Pending::Item { search_id: 5 },
        Ok(SearchResults { hits: vec![found], estimated_total_hits: Some(1) }),
    );
    assert_eq!(
        reply,
        Reply::Item {
            name: "bar.zip".to_string(),
            size: "1.2 GB".to_string(),
            link: "https://www.shinnku.com/api/download/VNs/Foo/bar.zip".to_string(),
            back: "r 5".to_string(),
        }
    );
    assert_eq!(state.len(), 0);
}

#[test]
fn an_item_that_is_not_found_fails() {
    let mut state = AtriState::new(10);
    assert_eq!(
        resume(&mut state, Pending::Item { search_id: 5 }, Err(BackendError)),
        Reply::ItemFailed
    );
    assert_eq!(
        resume(
            &mut state,
            Pending::Item { search_id: 5 },
            Ok(SearchResults { hits: Vec::new(), estimated_total_hits: None }),
        ),
        Reply::ItemFailed
    );
}

#[test]
fn an_item_without_link_fails() {
    assert_eq!(item_reply(game(1, "a.zip"), None, 3), Reply::LinkFailed);
    assert_eq!(
        item_reply(game(1, "a.zip"), Some("https://example.org/a.zip".to_string()), 3),
        Reply::Item {
            name: "a.zip".to_string(),
            size: "1 GB".to_string(),
            link: "https://example.org/a.zip".to_string(),
            back: "r 3".to_string(),
        }
    );
}

#[test]
fn download_text_joins_the_segments() {
    let mut one = game(1, "a.zip");
    assert_eq!(download_text(&one), "https://www.shinnku.com/api/download/VNs/a.zip");
    one.paths = vec!["only".to_string()];
    assert_eq!(download_text(&one), "https://www.shinnku.com/api/download/only");
    one.paths = Vec::new();
    assert_eq!(download_text(&one), "https://www.shinnku.com/api/download/");
    one.paths = vec!["a b".to_string(), "".to_string(), "c".to_string()];
    assert_eq!(download_text(&one), "https://www.shinnku.com/api/download/a b//c");
}

#[test]
fn download_link_is_written_as_a_url() {
    let mut one = game(1, "a.zip");
    one.paths = vec!["My Games".to_string(), "..".to_string(), "a b.zip".to_string()];
    assert_eq!(
        download_link(&one),
        Some("https://www.shinnku.com/api/download/a%20b.zip".to_string())
    );
    one.paths = vec!["游戏".to_string(), "x.zip".to_string()];
    assert_eq!(
        download_link(&one),
        Some(
            "https://www.shinnku.com/api/download/%E6%B8%B8%E6%88%8F/x.zip".to_string()
        )
    );
}

#[test]
fn a_page_at_a_broken_offset_is_refused() {
    let mut state = AtriState::new(10);
    state.new_search("foo".to_string());
    let reply = resume(
        &mut state,
        Pending::Page {
            mode: SearchMode::NextPage,
            target: Search { id: 0, keyword: "foo".to_string(), offset: 15 },
        },
        results(0, 3),
    );
    assert_eq!(reply, Reply::SearchFailed(SearchError::PreconditionViolation));
    assert_eq!(
        state.get_and_touch(0),
        Ok(Search { id: 0, keyword: "foo".to_string(), offset: 0 })
    );
}
