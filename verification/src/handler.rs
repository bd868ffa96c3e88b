//! What an inbound message or a pressed control leads to: which query is
//! made, what becomes of the stored searches, and what is sent back.

use vstd::prelude::*;
use crate::cache::{
    distinct_ids, lemma_removed_is_not_found, lookup, put_spec, remove_spec, touch_spec,
};
use crate::codec::{decode_spec, encode_spec, lemma_decode_encode, Callback, MalformedCallback};
use crate::constants::PER_PAGE;
use crate::link::{download_link, link_text, parsed_url};
use crate::search::{
    first_query, game_views, item_query, page_query, page_query_spec, BackendError, Game,
    GameView, Query, QueryView, SearchResults,
};
use crate::state::{can_resolve, resolve_spec, AtriState, Search, SearchError, SearchMode};
use crate::text::{decimal, decimal_spec};

verus! {

/// What a control shows.
#[derive(Debug, Clone, PartialEq, Eq)]
pub enum ButtonLabel {
    /// The name of an item.
    Item(String),
    /// Go to the page before.
    PrevPage,
    /// End the search.
    Cancel,
    /// Go to the page after.
    NextPage,
}

/// A label as specifications see it.
pub enum LabelView {
    Item(Seq<char>),
    PrevPage,
    Cancel,
    NextPage,
}

impl View for ButtonLabel {
    type V = LabelView;

    open spec fn view(&self) -> LabelView {
        match self {
            ButtonLabel::Item(name) => LabelView::Item(name@),
            ButtonLabel::PrevPage => LabelView::PrevPage,
            ButtonLabel::Cancel => LabelView::Cancel,
            ButtonLabel::NextPage => LabelView::NextPage,
        }
    }
}

/// An interactive control: what it shows, and the token that comes back when
/// it is pressed.
#[derive(Debug, Clone, PartialEq, Eq)]
pub struct Button {
    pub label: ButtonLabel,
    pub data: String,
}

/// A control as specifications see it.
pub struct ButtonView {
    pub label: LabelView,
    pub data: Seq<char>,
}

impl View for Button {
    type V = ButtonView;

    open spec fn view(&self) -> ButtonView {
        ButtonView { label: self.label@, data: self.data@ }
    }
}

/// The views of a row of controls.
pub open spec fn row_view(row: Seq<Button>) -> Seq<ButtonView> {
    Seq::new(row.len(), |i: int| row[i]@)
}

/// The views of the rows of a keyboard.
pub open spec fn keyboard_view(rows: Seq<Vec<Button>>) -> Seq<Seq<ButtonView>> {
    Seq::new(rows.len(), |i: int| row_view(rows[i]@))
}

/// The control that shows `label` and issues `command`.
pub open spec fn button_spec(label: LabelView, command: Callback) -> ButtonView {
    ButtonView { label, data: encode_spec(command) }
}

/// The row of one item: a single control that bears the item's name and
/// opens the item.
pub open spec fn item_row(search_id: usize, game: GameView) -> Seq<ButtonView> {
    seq![
        button_spec(
            LabelView::Item(game.name),
            Callback::Open { item_id: game.id, search_id },
        ),
    ]
}

/// The control that leads to the page before.
pub open spec fn prev_button(search_id: usize) -> ButtonView {
    button_spec(LabelView::PrevPage, Callback::Page { mode: SearchMode::PrevPage, search_id })
}

/// The control that ends the search.
pub open spec fn cancel_button(search_id: usize) -> ButtonView {
    button_spec(LabelView::Cancel, Callback::Cancel { search_id })
}

/// The control that leads to the page after.
pub open spec fn next_button(search_id: usize) -> ButtonView {
    button_spec(LabelView::NextPage, Callback::Page { mode: SearchMode::NextPage, search_id })
}

/// The last row of a page: the way back unless the page is the first, the
/// way out, and the way on if the query brought the one hit more than a page
/// shows.
pub open spec fn control_row(search: Search, hits: nat) -> Seq<ButtonView> {
    let back = if search.offset != 0 {
        seq![prev_button(search.id)]
    } else {
        Seq::empty()
    };
    let on = if hits == PER_PAGE + 1 {
        seq![next_button(search.id)]
    } else {
        Seq::empty()
    };
    back + seq![cancel_button(search.id)] + on
}

/// The number of hits that a page shows.
pub open spec fn shown(hits: nat) -> nat {
    if hits < PER_PAGE {
        hits
    } else {
        PER_PAGE as nat
    }
}

/// The keyboard under a page of hits: a row for each hit that the page
/// shows, then the row of controls.
pub open spec fn keyboard_spec(search: Search, games: Seq<GameView>) -> Seq<Seq<ButtonView>> {
    Seq::new(shown(games.len()), |i: int| item_row(search.id, games[i])).push(
        control_row(search, games.len()),
    )
}

/// The keyboard of a page ends with the row of controls. That row offers
/// the way on exactly if the query brought one hit more than a page shows,
/// the way back exactly if the page is not the first, and always the way
/// out.
pub proof fn lemma_controls(search: Search, games: Seq<GameView>)
    ensures
        keyboard_spec(search, games).last() == control_row(search, games.len()),
        control_row(search, games.len()).contains(next_button(search.id)) <==> games.len()
            == PER_PAGE + 1,
        control_row(search, games.len()).contains(prev_button(search.id)) <==> search.offset != 0,
        control_row(search, games.len()).contains(cancel_button(search.id)),
{
    let row = control_row(search, games.len());
    let at = if search.offset != 0 { 1int } else { 0int };
    assert(row[at] == cancel_button(search.id));
    if games.len() == PER_PAGE + 1 {
        assert(row[at + 1] == next_button(search.id));
    }
    if search.offset != 0 {
        assert(row[0] == prev_button(search.id));
    }
}

/// The search that a command speaks of.
pub open spec fn addressed(command: Callback) -> usize {
    match command {
        Callback::Cancel { search_id } => search_id,
        Callback::Open { item_id, search_id } => search_id,
        Callback::Page { mode, search_id } => search_id,
    }
}

/// The token of every control of a page's keyboard is read back as a command,
/// and that command speaks of the search that the page belongs to.
pub proof fn lemma_keyboard_decodes(search: Search, games: Seq<GameView>, row: int, column: int)
    requires
        0 <= row < keyboard_spec(search, games).len(),
        0 <= column < keyboard_spec(search, games)[row].len(),
    ensures
        decode_spec(keyboard_spec(search, games)[row][column].data) matches Ok(command)
            && addressed(command) == search.id,
{
    let id = search.id;
    if row < shown(games.len()) {
        lemma_decode_encode(Callback::Open { item_id: games[row].id, search_id: id });
    } else {
        lemma_decode_encode(Callback::Cancel { search_id: id });
        lemma_decode_encode(Callback::Page { mode: SearchMode::PrevPage, search_id: id });
        lemma_decode_encode(Callback::Page { mode: SearchMode::NextPage, search_id: id });
    }
}

/// Builds the control with `label` that issues `command`.
fn make_button(label: ButtonLabel, command: Callback) -> (button: Button)
    ensures
        button@ == button_spec(label@, command),
{
    Button { label, data: command.encode() }
}

/// Builds the keyboard under the page of `search` that shows `games`.
pub fn make_keyboard(search: &Search, games: Vec<Game>) -> (keyboard: Vec<Vec<Button>>)
    ensures
        keyboard_view(keyboard@) == keyboard_spec(*search, game_views(games@)),
{
    let mut keyboard: Vec<Vec<Button>> = Vec::new();
    let ghost wanted = keyboard_spec(*search, game_views(games@));
    let mut i: usize = 0;
    while i < games.len() && i < PER_PAGE
        invariant
            i <= games.len(),
            i <= PER_PAGE,
            wanted == keyboard_spec(*search, game_views(games@)),
            keyboard_view(keyboard@) == wanted.take(i as int),
        decreases games.len() - i,
    {
        let game = &games[i];
        let button = make_button(
            ButtonLabel::Item(game.name.clone()),
            Callback::Open { item_id: game.id, search_id: search.id },
        );
        let ghost before = keyboard_view(keyboard@);
        let row = vec![button];
        assert(row_view(row@) =~= item_row(search.id, game@));
        keyboard.push(row);
        assert(keyboard_view(keyboard@) =~= before.push(wanted[i as int]));
        i = i + 1;
    }
    let mut controls: Vec<Button> = Vec::new();
    if search.offset != 0 {
        controls.push(
            make_button(
                ButtonLabel::PrevPage,
                Callback::Page { mode: SearchMode::PrevPage, search_id: search.id },
            ),
        );
    }
    controls.push(make_button(ButtonLabel::Cancel, Callback::Cancel { search_id: search.id }));
    if games.len() == PER_PAGE + 1 {
        controls.push(
            make_button(
                ButtonLabel::NextPage,
                Callback::Page { mode: SearchMode::NextPage, search_id: search.id },
            ),
        );
    }
    assert(row_view(controls@) =~= control_row(*search, games@.len()));
    let ghost before = keyboard_view(keyboard@);
    keyboard.push(controls);
    assert(keyboard_view(keyboard@) =~= before.push(control_row(*search, games@.len())));
    assert(keyboard_view(keyboard@) =~= wanted);
    keyboard
}

/// What is sent to the user.
#[derive(Debug, Clone, PartialEq, Eq)]
pub enum Reply {
    /// The greeting.
    Greeting,
    /// The list of commands.
    Help,
    /// The search command came without a keyword.
    KeywordMissing,
    /// The search could not be carried out.
    SearchFailed(SearchError),
    /// The search engine found nothing.
    NothingFound,
    /// A page of hits: the engine's estimate of their number, and the
    /// keyboard to show.
    Results { estimated_total: Option<usize>, keyboard: Vec<Vec<Button>> },
    /// The search was ended.
    Cancelled,
    /// The item could not be fetched.
    ItemFailed,
    /// The item's address is no URL.
    LinkFailed,
    /// An item: its name, its size, the link to download it, and the token
    /// that leads back to the page it was opened from.
    Item { name: String, size: String, link: String, back: String },
}

/// A reply as specifications see it.
pub enum ReplyView {
    Greeting,
    Help,
    KeywordMissing,
    SearchFailed(SearchError),
    NothingFound,
    Results { estimated_total: Option<usize>, keyboard: Seq<Seq<ButtonView>> },
    Cancelled,
    ItemFailed,
    LinkFailed,
    Item { name: Seq<char>, size: Seq<char>, link: Seq<char>, back: Seq<char> },
}

impl View for Reply {
    type V = ReplyView;

    open spec fn view(&self) -> ReplyView {
        match self {
            Reply::Greeting => ReplyView::Greeting,
            Reply::Help => ReplyView::Help,
            Reply::KeywordMissing => ReplyView::KeywordMissing,
            Reply::SearchFailed(error) => ReplyView::SearchFailed(*error),
            Reply::NothingFound => ReplyView::NothingFound,
            Reply::Results { estimated_total, keyboard } => ReplyView::Results {
                estimated_total: *estimated_total,
                keyboard: keyboard_view(keyboard@),
            },
            Reply::Cancelled => ReplyView::Cancelled,
            Reply::ItemFailed => ReplyView::ItemFailed,
            Reply::LinkFailed => ReplyView::LinkFailed,
            Reply::Item { name, size, link, back } => ReplyView::Item {
                name: name@,
                size: size@,
                link: link@,
                back: back@,
            },
        }
    }
}

/// What a query was made for, kept until its answer is there.
#[derive(Debug, Clone, PartialEq, Eq)]
pub enum Pending {
    /// The first page of a new search for `keyword`.
    NewSearch { keyword: String },
    /// The page of `target`, which `mode` led to.
    Page { mode: SearchMode, target: Search },
    /// An item that was opened from the search `search_id`.
    Item { search_id: usize },
}

/// What to do about an inbound event. A pressed control is acknowledged
/// whatever the step.
#[derive(Debug, Clone, PartialEq, Eq)]
pub enum Step {
    /// Nothing.
    Ignore,
    /// The token was no command: tell the user that it failed, and no more.
    Reject(MalformedCallback),
    /// Send this.
    Reply(Reply),
    /// Ask the search engine, then hand its answer to `resume` together
    /// with `pending`.
    Query { query: Query, pending: Pending },
}

/// A step as specifications see it.
pub enum StepView {
    Ignore,
    Reject(MalformedCallback),
    Reply(ReplyView),
    Query { query: QueryView, pending: Pending },
}

impl View for Step {
    type V = StepView;

    open spec fn view(&self) -> StepView {
        match self {
            Step::Ignore => StepView::Ignore,
            Step::Reject(error) => StepView::Reject(*error),
            Step::Reply(reply) => StepView::Reply(reply@),
            Step::Query { query, pending } => StepView::Query { query: query@, pending: *pending },
        }
    }
}

/// A command of the chat, as the transport has read it from a message.
#[derive(Debug, Clone, PartialEq, Eq)]
pub enum Command {
    Start,
    Help,
    /// Search for the keyword.
    Shinnku(String),
}

/// What a message leads to: a text that is no command is ignored; a search
/// needs a keyword and then goes to the search engine.
pub open spec fn message_step(command: Option<Command>) -> StepView {
    match command {
        None => StepView::Ignore,
        Some(Command::Start) => StepView::Reply(ReplyView::Greeting),
        Some(Command::Help) => StepView::Reply(ReplyView::Help),
        Some(Command::Shinnku(keyword)) => if keyword@.len() == 0 {
            StepView::Reply(ReplyView::KeywordMissing)
        } else {
            StepView::Query { query: first_query(keyword@), pending: Pending::NewSearch { keyword } }
        },
    }
}

/// Decides what a message leads to.
pub fn message_handler(command: Option<Command>) -> (step: Step)
    ensures
        step@ == message_step(command),
{
    match command {
        None => Step::Ignore,
        Some(Command::Start) => Step::Reply(Reply::Greeting),
        Some(Command::Help) => Step::Reply(Reply::Help),
        Some(Command::Shinnku(keyword)) => {
            if keyword.as_str().is_empty() {
                Step::Reply(Reply::KeywordMissing)
            } else {
                Step::Query {
                    query: Query { keyword: keyword.clone(), limit: PER_PAGE + 1, offset: 0 },
                    pending: Pending::NewSearch { keyword },
                }
            }
        },
    }
}

/// The text of a token, if there is a token.
pub open spec fn token_text(data: Option<&str>) -> Option<Seq<char>> {
    match data {
        Some(text) => Some(text@),
        None => None,
    }
}

/// What a pressed control leads to, given the stored searches. Without a
/// token, or a message to change, nothing happens. A token that is no
/// command is rejected. Ending a search is answered at once; opening an item
/// and paging go to the search engine, paging only if the search is stored
/// and has the page asked for.
pub open spec fn callback_step(
    entries: Seq<(usize, Search)>,
    data: Option<Seq<char>>,
    has_message: bool,
) -> StepView {
    if data is None || !has_message {
        StepView::Ignore
    } else {
        match decode_spec(data->0) {
            Err(error) => StepView::Reject(error),
            Ok(Callback::Cancel { search_id }) => StepView::Reply(ReplyView::Cancelled),
            Ok(Callback::Open { item_id, search_id }) => StepView::Query {
                query: item_query(item_id),
                pending: Pending::Item { search_id },
            },
            Ok(Callback::Page { mode, search_id }) => match lookup(entries, search_id) {
                None => StepView::Reply(ReplyView::SearchFailed(SearchError::NotFound)),
                Some(search) => if can_resolve(search, mode) {
                    StepView::Query {
                        query: page_query_spec(resolve_spec(search, mode)),
                        pending: Pending::Page { mode, target: resolve_spec(search, mode) },
                    }
                } else {
                    StepView::Reply(ReplyView::SearchFailed(SearchError::PreconditionViolation))
                },
            },
        }
    }
}

/// The stored searches after a control was pressed: ending a search takes it
/// out, paging makes the search the most recent one, and nothing else
/// changes anything.
pub open spec fn callback_entries(
    entries: Seq<(usize, Search)>,
    data: Option<Seq<char>>,
    has_message: bool,
) -> Seq<(usize, Search)> {
    if data is None || !has_message {
        entries
    } else {
        match decode_spec(data->0) {
            Ok(Callback::Cancel { search_id }) => remove_spec(entries, search_id),
            Ok(Callback::Page { mode, search_id }) => touch_spec(entries, search_id),
            _ => entries,
        }
    }
}

/// Decides what a pressed control leads to, and ends or takes up the search
/// it speaks of.
pub fn callback_handler(state: &mut AtriState, data: Option<&str>, has_message: bool) -> (step:
    Step)
    requires
        old(state).wf(),
    ensures
        final(state).wf(),
        step@ == callback_step(old(state)@, token_text(data), has_message),
        final(state)@ == callback_entries(old(state)@, token_text(data), has_message),
        final(state).counter() == old(state).counter(),
        final(state).limit() == old(state).limit(),
{
    let token = match data {
        Some(token) => token,
        None => {
            return Step::Ignore;
        },
    };
    if !has_message {
        return Step::Ignore;
    }
    match Callback::decode(token) {
        Err(error) => Step::Reject(error),
        Ok(Callback::Cancel { search_id }) => {
            state.drop_search(search_id);
            Step::Reply(Reply::Cancelled)
        },
        Ok(Callback::Open { item_id, search_id }) => Step::Query {
            query: Query { keyword: decimal(item_id), limit: 1, offset: 0 },
            pending: Pending::Item { search_id },
        },
        Ok(Callback::Page { mode, search_id }) => match state.continue_search(search_id, mode) {
            Err(error) => Step::Reply(Reply::SearchFailed(error)),
            Ok(target) => Step::Query {
                query: page_query(&target),
                pending: Pending::Page { mode, target },
            },
        },
    }
}

/// What a page of hits is answered with: a notice if there are none, else
/// the engine's estimate and the keyboard of the page.
pub open spec fn page_reply(search: Search, results: SearchResults) -> ReplyView {
    if results.hits@.len() == 0 {
        ReplyView::NothingFound
    } else {
        ReplyView::Results {
            estimated_total: results.estimated_total_hits,
            keyboard: keyboard_spec(search, game_views(results.hits@)),
        }
    }
}

/// What an opened item is answered with, given the link that its address
/// was read as: the item with that link and the way back to its search, or a
/// notice if the address was read as no link.
pub open spec fn item_reply_spec(
    game: GameView,
    link: Option<Seq<char>>,
    search_id: usize,
) -> ReplyView {
    match link {
        None => ReplyView::LinkFailed,
        Some(link) => ReplyView::Item {
            name: game.name,
            size: game.size,
            link,
            back: encode_spec(Callback::Page { mode: SearchMode::Direct, search_id }),
        },
    }
}

/// The search whose page is shown once the engine has answered the query
/// made for `pending`; none if the engine failed, if the query was for an
/// item, or if the store cannot take the search: a new search needs an
/// identifier that is left, and a paged one must bear an identifier that was
/// handed out and an offset of whole pages.
pub open spec fn shown_search(
    counter: usize,
    pending: Pending,
    outcome: Result<SearchResults, BackendError>,
) -> Option<Search> {
    match pending {
        Pending::NewSearch { keyword } => if outcome is Ok && counter < usize::MAX {
            Some(Search { id: counter, keyword, offset: 0 })
        } else {
            None
        },
        Pending::Page { mode, target } => if outcome is Ok && target.id < counter
            && target.page_aligned() {
            Some(target)
        } else {
            None
        },
        Pending::Item { search_id } => None,
    }
}

/// The reply to the user once the search engine has answered, or failed to.
pub open spec fn resume_reply(
    counter: usize,
    pending: Pending,
    outcome: Result<SearchResults, BackendError>,
) -> ReplyView {
    match pending {
        Pending::Item { search_id } => match outcome {
            Err(_) => ReplyView::ItemFailed,
            Ok(results) => if results.hits@.len() == 0 {
                ReplyView::ItemFailed
            } else {
                item_reply_spec(
                    results.hits@[0]@,
                    parsed_url(link_text(results.hits@[0]@.paths)),
                    search_id,
                )
            },
        },
        _ => match outcome {
            Err(_) => ReplyView::SearchFailed(SearchError::Backend),
            Ok(results) => match shown_search(counter, pending, outcome) {
                Some(search) => page_reply(search, results),
                None => ReplyView::SearchFailed(SearchError::PreconditionViolation),
            },
        },
    }
}

/// The stored searches once the search engine has answered: a new search is
/// stored, a paged one is stored with its new offset, and a failure or a
/// page shown again changes nothing.
pub open spec fn resume_entries(
    entries: Seq<(usize, Search)>,
    limit: nat,
    counter: usize,
    pending: Pending,
    outcome: Result<SearchResults, BackendError>,
) -> Seq<(usize, Search)> {
    match shown_search(counter, pending, outcome) {
        None => entries,
        Some(search) => if pending matches Pending::Page { mode: SearchMode::Direct, .. } {
            entries
        } else {
            put_spec(entries, limit, search.id, search)
        },
    }
}

/// The next identifier once the search engine has answered: a new search
/// that is stored uses one up.
pub open spec fn resume_counter(
    counter: usize,
    pending: Pending,
    outcome: Result<SearchResults, BackendError>,
) -> usize {
    if pending is NewSearch && shown_search(counter, pending, outcome) is Some {
        (counter + 1) as usize
    } else {
        counter
    }
}

/// Builds the reply that shows `game`, given the link that its address was
/// read as.
pub fn item_reply(game: Game, link: Option<String>, search_id: usize) -> (reply: Reply)
    ensures
        reply@ == item_reply_spec(
            game@,
            match link {
                Some(written) => Some(written@),
                None => None,
            },
            search_id,
        ),
{
    match link {
        None => Reply::LinkFailed,
        Some(link) => Reply::Item {
            name: game.name,
            size: game.size,
            link,
            back: (Callback::Page { mode: SearchMode::Direct, search_id }).encode(),
        },
    }
}

/// Builds the reply that shows the page of `search`.
fn show_page(search: &Search, results: SearchResults) -> (reply: Reply)
    ensures
        reply@ == page_reply(*search, results),
{
    if results.hits.len() == 0 {
        Reply::NothingFound
    } else {
        Reply::Results {
            estimated_total: results.estimated_total_hits,
            keyboard: make_keyboard(search, results.hits),
        }
    }
}

/// Takes the search engine's answer to the query that was made for
/// `pending`, records the search in the store and builds the reply.
pub fn resume(
    state: &mut AtriState,
    pending: Pending,
    outcome: Result<SearchResults, BackendError>,
) -> (reply: Reply)
    requires
        old(state).wf(),
    ensures
        final(state).wf(),
        reply@ == resume_reply(old(state).counter(), pending, outcome),
        final(state)@ == resume_entries(
            old(state)@,
            old(state).limit(),
            old(state).counter(),
            pending,
            outcome,
        ),
        final(state).counter() == resume_counter(old(state).counter(), pending, outcome),
        final(state).limit() == old(state).limit(),
{
    match pending {
        Pending::Item { search_id } => match outcome {
            Err(_) => Reply::ItemFailed,
            Ok(results) => {
                let mut hits = results.hits;
                if hits.len() == 0 {
                    Reply::ItemFailed
                } else {
                    let game = hits.swap_remove(0);
                    let link = download_link(&game);
                    item_reply(game, link, search_id)
                }
            },
        },
        Pending::NewSearch { keyword } => match outcome {
            Err(_) => Reply::SearchFailed(SearchError::Backend),
            Ok(results) => {
                if state.next_id() == usize::MAX {
                    Reply::SearchFailed(SearchError::PreconditionViolation)
                } else {
                    let search = state.new_search(keyword);
                    show_page(&search, results)
                }
            },
        },
        Pending::Page { mode, target } => match outcome {
            Err(_) => Reply::SearchFailed(SearchError::Backend),
            Ok(results) => {
                if target.id >= state.next_id() || target.offset % PER_PAGE != 0 {
                    Reply::SearchFailed(SearchError::PreconditionViolation)
                } else {
                    state.finish_search(mode, &target);
                    show_page(&target, results)
                }
            },
        },
    }
}

/// Once the control that ends a search has been pressed, pressing a control
/// that shows a page of that search finds the search gone, and changes
/// nothing.
pub proof fn lemma_cancel_then_page(entries: Seq<(usize, Search)>, search_id: usize, mode: SearchMode)
    requires
        distinct_ids(entries),
    ensures
        callback_entries(
            entries,
            Some(encode_spec(Callback::Cancel { search_id })),
            true,
        ) == remove_spec(entries, search_id),
        callback_step(
            remove_spec(entries, search_id),
            Some(encode_spec(Callback::Page { mode, search_id })),
            true,
        ) == StepView::Reply(ReplyView::SearchFailed(SearchError::NotFound)),
        callback_entries(
            remove_spec(entries, search_id),
            Some(encode_spec(Callback::Page { mode, search_id })),
            true,
        ) == remove_spec(entries, search_id),
{
    lemma_decode_encode(Callback::Cancel { search_id });
    lemma_decode_encode(Callback::Page { mode, search_id });
    lemma_removed_is_not_found(entries, search_id);
}

} // verus!
