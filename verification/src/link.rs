//! The link under which a game is downloaded.

use vstd::prelude::*;
use vstd::string::StringExecFns;
use url::Url;
use crate::constants::DOWNLOAD_PREFIX;
use crate::search::Game;
use crate::text::views;

verus! {

/// The absolute URL that a text denotes, as the `url` crate writes it out
/// again; none where the text denotes no such URL.
pub uninterp spec fn parsed_url(text: Seq<char>) -> Option<Seq<char>>;

/// Why the `url` crate takes a text for no URL.
#[verifier::external_type_specification]
#[verifier::external_body]
pub struct ExParseError(url::ParseError);

/// `Url::parse`, followed by the conversion of the URL into its text: the
/// text is read as an absolute URL and written out again in the crate's own
/// form, or refused.
#[verifier::external_body]
pub(crate) fn parse_url(text: &str) -> (link: Result<String, url::ParseError>)
    ensures
        link is Ok == parsed_url(text@) is Some,
        link matches Ok(written) ==> written@ == parsed_url(text@)->0,
{
    Url::parse(text).map(String::from)
}

/// The segments of a path with a slash between each two of them.
pub open spec fn join_spec(segments: Seq<Seq<char>>) -> Seq<char>
    decreases segments.len(),
{
    if segments.len() == 0 {
        Seq::empty()
    } else if segments.len() == 1 {
        segments[0]
    } else {
        join_spec(segments.drop_last()).push('/') + segments.last()
    }
}

/// The address of a download before it is checked: the prefix, then the
/// segments of the path.
pub open spec fn link_text(segments: Seq<Seq<char>>) -> Seq<char> {
    DOWNLOAD_PREFIX@ + join_spec(segments)
}

/// Writes the address under which `game` is served.
pub fn download_text(game: &Game) -> (text: String)
    ensures
        text@ == link_text(game@.paths),
{
    let mut text = String::from_str(DOWNLOAD_PREFIX);
    let ghost segments = views(game.paths@);
    let mut i: usize = 0;
    while i < game.paths.len()
        invariant
            i <= game.paths.len(),
            segments == views(game.paths@),
            text@ == DOWNLOAD_PREFIX@ + join_spec(segments.take(i as int)),
        decreases game.paths.len() - i,
    {
        let ghost read = segments.take(i as int);
        let ghost next = segments.take(i + 1);
        proof {
            assert(next.drop_last() =~= read);
            assert(next.last() == game.paths[i as int]@);
            assert(read.len() == 0 ==> join_spec(read) =~= Seq::<char>::empty());
        }
        if i > 0 {
            text.push('/');
        }
        text.append(game.paths[i].as_str());
        assert(text@ =~= DOWNLOAD_PREFIX@ + join_spec(next));
        i = i + 1;
    }
    assert(segments.take(segments.len() as int) =~= segments);
    text
}

/// The link under which `game` can be downloaded, if its address is a URL.
pub fn download_link(game: &Game) -> (link: Option<String>)
    ensures
        link is Some == parsed_url(link_text(game@.paths)) is Some,
        link matches Some(written) ==> written@ == parsed_url(link_text(game@.paths))->0,
{
    let text = download_text(game);
    match parse_url(text.as_str()) {
        Ok(written) => Some(written),
        Err(_) => None,
    }
}

} // verus!
