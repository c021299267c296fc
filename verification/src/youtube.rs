//! The data model of the video lookup responses, and the decisions made
//! over them.  The HTTP transport and the JSON decoding stay outside the
//! library; they hand the decoded items and the announced error in as
//! plain values.

use vstd::prelude::*;

verus! {

/// One item of a video search response.
pub struct YoutubeSearchItem {
    pub id: YoutubeSearchID,
    pub snippet: YoutubeSnippet,
}

/// The identifier part of a search item; only videos carry a video id.
pub struct YoutubeSearchID {
    pub kind: String,
    pub videoid: Option<String>,
}

/// One item of a video metadata response.
pub struct YoutubeVideoItem {
    pub id: String,
    pub snippet: YoutubeSnippet,
}

/// The displayable part of a response item.
pub struct YoutubeSnippet {
    pub title: String,
}

/// Why a lookup produced no usable result.
#[derive(Clone, Copy, Debug, PartialEq, Eq, Structural)]
pub enum LookupError {
    /// The service answered with an error message.
    ApiError,
    /// The service answered, but with no items.
    NoResults,
}

/// The decision part of a title lookup: the first item's title, unless
/// the service announced an error or returned no items.
pub fn first_video_title(items: &Vec<YoutubeVideoItem>, error: &Option<String>) -> (r: Result<
    String,
    LookupError,
>)
    ensures
        error is Some ==> r == Err::<String, LookupError>(LookupError::ApiError),
        error is None && items@.len() == 0 ==> r == Err::<String, LookupError>(
            LookupError::NoResults,
        ),
        error is None && items@.len() > 0 ==> (r matches Ok(t) && t@ == items@[0].snippet.title@),
{
    if error.is_some() {
        Err(LookupError::ApiError)
    } else if items.len() == 0 {
        Err(LookupError::NoResults)
    } else {
        Ok(clone_string(&items[0].snippet.title))
    }
}

/// The decision part of a search: the response's items, unless the
/// service announced an error.
pub fn search_results(items: Vec<YoutubeSearchItem>, error: &Option<String>) -> (r: Result<
    Vec<YoutubeSearchItem>,
    LookupError,
>)
    ensures
        error is Some ==> r == Err::<Vec<YoutubeSearchItem>, LookupError>(LookupError::ApiError),
        error is None ==> r == Ok::<Vec<YoutubeSearchItem>, LookupError>(items),
{
    if error.is_some() {
        Err(LookupError::ApiError)
    } else {
        Ok(items)
    }
}

fn clone_string(s: &String) -> (r: String)
    ensures
        r@ == s@,
{
    String::from_str(s.as_str())
}

} // verus!
