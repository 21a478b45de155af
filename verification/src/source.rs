//! The source client's rules: where a snapshot is asked for, and when a fetched enriched
//! snapshot may be used. The request itself is the caller's business.

use crate::structs::seeder_player_list::SeederPlayerList;
use vstd::prelude::*;

verus! {

/// Why a snapshot could not be had.
#[derive(Clone, Copy, Debug, PartialEq, Eq, Structural)]
pub enum FetchError {
    /// The request did not get through or timed out.
    Network,
    /// The answer was not a snapshot.
    Decode,
    /// The enriched snapshot is too old to be joined.
    Stale,
}

/// The statistics endpoints.
#[derive(Clone, Copy, Debug, PartialEq, Eq, Structural)]
pub enum Endpoint {
    /// The primary snapshot of the first game.
    Players,
    /// The enriched snapshot of the first game.
    SeederPlayers,
    /// The detailed report of the second game.
    DetailedServer,
}

/// The greatest age, in seconds, at which an enriched snapshot may still be joined.
pub const MAX_ENRICHED_AGE: i64 = 30;

/// Whether a snapshot computed at `update_timestamp` is too old at `now`: more than thirty
/// seconds have passed.
pub open spec fn is_stale(update_timestamp: int, now: int) -> bool {
    now - update_timestamp > MAX_ENRICHED_AGE
}

/// Tells whether a snapshot computed at `update_timestamp` is too old to be joined at `now`.
pub fn stale(update_timestamp: i64, now: i64) -> (old: bool)
    ensures
        old == is_stale(update_timestamp as int, now as int),
{
    now as i128 - update_timestamp as i128 > MAX_ENRICHED_AGE as i128
}

/// What the enriched fetch hands on: a failed fetch stays failed, a snapshot that is too old
/// at `now` is rejected as [`FetchError::Stale`], any other snapshot passes unchanged.
pub open spec fn accepted(fetched: Result<SeederPlayerList, FetchError>, now: int) -> Result<
    SeederPlayerList,
    FetchError,
> {
    match fetched {
        Ok(list) => if is_stale(list.update_timestamp as int, now) {
            Err(FetchError::Stale)
        } else {
            Ok(list)
        },
        Err(error) => Err(error),
    }
}

/// Applies the staleness rule to a fetched enriched snapshot, so that no caller ever joins one
/// that is too old.
pub fn accept_enriched(fetched: Result<SeederPlayerList, FetchError>, now: i64) -> (result: Result<
    SeederPlayerList,
    FetchError,
>)
    ensures
        result == accepted(fetched, now as int),
{
    match fetched {
        Ok(list) => {
            if stale(list.update_timestamp, now) {
                Err(FetchError::Stale)
            } else {
                Ok(list)
            }
        },
        Err(error) => Err(error),
    }
}

/// The address that the `url` crate writes for the address `base` with one more query pair
/// `key`, `value`; `None` where `base` is not an address.
pub uninterp spec fn query_url(base: Seq<char>, key: Seq<char>, value: Seq<char>) -> Option<
    Seq<char>,
>;

/// Whether `text` holds no fragment mark.
pub open spec fn no_fragment(text: Seq<char>) -> bool {
    forall|i: int| 0 <= i < text.len() ==> text[i] != '#'
}

/// The greatest number of characters of a base address that is handed to the `url` crate.
pub const MAX_BASE_LENGTH: usize = 4096;

/// `reqwest::Url::parse`, then `query_pairs_mut` and `append_pair` on the address, written
/// out: the text is the one named by [`query_url`], and there is none exactly where that name
/// has none.
///
/// The crate keeps the places of an address's parts in 32 bits and panics where one does not
/// fit: where the query begins, and where a fragment is put back behind the query. So only a
/// base of at most [`MAX_BASE_LENGTH`] characters without a fragment is admitted.
#[verifier::external_body]
fn url_with_pair(base: &str, key: &str, value: &str) -> (url: Option<String>)
    requires
        base@.len() <= MAX_BASE_LENGTH,
        no_fragment(base@),
    ensures
        url matches Some(text) ==> query_url(base@, key@, value@) == Some(text@),
        url is None ==> query_url(base@, key@, value@) is None,
{
    let mut url = reqwest::Url::parse(base).ok()?;
    url.query_pairs_mut().append_pair(key, value);
    Some(url.into())
}

impl Endpoint {
    /// The address of the endpoint, without a query.
    pub open spec fn base(self) -> Seq<char> {
        match self {
            Endpoint::Players => "https://api.gametools.network/bf1/players/"@,
            Endpoint::SeederPlayers => "https://api.gametools.network/bf1/seederplayers/"@,
            Endpoint::DetailedServer => "http://api.gametools.network/bf4/detailedserver/"@,
        }
    }

    /// The address to ask for the snapshot of the server `server_name`: the endpoint's address
    /// with the query pair `name`, or `None` if no address can be made of it.
    pub fn request_url(self, server_name: &str) -> (url: Option<String>)
        ensures
            url matches Some(text) ==> query_url(self.base(), "name"@, server_name@) == Some(text@),
            url is None ==> query_url(self.base(), "name"@, server_name@) is None,
    {
        proof {
            reveal_strlit("https://api.gametools.network/bf1/players/");
            reveal_strlit("https://api.gametools.network/bf1/seederplayers/");
            reveal_strlit("http://api.gametools.network/bf4/detailedserver/");
        }
        match self {
            Endpoint::Players => url_with_pair(
                "https://api.gametools.network/bf1/players/",
                "name",
                server_name,
            ),
            Endpoint::SeederPlayers => url_with_pair(
                "https://api.gametools.network/bf1/seederplayers/",
                "name",
                server_name,
            ),
            Endpoint::DetailedServer => url_with_pair(
                "http://api.gametools.network/bf4/detailedserver/",
                "name",
                server_name,
            ),
        }
    }
}

} // verus!
