//! Where the status feed and the betting venue are reached, and how a
//! request to the venue is authorized.

use vstd::prelude::*;
use vstd::string::StringExecFns;

verus! {

/// The address of the status feed.
pub const GITHUB_STATUS_URL: &'static str = "https://www.githubstatus.com/api/v2/status.json";

/// The address under which the venue's interface lives.
pub const MANIFOLD_MARKETS_API: &'static str = "https://manifold.markets/api";

/// The path of the market listing under the venue's address.
pub const MARKETS_PATH: &'static str = "/v0/markets";

/// The path of bet placement under the venue's address.
pub const BET_PATH: &'static str = "/v0/bet";

/// The content type of a bet request.
pub const CONTENT_TYPE_APPLICATION_JSON: &'static str = "application/json";

/// The value of the authorization header for an API key: the word `Key`, a
/// space, and the key.
pub fn authorization_key(api_key: &str) -> (value: String)
    ensures
        value@ == "Key "@ + api_key@,
{
    let mut value = "Key ".to_owned();
    value.append(api_key);
    value
}

/// The address of the market listing at a venue.
pub fn markets_url(base_url: &str) -> (url: String)
    ensures
        url@ == base_url@ + "/v0/markets"@,
{
    let mut url = base_url.to_owned();
    url.append(MARKETS_PATH);
    url
}

/// The address of bet placement at a venue.
pub fn bet_url(base_url: &str) -> (url: String)
    ensures
        url@ == base_url@ + "/v0/bet"@,
{
    let mut url = base_url.to_owned();
    url.append(BET_PATH);
    url
}

} // verus!
