use vstd::prelude::*;
use crate::config::ConfigError;
use crate::json::list_json;
use crate::json::render_list;
use crate::model::Ean;

verus! {

/// The four ways a request can fail: a configuration value is absent, the
/// database cannot be reached, the query cannot be prepared, or it fails
/// while it runs. At the HTTP boundary all four collapse into one generic
/// internal-error response.
#[derive(Clone, Copy, Debug, PartialEq, Eq, Structural)]
pub enum FetchError {
    Config(ConfigError),
    Connect,
    Prepare,
    Query,
}

/// What the service answers: a status code and the full response body.
#[derive(Clone, Debug, PartialEq, Eq)]
pub struct Response {
    pub status: u16,
    pub body: String,
}

/// The generic body of every failure response; it leaks no internal detail.
pub open spec fn error_body() -> Seq<char> {
    seq!['I', 'n', 't', 'e', 'r', 'n', 'a', 'l', ' ', 'S', 'e', 'r', 'v', 'e', 'r', ' ', 'E', 'r', 'r', 'o', 'r']
}

pub open spec fn json_content_type() -> Seq<char> {
    seq!['a', 'p', 'p', 'l', 'i', 'c', 'a', 't', 'i', 'o', 'n', '/', 'j', 's', 'o', 'n']
}

pub open spec fn text_content_type() -> Seq<char> {
    seq!['t', 'e', 'x', 't', '/', 'p', 'l', 'a', 'i', 'n']
}

impl Response {
    /// The content type the response is served with: JSON for the listing,
    /// plain text for the generic failure body.
    pub fn content_type(&self) -> (r: String)
        ensures
            self.status == 200 ==> r@ == json_content_type(),
            self.status != 200 ==> r@ == text_content_type(),
    {
        if self.status == 200 {
            let r = String::from_str("application/json");
            proof {
                reveal_strlit("application/json");
                assert(r@ =~= json_content_type());
            }
            r
        } else {
            let r = String::from_str("text/plain");
            proof {
                reveal_strlit("text/plain");
                assert(r@ =~= text_content_type());
            }
            r
        }
    }
}

/// The one fixed query the service runs: both columns of the listing table,
/// no parameters, no pagination.
pub open spec fn listing_query_spec() -> Seq<char> {
    seq!['S', 'E', 'L', 'E', 'C', 'T', ' ', 'e', 'a', 'n', ',', ' ', 'n', 'a', 'm', 'e', ' ', 'F', 'R', 'O', 'M', ' ', 'e', 'a', 'n', 's']
}

/// Renders the fixed query text for the database client.
pub fn listing_query() -> (r: String)
    ensures
        r@ == listing_query_spec(),
{
    let r = String::from_str("SELECT ean, name FROM eans");
    proof {
        reveal_strlit("SELECT ean, name FROM eans");
        assert(r@ =~= listing_query_spec());
    }
    r
}

/// Decides the response once the database work is over. A successful fetch
/// is answered with status 200 and the listing serialised as a JSON array,
/// in the fetched order; every failure is answered with status 500 and the
/// fixed generic body — all or nothing, never a partial listing.
pub fn handle_fetch(outcome: Result<Vec<Ean>, FetchError>) -> (r: Response)
    ensures
        match outcome {
            Ok(es) => r.status == 200 && r.body@ == list_json(es@),
            Err(_) => r.status == 500 && r.body@ == error_body(),
        },
{
    match outcome {
        Ok(es) => Response { status: 200, body: render_list(&es) },
        Err(_) => {
            let body = String::from_str("Internal Server Error");
            proof {
                reveal_strlit("Internal Server Error");
                assert(body@ =~= error_body());
            }
            Response { status: 500, body }
        },
    }
}

} // verus!
