//! The request router: classifies an inbound HTTP request by method and path
//! into the one action the server takes on it. The caller performs the action;
//! this module only decides.

use vstd::prelude::*;
use vstd::utf8::encode_utf8;

verus! {

/// The request method, as far as this server distinguishes methods.
#[derive(Clone, Copy, PartialEq, Eq, Structural, Debug)]
pub enum Method {
    Options,
    Get,
    Post,
    Other,
}

/// What the server does with a request.
#[derive(Clone, Copy, PartialEq, Eq, Structural, Debug)]
pub enum RouteDecision {
    /// Answer 200 with the permissive CORS headers.
    CorsPreflight,
    /// Parse the body as a chat message and append it to the log; answer 201.
    SubmitMessage,
    /// Negotiate the protocol switch and hand the stream to a worker.
    OpenSocket,
    /// Answer 405.
    NotAllowed,
}

/// Whether `needle` occurs as a contiguous run anywhere in `hay`.
pub open spec fn contains_seq(hay: Seq<u8>, needle: Seq<u8>) -> bool {
    exists|i: int|
        0 <= i <= hay.len() - needle.len() && #[trigger] hay.subrange(i, i + needle.len())
            == needle
}

/// The path fragment that selects the message endpoints.
pub open spec fn messages_path() -> Seq<char> {
    "/messages"@
}

/// The routing rule: OPTIONS is always the CORS preflight; POST and GET act
/// on the messages endpoint when the URL mentions it and are refused
/// otherwise; every other method is refused.
pub open spec fn route_spec(m: Method, url: Seq<u8>) -> RouteDecision {
    match m {
        Method::Options => RouteDecision::CorsPreflight,
        Method::Post => if contains_seq(url, encode_utf8(messages_path())) {
            RouteDecision::SubmitMessage
        } else {
            RouteDecision::NotAllowed
        },
        Method::Get => if contains_seq(url, encode_utf8(messages_path())) {
            RouteDecision::OpenSocket
        } else {
            RouteDecision::NotAllowed
        },
        Method::Other => RouteDecision::NotAllowed,
    }
}

/// Whether `needle` occurs as a contiguous run anywhere in `hay`.
fn contains_bytes(hay: &[u8], needle: &[u8]) -> (r: bool)
    ensures
        r == contains_seq(hay@, needle@),
{
    let hlen = hay.len();
    let nlen = needle.len();
    if nlen > hlen {
        assert(!contains_seq(hay@, needle@));
        return false;
    }
    if nlen == 0 {
        proof {
            assert(hay@.subrange(0, 0 + needle@.len() as int) =~= needle@);
        }
        return true;
    }
    let mut i: usize = 0;
    while i <= hlen - nlen
        invariant
            1 <= nlen <= hlen,
            hlen == hay@.len(),
            nlen == needle@.len(),
            i <= hlen - nlen + 1,
            forall|k: int|
                0 <= k < i ==> #[trigger] hay@.subrange(k, k + needle@.len()) != needle@,
        decreases hlen - i,
    {
        let mut j: usize = 0;
        let mut matches = true;
        while matches && j < nlen
            invariant
                nlen <= hlen,
                hlen == hay@.len(),
                nlen == needle@.len(),
                i <= hlen - nlen,
                j <= nlen,
                matches ==> forall|t: int| 0 <= t < j ==> hay@[i + t] == needle@[t],
                !matches ==> hay@.subrange(i as int, i + needle@.len()) != needle@,
            decreases nlen - j + (if matches {
                1int
            } else {
                0int
            }),
        {
            if hay[i + j] != needle[j] {
                matches = false;
                proof {
                    assert(hay@.subrange(i as int, i + needle@.len())[j as int] != needle@[j as int]);
                }
            } else {
                j += 1;
            }
        }
        if matches {
            proof {
                assert(j == nlen);
            }
            proof {
                assert(hay@.subrange(i as int, i + needle@.len()) =~= needle@);
            }
            return true;
        }
        proof {
            assert(hay@.subrange(i as int, i + needle@.len()) != needle@);
        }
        i += 1;
    }
    proof {
        assert forall|k: int|
            0 <= k <= hay@.len() - needle@.len() implies #[trigger] hay@.subrange(
            k,
            k + needle@.len(),
        ) != needle@ by {
            assert(k < i);
        }
    }
    false
}

/// Classifies one request. The decision is exactly the routing rule applied
/// to the method and the URL's bytes.
pub fn route(m: Method, url: &str) -> (r: RouteDecision)
    ensures
        r == route_spec(m, encode_utf8(url@)),
{
    match m {
        Method::Options => RouteDecision::CorsPreflight,
        Method::Post => {
            if contains_bytes(url.as_bytes(), "/messages".as_bytes()) {
                RouteDecision::SubmitMessage
            } else {
                RouteDecision::NotAllowed
            }
        },
        Method::Get => {
            if contains_bytes(url.as_bytes(), "/messages".as_bytes()) {
                RouteDecision::OpenSocket
            } else {
                RouteDecision::NotAllowed
            }
        },
        Method::Other => RouteDecision::NotAllowed,
    }
}

/// The permissive CORS headers of the preflight answer, as name/value pairs.
pub fn cors_headers() -> (r: Vec<(String, String)>)
    ensures
        r@.len() == 3,
        r@[0].0@ == "Access-Control-Allow-Origin"@ && r@[0].1@ == "*"@,
        r@[1].0@ == "Access-Control-Allow-Methods"@ && r@[1].1@ == "POST, GET, OPTIONS"@,
        r@[2].0@ == "Access-Control-Allow-Headers"@ && r@[2].1@ == "Content-Type"@,
{
    let mut r: Vec<(String, String)> = Vec::new();
    r.push(("Access-Control-Allow-Origin".to_owned(), "*".to_owned()));
    r.push(("Access-Control-Allow-Methods".to_owned(), "POST, GET, OPTIONS".to_owned()));
    r.push(("Access-Control-Allow-Headers".to_owned(), "Content-Type".to_owned()));
    r
}

} // verus!
