//! The error taxonomy of the API and the status code of each error.

use vstd::prelude::*;
use vstd::string::*;
use vstd::utf8::encode_utf8;

verus! {

/// A failure that an API operation reports to its caller.
#[derive(Debug)]
pub enum ApiErrors {
    NotFound(String),
    BadRequest(String),
    InternalError(String),
}

impl ApiErrors {
    /// The HTTP status code of an error of this kind.
    pub open spec fn spec_status_code(&self) -> u16 {
        match self {
            ApiErrors::NotFound(_) => 404,
            ApiErrors::BadRequest(_) => 400,
            ApiErrors::InternalError(_) => 500,
        }
    }

    /// The text that was given when the error was made.
    pub open spec fn spec_message(&self) -> Seq<char> {
        match self {
            ApiErrors::NotFound(msg) => msg@,
            ApiErrors::BadRequest(msg) => msg@,
            ApiErrors::InternalError(msg) => msg@,
        }
    }

    /// The reason phrase of the error's status code.
    pub open spec fn spec_default_message(&self) -> Seq<char> {
        match self {
            ApiErrors::NotFound(_) => "Not Found"@,
            ApiErrors::BadRequest(_) => "Bad Request"@,
            ApiErrors::InternalError(_) => "Internal Server Error"@,
        }
    }

    pub fn status_code(&self) -> (code: u16)
        ensures
            code == self.spec_status_code(),
            code == 404 || code == 400 || code == 500,
    {
        match self {
            ApiErrors::NotFound(_) => 404,
            ApiErrors::BadRequest(_) => 400,
            ApiErrors::InternalError(_) => 500,
        }
    }

    pub fn message(&self) -> (text: &str)
        ensures
            text@ == self.spec_message(),
    {
        match self {
            ApiErrors::NotFound(msg) => msg.as_str(),
            ApiErrors::BadRequest(msg) => msg.as_str(),
            ApiErrors::InternalError(msg) => msg.as_str(),
        }
    }

    pub fn default_message(&self) -> (text: &'static str)
        ensures
            text@ == self.spec_default_message(),
    {
        match self {
            ApiErrors::NotFound(_) => "Not Found",
            ApiErrors::BadRequest(_) => "Bad Request",
            ApiErrors::InternalError(_) => "Internal Server Error",
        }
    }

    /// A 404 with the given text.
    pub fn not_found(text: &str) -> (e: ApiErrors)
        ensures
            e matches ApiErrors::NotFound(msg) && msg@ == text@,
    {
        ApiErrors::NotFound(String::from_str(text))
    }

    /// A 400 with the given text.
    pub fn bad_request(text: &str) -> (e: ApiErrors)
        ensures
            e matches ApiErrors::BadRequest(msg) && msg@ == text@,
    {
        ApiErrors::BadRequest(String::from_str(text))
    }

    /// A 500 with the given text.
    pub fn internal_error(text: &str) -> (e: ApiErrors)
        ensures
            e matches ApiErrors::InternalError(msg) && msg@ == text@,
    {
        ApiErrors::InternalError(String::from_str(text))
    }
}

/// `needle` stands in `hay` from the place `at` on.
pub open spec fn occurs_at(hay: Seq<u8>, needle: Seq<u8>, at: int) -> bool {
    0 <= at && at + needle.len() <= hay.len() && hay.subrange(at, at + needle.len()) == needle
}

/// `needle` stands somewhere in `hay`.
pub open spec fn contains_bytes(hay: Seq<u8>, needle: Seq<u8>) -> bool {
    exists|at: int| occurs_at(hay, needle, at)
}

/// One of the values of the `Accept` header names `text/html`.
pub open spec fn spec_wants_html(accept: Seq<String>) -> bool {
    exists|i: int|
        0 <= i < accept.len() && contains_bytes(
            encode_utf8((#[trigger] accept[i])@),
            encode_utf8("text/html"@),
        )
}

/// Whether `needle` stands somewhere in `hay`, byte for byte.
pub fn text_contains(hay: &str, needle: &str) -> (found: bool)
    ensures
        found == contains_bytes(encode_utf8(hay@), encode_utf8(needle@)),
{
    let h = hay.as_bytes();
    let n = needle.as_bytes();
    if n.len() > h.len() {
        return false;
    }
    let last = h.len() - n.len();
    let mut at: usize = 0;
    while at <= last
        invariant
            h@ == encode_utf8(hay@),
            n@ == encode_utf8(needle@),
            n.len() <= h.len(),
            last == h.len() - n.len(),
            0 <= at <= last + 1,
            forall|a: int| 0 <= a < at ==> !occurs_at(h@, n@, a),
        decreases last + 1 - at,
    {
        let mut k: usize = 0;
        while k < n.len() && h[at + k] == n[k]
            invariant
                n.len() <= h.len(),
                last == h.len() - n.len(),
                at <= last,
                0 <= k <= n.len(),
                forall|j: int| 0 <= j < k ==> h@[at + j] == n@[j],
            decreases n.len() - k,
        {
            k = k + 1;
        }
        if k == n.len() {
            assert(h@.subrange(at as int, at + n.len()) =~= n@);
            assert(occurs_at(h@, n@, at as int));
            return true;
        }
        assert(!occurs_at(h@, n@, at as int)) by {
            if occurs_at(h@, n@, at as int) {
                assert(h@.subrange(at as int, at + n.len())[k as int] == n@[k as int]);
            }
        }
        at = at + 1;
    }
    false
}

/// Whether an error is to be shown as a page rather than as JSON: it is
/// where one of the values of the `Accept` header names `text/html`.
pub fn wants_html(accept: &Vec<String>) -> (html: bool)
    ensures
        html == spec_wants_html(accept@),
{
    let mut i: usize = 0;
    while i < accept.len()
        invariant
            0 <= i <= accept.len(),
            forall|j: int|
                0 <= j < i ==> !contains_bytes(
                    encode_utf8((#[trigger] accept[j])@),
                    encode_utf8("text/html"@),
                ),
        decreases accept.len() - i,
    {
        if text_contains(accept[i].as_str(), "text/html") {
            return true;
        }
        i = i + 1;
    }
    false
}

impl From<String> for ApiErrors {
    /// A bare message is an internal error.
    fn from(message: String) -> (e: ApiErrors) {
        ApiErrors::InternalError(message)
    }
}

impl vstd::std_specs::convert::FromSpecImpl<String> for ApiErrors {
    open spec fn obeys_from_spec() -> bool {
        true
    }

    open spec fn from_spec(message: String) -> ApiErrors {
        ApiErrors::InternalError(message)
    }
}

} // verus!
