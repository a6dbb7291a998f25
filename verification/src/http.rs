//! Requests to a web service and the status of its replies.
use crate::text::{begins_with, decimal};
use vstd::prelude::*;

verus! {

broadcast use vstd::string::group_string_axioms;

#[derive(Clone, Copy, PartialEq, Eq, Debug, Structural)]
pub enum HttpMethod {
    Get,
    Patch,
}

/// A request, ready to be sent.
pub struct HttpRequest {
    pub method: HttpMethod,
    pub url: String,
    /// The value of the `X-Api-Key` header, where the request carries one.
    pub api_key: Option<String>,
    /// A body of JSON text, sent with its content type.
    pub json: Option<String>,
}

/// The contents of a request.
pub struct HttpRequestView {
    pub method: HttpMethod,
    pub url: Seq<char>,
    pub api_key: Option<Seq<char>>,
    pub json: Option<Seq<char>>,
}

/// The contents of a text that may be missing.
pub open spec fn text_view(text: Option<String>) -> Option<Seq<char>> {
    match text {
        Some(t) => Some(t@),
        None => None,
    }
}

impl View for HttpRequest {
    type V = HttpRequestView;

    open spec fn view(&self) -> HttpRequestView {
        HttpRequestView {
            method: self.method,
            url: self.url@,
            api_key: text_view(self.api_key),
            json: text_view(self.json),
        }
    }
}

/// What is printed of a status code: the number and its standard phrase.
pub uninterp spec fn status_line(code: u16) -> Seq<char>;

/// Calls `reqwest::StatusCode::from_u16`, which knows exactly the codes from 100
/// to 999, and prints the status. What is printed is named `status_line`; it
/// begins with the number and a space.
#[verifier::external_body]
fn print_status(code: u16) -> (r: String)
    requires
        100 <= code <= 999,
    ensures
        r@ == status_line(code),
        begins_with(r@, decimal(code as nat).push(' ')),
{
    reqwest::StatusCode::from_u16(code).unwrap().to_string()
}

/// The JSON text of an object with two text members.
pub uninterp spec fn json_pair(
    first: Seq<char>,
    first_value: Seq<char>,
    second: Seq<char>,
    second_value: Seq<char>,
) -> Seq<char>;

/// Builds a `serde_json::Value` object by `Map::insert` and prints it. The text
/// is named `json_pair`.
#[verifier::external_body]
pub(crate) fn print_json_pair(first: &str, first_value: &str, second: &str, second_value: &str) -> (r:
    String)
    ensures
        r@ == json_pair(first@, first_value@, second@, second_value@),
{
    let mut members = serde_json::Map::new();
    members.insert(first.to_string(), serde_json::Value::String(first_value.to_string()));
    members.insert(second.to_string(), serde_json::Value::String(second_value.to_string()));
    serde_json::Value::Object(members).to_string()
}

/// The status code of a reply.
#[derive(Clone, Copy)]
pub struct HttpStatus {
    code: u16,
}

impl View for HttpStatus {
    type V = u16;

    closed spec fn view(&self) -> u16 {
        self.code
    }
}

/// A status code has three digits, the first of them not 0.
pub open spec fn is_status(code: u16) -> bool {
    100 <= code <= 999
}

/// The codes by which a service reports success.
pub open spec fn is_success_code(code: u16) -> bool {
    200 <= code < 300
}

impl HttpStatus {
    #[verifier::type_invariant]
    spec fn three_digits(self) -> bool {
        is_status(self.code)
    }

    /// The status with this code, where there is one.
    pub fn from_code(code: u16) -> (r: Option<HttpStatus>)
        ensures
            r is Some == is_status(code),
            r matches Some(status) ==> status@ == code,
    {
        if 100 <= code && code <= 999 {
            Some(HttpStatus { code })
        } else {
            None
        }
    }

    pub fn is_success(&self) -> (r: bool)
        ensures
            r == is_success_code(self@),
    {
        200 <= self.code && self.code < 300
    }

    /// The status in words.
    pub fn text(&self) -> (r: String)
        ensures
            r@ == status_line(self@),
            begins_with(r@, decimal(self@ as nat).push(' ')),
    {
        proof {
            use_type_invariant(self);
        }
        print_status(self.code)
    }
}

/// A status is a success exactly where it is one of the two hundreds, and every status has three
/// digits.
pub proof fn law_which_statuses_are_a_success(code: u16)
    ensures
        is_success_code(code) <==> code / 100 == 2,
        is_success_code(code) ==> is_status(code),
        is_status(code) <==> code / 100 >= 1 && code / 1000 == 0,
{
}

} // verus!
