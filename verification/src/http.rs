//! The HTTP capability module: `get` and `post` through one shared client,
//! created at session start and reused by reference for every request of
//! the session.  Each call is exactly one attempt — no retry — and each
//! failure is classified: missing client, broken exclusive-access state,
//! transport failure, or undecodable response body.
use vstd::prelude::*;

verus! {

#[verifier::external_type_specification]
#[verifier::external_body]
pub struct ExClient(reqwest::blocking::Client);

#[verifier::external_type_specification]
#[verifier::external_body]
pub struct ExRequestBuilder(reqwest::blocking::RequestBuilder);

#[verifier::external_type_specification]
#[verifier::external_body]
pub struct ExResponse(reqwest::blocking::Response);

/// Why an HTTP operation failed.
pub enum HttpError {
    /// The shared client was never set up for this session.
    Unavailable,
    /// A prior holder left the exclusive-access state around the shared
    /// client inconsistent; the client is reported unavailable rather than
    /// the inconsistency propagated.
    Poisoned,
    /// The transport could not complete the request; carries its message.
    Request(String),
    /// The response arrived but its body could not be decoded as text.
    Decode(String),
}

impl HttpError {
    /// The reported message for this failure.
    pub fn message(&self) -> (r: String)
        ensures
            match self {
                HttpError::Unavailable => r@ == "HTTP client not available"@,
                HttpError::Poisoned => r@ == "HTTP client lock poisoned"@,
                HttpError::Request(m) => r@ == m@,
                HttpError::Decode(m) => r@ == m@,
            },
    {
        match self {
            HttpError::Unavailable => "HTTP client not available".to_owned(),
            HttpError::Poisoned => "HTTP client lock poisoned".to_owned(),
            HttpError::Request(m) => m.clone(),
            HttpError::Decode(m) => m.clone(),
        }
    }
}

/// Relies on reqwest::blocking::Client::builder and ClientBuilder::build:
/// constructs the session's client, reporting rather than panicking when
/// the system configuration cannot be loaded.
#[verifier::external_body]
fn build_client() -> (r: Result<reqwest::blocking::Client, String>) {
    reqwest::blocking::Client::builder().build().map_err(|e| e.to_string())
}

/// Relies on reqwest::blocking::Client::get: prepares one GET request for
/// `url`.
#[verifier::external_body]
fn get_builder(client: &reqwest::blocking::Client, url: &str) -> (r:
    reqwest::blocking::RequestBuilder) {
    client.get(url)
}

/// Relies on reqwest::blocking::Client::post: prepares one POST request for
/// `url`.
#[verifier::external_body]
fn post_builder(client: &reqwest::blocking::Client, url: &str) -> (r:
    reqwest::blocking::RequestBuilder) {
    client.post(url)
}

/// Relies on reqwest::blocking::RequestBuilder::body: attaches the request
/// body.
#[verifier::external_body]
fn with_body(builder: reqwest::blocking::RequestBuilder, body: String) -> (r:
    reqwest::blocking::RequestBuilder) {
    builder.body(body)
}

/// Relies on reqwest::blocking::RequestBuilder::send: one attempt to issue
/// the request; the outcome depends on the network.
#[verifier::external_body]
fn send_request(builder: reqwest::blocking::RequestBuilder) -> (r: Result<
    reqwest::blocking::Response,
    String,
>) {
    builder.send().map_err(|e| e.to_string())
}

/// Relies on reqwest::blocking::Response::text: decodes the response body
/// as text.
#[verifier::external_body]
fn response_text(response: reqwest::blocking::Response) -> (r: Result<String, String>) {
    response.text().map_err(|e| e.to_string())
}

/// One session's shared HTTP client.  It is created once at session start
/// and every request of the session goes through it; a session whose
/// client could not be set up reports `Unavailable` on every request.
pub struct HttpSession {
    client: Option<reqwest::blocking::Client>,
}

impl HttpSession {
    /// Whether the shared client was set up for this session.
    pub closed spec fn available(self) -> bool {
        self.client is Some
    }

    /// Set up the session's shared client; the message explains a failure.
    pub fn create() -> (r: Result<HttpSession, String>)
        ensures
            match r {
                Ok(s) => s.available(),
                Err(_) => true,
            },
    {
        match build_client() {
            Ok(c) => Ok(HttpSession { client: Some(c) }),
            Err(m) => Err(m),
        }
    }

    /// A session whose shared client was never configured: every request
    /// on it reports `Unavailable`.
    pub fn without_client() -> (r: HttpSession)
        ensures
            !r.available(),
    {
        HttpSession { client: None }
    }

    /// Issue one GET request for `url` through the shared client: exactly
    /// one attempt, and exactly one outcome — the decoded response body, or
    /// a classified failure.  `Unavailable` is reported precisely when the
    /// session has no client.
    pub fn get(&self, url: &str) -> (r: Result<String, HttpError>)
        ensures
            (r == Result::<String, HttpError>::Err(HttpError::Unavailable)) <==> !self.available(),
            r matches Err(e) ==> !(e is Poisoned),
    {
        match &self.client {
            None => Err(HttpError::Unavailable),
            Some(client) => finish_request(send_request(get_builder(client, url))),
        }
    }

    /// Issue one POST request for `url` carrying `body`, as `get` does.
    pub fn post(&self, url: &str, body: String) -> (r: Result<String, HttpError>)
        ensures
            (r == Result::<String, HttpError>::Err(HttpError::Unavailable)) <==> !self.available(),
            r matches Err(e) ==> !(e is Poisoned),
    {
        match &self.client {
            None => Err(HttpError::Unavailable),
            Some(client) => finish_request(send_request(with_body(post_builder(client, url), body))),
        }
    }
}

/// Classify the outcome of one issued request: a transport failure is a
/// `Request` error; an undecodable body is a `Decode` error; otherwise the
/// decoded body text is returned as-is.
pub fn finish_request(sent: Result<reqwest::blocking::Response, String>) -> (r: Result<
    String,
    HttpError,
>)
    ensures
        sent matches Err(m) ==> r == Result::<String, HttpError>::Err(HttpError::Request(m)),
        sent is Ok ==> (r matches Ok(_) || r matches Err(HttpError::Decode(_))),
{
    match sent {
        Err(m) => Err(HttpError::Request(m)),
        Ok(response) => match response_text(response) {
            Ok(text) => Ok(text),
            Err(m) => Err(HttpError::Decode(m)),
        },
    }
}

} // verus!
