use vstd::prelude::*;

verus! {

/// An image attached to an artist or album; only the URL is consumed
/// downstream.
pub struct Image {
    pub height: i32,
    pub url: String,
    pub width: i32,
}

/// One page of a paged endpoint: the items of this page and the cursor
/// of the next one (`None` terminates the walk).
pub struct Paging<Item> {
    pub href: String,
    pub items: Vec<Item>,
    pub limit: i32,
    pub next: Option<String>,
    pub offset: i32,
    pub previous: Option<String>,
    pub total: i32,
}

/// A plain error message, the shape in which transport and decoding
/// failures are reported upward.
pub struct SimpleError {
    pub message: String,
}

impl SimpleError {
    /// Wraps a message.
    pub fn new(message: String) -> (r: SimpleError)
        ensures
            r.message == message,
    {
        SimpleError { message }
    }

    /// The message text, for callers that would otherwise format the error.
    pub fn to_message(&self) -> (r: &String)
        ensures
            r == &self.message,
    {
        &self.message
    }
}

/// The failure modes of a single credentialed fetch.
#[derive(Debug, PartialEq, Eq)]
pub enum FetchError {
    /// Connection, TLS or body-read failure.
    Transport(String),
    /// A status other than 200, 401 or 429.
    UnexpectedStatus(u16),
    /// A 429 without a Retry-After header.
    NoRetryAfter,
    /// The body did not decode as the expected shape.
    Decode(String),
}

} // verus!
