//! Requests and replies, as plain values.
//!
//! Nothing in this crate sends bytes. A request is described here so that the
//! caller can send it, and what came back is described here so that the crate
//! can judge it.
use vstd::prelude::*;
use vstd::string::StringExecFns;
use crate::v1::error::ApiError;

verus! {

/// The method of a request.
#[derive(Clone, Copy, Debug, PartialEq, Eq, Structural)]
pub enum Method {
    Get,
    Post,
}

/// One header of a request.
#[derive(Clone, Debug)]
pub struct Header {
    pub name: String,
    pub value: String,
}

/// The content of a [`Header`].
pub struct HeaderModel {
    pub name: Seq<char>,
    pub value: Seq<char>,
}

impl View for Header {
    type V = HeaderModel;

    open spec fn view(&self) -> HeaderModel {
        HeaderModel { name: self.name@, value: self.value@ }
    }
}

/// A request that is ready to be sent, but for its body.
#[derive(Clone, Debug)]
pub struct HttpRequest {
    pub method: Method,
    pub url: String,
    pub headers: Vec<Header>,
}

/// The content of an [`HttpRequest`].
pub struct HttpRequestModel {
    pub method: Method,
    pub url: Seq<char>,
    pub headers: Seq<HeaderModel>,
}

impl View for HttpRequest {
    type V = HttpRequestModel;

    open spec fn view(&self) -> HttpRequestModel {
        HttpRequestModel {
            method: self.method,
            url: self.url@,
            headers: self.headers@.map_values(|header: Header| header@),
        }
    }
}

/// A response of the server.
#[derive(Clone, Debug)]
pub struct HttpReply {
    /// The status code.
    pub status: u16,
    /// The status as it is shown, such as `404 Not Found`.
    pub status_text: String,
    /// The body, as text.
    pub body: String,
}

/// What came of sending a request.
#[derive(Clone, Debug)]
pub enum HttpOutcome {
    /// No response came. The text says why.
    Failed(String),
    /// The server answered.
    Replied(HttpReply),
}

/// In which order the message of a refused request names status and body.
#[derive(Clone, Copy, Debug, PartialEq, Eq, Structural)]
pub enum MessageOrder {
    /// The status, a colon, the body.
    StatusFirst,
    /// The body, a colon, the status.
    BodyFirst,
}

/// Whether a status code says that the request succeeded.
pub open spec fn status_is_success(status: u16) -> bool {
    200 <= status < 300
}

/// The message for a reply whose status is no success.
pub open spec fn refusal_message(
    status_text: Seq<char>,
    body: Seq<char>,
    order: MessageOrder,
) -> Seq<char> {
    match order {
        MessageOrder::StatusFirst => status_text + ": "@ + body,
        MessageOrder::BodyFirst => body + ": "@ + status_text,
    }
}

/// The body of a successful reply, or the message of the error that the
/// outcome amounts to.
pub open spec fn accepted(outcome: HttpOutcome, order: MessageOrder) -> Result<
    Seq<char>,
    Seq<char>,
> {
    match outcome {
        HttpOutcome::Failed(reason) => Err(reason@),
        HttpOutcome::Replied(reply) => if status_is_success(reply.status) {
            Ok(reply.body@)
        } else {
            Err(refusal_message(reply.status_text@, reply.body@, order))
        },
    }
}

impl HttpReply {
    /// Whether the status says that the request succeeded.
    pub fn is_success(&self) -> (r: bool)
        ensures
            r == status_is_success(self.status),
    {
        200 <= self.status && self.status < 300
    }
}

/// Judges what came of a request: hands out the body of a successful reply,
/// and turns a failure to get a reply, or a reply with another status, into an
/// error.
pub fn accept(outcome: HttpOutcome, order: MessageOrder) -> (r: Result<String, ApiError>)
    ensures
        match accepted(outcome, order) {
            Ok(body) => r matches Ok(text) && text@ == body,
            Err(message) => r matches Err(error) && error.message@ == message,
        },
{
    match outcome {
        HttpOutcome::Failed(reason) => Err(ApiError { message: reason }),
        HttpOutcome::Replied(reply) => {
            if reply.is_success() {
                Ok(reply.body)
            } else {
                let message = match order {
                    MessageOrder::StatusFirst => reply.status_text.concat(": ").concat(
                        reply.body.as_str(),
                    ),
                    MessageOrder::BodyFirst => reply.body.concat(": ").concat(
                        reply.status_text.as_str(),
                    ),
                };
                Err(ApiError { message })
            }
        },
    }
}

} // verus!
