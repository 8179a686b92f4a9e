//! Error reporting of the management interface: an error and the chain of
//! causes behind it, rendered as one message.

use vstd::prelude::*;
use vstd::string::StringExecFns;

verus! {

/// What introduces each cause in a rendered message.
pub open spec fn cause_prefix() -> Seq<char> {
    "\n\tcaused by: "@
}

/// The message of an error followed by one line for each of its causes,
/// the nearest cause first.
pub open spec fn chained_message(top: Seq<char>, causes: Seq<Seq<char>>) -> Seq<char>
    decreases causes.len(),
{
    if causes.len() == 0 {
        top
    } else {
        chained_message(top, causes.drop_last()) + cause_prefix() + causes.last()
    }
}

/// Renders an error whose own message is `top` and whose causes, from the
/// nearest to the root, have the messages `causes`.
pub fn error_message(top: String, causes: &Vec<String>) -> (message: String)
    ensures
        message@ == chained_message(top@, causes.deep_view()),
{
    let mut message = top;
    let mut i: usize = 0;
    while i < causes.len()
        invariant
            i <= causes.len(),
            message@ == chained_message(top@, causes.deep_view().take(i as int)),
        decreases causes.len() - i,
    {
        proof {
            let done = causes.deep_view().take(i as int);
            let next = causes.deep_view().take(i + 1);
            assert(next.drop_last() =~= done);
            assert(next.last() == causes[i as int]@);
        }
        message.append("\n\tcaused by: ");
        message.append(causes[i].as_str());
        i = i + 1;
    }
    proof {
        assert(causes.deep_view().take(causes.len() as int) =~= causes.deep_view());
    }
    message
}

/// The JSON string literal that stands for `text`: `text` between double
/// quotes, with the characters that JSON cannot hold as they are escaped.
/// It is what `serde_json` makes of a string.
pub uninterp spec fn json_string(text: Seq<char>) -> Seq<char>;

/// The error type of `serde_json`, carried through and never looked into.
#[verifier::external_type_specification]
#[verifier::external_body]
pub struct ExJsonError(serde_json::Error);

/// Calls `serde_json::to_string` on a string slice. Where that call
/// succeeds, its result is a function of `text` alone, known here by the
/// name [`json_string`]. Nothing is claimed of when it succeeds.
#[verifier::external_body]
fn to_json_string(text: &str) -> (r: Result<String, serde_json::Error>)
    ensures
        r matches Ok(quoted) ==> quoted@ == json_string(text@),
{
    serde_json::to_string(text)
}

/// Why an error could not be answered.
#[derive(Clone, Copy, Debug, PartialEq, Eq, Structural)]
pub enum ReplyError {
    /// The description of the error could not be serialized.
    Serialization,
}

/// The status every error is answered with: an internal server error.
pub const ERROR_STATUS: u16 = 500;

/// The kind of body an answer carries.
#[derive(Clone, Copy, Debug, PartialEq, Eq, Structural)]
pub enum ContentType {
    Json,
}

/// An answer to a request that failed, as plain values: what goes into
/// the status line, the headers and the body.
#[derive(Clone, Debug, PartialEq, Eq)]
pub struct ErrorReply {
    pub status: u16,
    pub content_length: u64,
    pub content_type: ContentType,
    pub body: String,
}

/// Number of bytes that `text` takes on the wire.
pub open spec fn wire_len(text: Seq<char>) -> usize {
    vstd::utf8::encode_utf8(text).len() as usize
}

/// The description of an error as a JSON object: a single member,
/// `message`, whose value is the string literal `quoted`.
pub open spec fn error_body(quoted: Seq<char>) -> Seq<char> {
    "{\"message\":"@ + quoted + "}"@
}

/// The answer that carries `body`.
pub open spec fn reply_with(body: Seq<char>, reply: ErrorReply) -> bool {
    &&& reply.status == ERROR_STATUS
    &&& reply.content_length == wire_len(body)
    &&& reply.content_type == ContentType::Json
    &&& reply.body@ == body
}

/// The answer to a request that failed with a message whose JSON string
/// literal is `quoted`: an internal server error, with the description of
/// the error as its JSON body and the length of that body in bytes
/// announced.
pub fn error_reply(quoted: String) -> (reply: ErrorReply)
    ensures
        reply_with(error_body(quoted@), reply),
{
    let mut body = "{\"message\":".to_owned();
    body.append(quoted.as_str());
    body.append("}");
    let content_length = body.as_str().len() as u64;
    ErrorReply { status: ERROR_STATUS, content_length, content_type: ContentType::Json, body }
}

/// The answer to a request that failed, given what the serializer made
/// of the error's message: the reply around the string literal where
/// there is one, and an error where the serializer failed.
pub fn reply_or_error(serialized: Result<String, serde_json::Error>) -> (r: Result<
    ErrorReply,
    ReplyError,
>)
    ensures
        match serialized {
            Ok(quoted) => r matches Ok(reply) && reply_with(error_body(quoted@), reply),
            Err(_) => r == Err::<ErrorReply, ReplyError>(ReplyError::Serialization),
        },
{
    match serialized {
        Ok(quoted) => Ok(error_reply(quoted)),
        Err(_) => Err(ReplyError::Serialization),
    }
}

/// The answer to a request that failed with an error whose own message is
/// `top` and whose causes, from the nearest to the root, have the messages
/// `causes`. The messages are joined, serialized as a JSON string and sent
/// as the body of an internal server error. Whether the serializer
/// succeeds is its own affair; where it does, the reply is this one.
pub fn error_response(top: String, causes: &Vec<String>) -> (r: Result<ErrorReply, ReplyError>)
    ensures
        r matches Ok(reply) ==> reply_with(
            error_body(json_string(chained_message(top@, causes.deep_view()))),
            reply,
        ),
        r matches Err(e) ==> e == ReplyError::Serialization,
{
    let message = error_message(top, causes);
    reply_or_error(to_json_string(message.as_str()))
}

} // verus!
