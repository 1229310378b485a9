//! The errors of the HTTP interface.
use vstd::prelude::*;
use vstd::string::*;
use crate::json::{Json, JsonView};
use crate::json;

verus! {

/// An error: the status of the reply, a code for programs, and a message for people.
#[derive(Debug)]
pub struct ApiError {
    pub status: u16,
    pub code: String,
    pub message: String,
}

/// Whether the error is the one.
pub open spec fn is_error(e: ApiError, status: u16, code: Seq<char>, message: Seq<char>) -> bool {
    e.status == status && e.code@ == code && e.message@ == message
}

/// An error.
pub fn api_error(status: u16, code: &str, message: &str) -> (r: ApiError)
    ensures
        is_error(r, status, code@, message@),
{
    ApiError { status, code: code.to_owned(), message: message.to_owned() }
}

/// The body of the reply with the error.
pub open spec fn error_body(code: Seq<char>, message: Seq<char>) -> JsonView {
    JsonView::Object(
        seq![
            (
                "error"@,
                JsonView::Object(
                    seq![("code"@, JsonView::Str(code)), ("message"@, JsonView::Str(message))],
                ),
            ),
        ],
    )
}

impl ApiError {
    /// The body of the reply.
    pub fn body(&self) -> (r: Json)
        ensures
            r@ == error_body(self.code@, self.message@),
    {
        let mut inner: Vec<(String, Json)> = json::no_members();
        json::put(&mut inner, "code", json::string(self.code.as_str()));
        json::put(&mut inner, "message", json::string(self.message.as_str()));
        let error = json::object(inner);
        assert(error@->Object_0 =~= error_body(self.code@, self.message@)->Object_0[0].1->Object_0);
        let mut members: Vec<(String, Json)> = json::no_members();
        json::put(&mut members, "error", error);
        let out = json::object(members);
        assert(out@->Object_0 =~= error_body(self.code@, self.message@)->Object_0);
        out
    }
}

/// What came of a request to the memory.
#[derive(Debug)]
pub enum MemoryReply {
    /// The memory did what it was asked.
    Done,
    /// The memory refused.
    Refused(String),
    /// The request could not be sent.
    NotSent(String),
    /// The memory is gone.
    Closed,
}

/// The error for a request to the memory, where it is one.
pub fn memory_error(reply: &MemoryReply) -> (r: Result<(), ApiError>)
    ensures
        match *reply {
            MemoryReply::Done => r is Ok,
            MemoryReply::Refused(why) => r matches Err(e) && is_error(
                e,
                500,
                "memory_error"@,
                why@,
            ),
            MemoryReply::NotSent(why) => r matches Err(e) && is_error(
                e,
                500,
                "memory_unavailable"@,
                why@,
            ),
            MemoryReply::Closed => r matches Err(e) && is_error(
                e,
                500,
                "memory_unavailable"@,
                "Memory actor channel closed"@,
            ),
        },
{
    match reply {
        MemoryReply::Done => Ok(()),
        MemoryReply::Refused(why) => Err(api_error(500, "memory_error", why.as_str())),
        MemoryReply::NotSent(why) => Err(api_error(500, "memory_unavailable", why.as_str())),
        MemoryReply::Closed => Err(
            api_error(500, "memory_unavailable", "Memory actor channel closed"),
        ),
    }
}

/// The body of a reply gives the code and the message of the error, each under its own name.
pub proof fn law_error_is_told(code: Seq<char>, message: Seq<char>)
    ensures
        error_body(code, message).get("error"@) matches Some(e) && e.text_at("code"@) == Some(code)
            && e.text_at("message"@) == Some(message),
{
    reveal_strlit("code");
    reveal_strlit("message");
    assert("code"@.len() == 4 && "message"@.len() == 7);
    let members = error_body(code, message)->Object_0;
    json::lemma_member_at(members, "error"@, 0);
    let inner = members[0].1->Object_0;
    json::lemma_member_at(inner, "code"@, 0);
    json::lemma_member_at(inner, "message"@, 1);
}

} // verus!
