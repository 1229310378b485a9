//! Requests about jobs in the background: lists, answers to questions that jobs ask, and
//! cancelling. The caller talks to the memory and to the agent.
use vstd::prelude::*;
use vstd::string::*;
use crate::api_error::{api_error, ApiError};
use crate::api_error;
use crate::bus::{self, InboundMessage};
use crate::json::{self, Json, JsonView};
use crate::pending::{PendingRequest, PendingTable};

verus! {

broadcast use vstd::string::group_string_axioms;

/// How many rows a list has where nothing is said.
pub const LIST_LIMIT_DEFAULT: usize = 100;

/// How many summaries of a thread are shown.
pub const THREAD_SUMMARY_LIMIT: usize = 50;

/// How many summaries are shown in all.
pub const ALL_SUMMARY_LIMIT: usize = 100;

/// How many rows a list has.
pub fn list_limit(asked: Option<usize>) -> (r: usize)
    ensures
        r == match asked {
            Some(n) => n,
            None => LIST_LIMIT_DEFAULT,
        },
{
    match asked {
        Some(n) => n,
        None => LIST_LIMIT_DEFAULT,
    }
}

/// A question that a job asks.
#[derive(Debug)]
pub struct ClarificationTicket {
    pub job_id: String,
    pub channel: String,
    pub chat_id: String,
    pub thread_id: Option<String>,
}

/// The question that an answer is for.
pub fn known_ticket(found: Option<ClarificationTicket>) -> (r: Result<ClarificationTicket, ApiError>)
    ensures
        match found {
            Some(t) => r == Ok::<ClarificationTicket, ApiError>(t),
            None => r matches Err(e) && api_error::is_error(
                e,
                404,
                "not_found"@,
                "Unknown clarification ticket"@,
            ),
        },
{
    match found {
        Some(t) => Ok(t),
        None => Err(api_error(404, "not_found", "Unknown clarification ticket")),
    }
}

/// What is under a key in the metadata of an answer.
pub open spec fn answer_under(job_id: Seq<char>, ticket_id: Seq<char>, key: Seq<char>) -> Option<
    JsonView,
> {
    if key == bus::METADATA_CLARIFICATION_TICKET_ID@ {
        Some(JsonView::Str(ticket_id))
    } else if key == bus::METADATA_SYNTHETIC_BACKGROUND_RESUME@ {
        Some(JsonView::Bool(true))
    } else if key == bus::METADATA_BACKGROUND_JOB_ID@ {
        Some(JsonView::Str(job_id))
    } else {
        None
    }
}

/// Writes the message that brings an answer to the job that asked.
pub fn answer_message(ticket: ClarificationTicket, ticket_id: &str, response: String) -> (r:
    InboundMessage)
    ensures
        r.channel == ticket.channel,
        r.sender_id@ == "notification_reply"@,
        r.chat_id == ticket.chat_id,
        r.thread_id == ticket.thread_id,
        r.content == response,
        r.attachments@.len() == 0,
        forall|k: Seq<char>| #[trigger]
            json::member(json::members_view(r.metadata@), k) == answer_under(
                ticket.job_id@,
                ticket_id@,
                k,
            ),
{
    let mut metadata: Vec<(String, Json)> = json::no_members();
    bus::set_metadata(
        &mut metadata,
        bus::METADATA_BACKGROUND_JOB_ID,
        json::string(ticket.job_id.as_str()),
    );
    bus::set_metadata(&mut metadata, bus::METADATA_SYNTHETIC_BACKGROUND_RESUME, Json::Bool(true));
    bus::set_metadata(
        &mut metadata,
        bus::METADATA_CLARIFICATION_TICKET_ID,
        json::string(ticket_id),
    );
    InboundMessage {
        channel: ticket.channel,
        sender_id: "notification_reply".to_owned(),
        chat_id: ticket.chat_id,
        thread_id: ticket.thread_id,
        content: response,
        attachments: Vec::new(),
        metadata,
    }
}

/// The answer where the agent could not be reached with an answer to a question.
pub fn answer_not_sent(why: &str) -> (r: ApiError)
    ensures
        api_error::is_error(
            r,
            500,
            "agent_queue_unavailable"@,
            "Failed to enqueue ticket response: "@ + why@,
        ),
{
    let mut message: String = "Failed to enqueue ticket response: ".to_owned();
    message.append(why);
    api_error(500, "agent_queue_unavailable", message.as_str())
}

/// Goes on after the agent was told to cancel a conversation. Once it was told, no request
/// waits there any more, so that the next can come at once.
pub fn after_cancel(table: &mut PendingTable, chat_id: &str, told: Result<(), String>) -> (r:
    Result<(), ApiError>)
    ensures
        match told {
            Ok(_) => r is Ok && final(table)@ == old(table)@.remove(chat_id@),
            Err(why) => final(table)@ == old(table)@ && (r matches Err(e) && api_error::is_error(
                e,
                500,
                "agent_unavailable"@,
                why@,
            )),
        },
{
    match told {
        Ok(_) => {
            let _taken: Option<PendingRequest> = table.release(chat_id);
            Ok(())
        },
        Err(why) => Err(api_error(500, "agent_unavailable", why.as_str())),
    }
}

/// The answer to a question names the question and the job that asked it, and says that the job
/// is taken up again. It says nothing else.
pub proof fn law_answer_names_its_job(job_id: Seq<char>, ticket_id: Seq<char>, key: Seq<char>)
    ensures
        answer_under(job_id, ticket_id, "isanagent_background_job_id"@) == Some(
            JsonView::Str(job_id),
        ),
        answer_under(job_id, ticket_id, "isanagent_clarification_ticket_id"@) == Some(
            JsonView::Str(ticket_id),
        ),
        answer_under(job_id, ticket_id, "isanagent_synthetic_background_resume"@) == Some(
            JsonView::Bool(true),
        ),
        key != "isanagent_background_job_id"@ && key != "isanagent_clarification_ticket_id"@ && key
            != "isanagent_synthetic_background_resume"@ ==> answer_under(
            job_id,
            ticket_id,
            key,
        ) is None,
{
    reveal_strlit("isanagent_background_job_id");
    reveal_strlit("isanagent_clarification_ticket_id");
    reveal_strlit("isanagent_synthetic_background_resume");
    assert("isanagent_background_job_id"@.len() == 27 && "isanagent_clarification_ticket_id"@.len()
        == 33 && "isanagent_synthetic_background_resume"@.len() == 37);
}

} // verus!
