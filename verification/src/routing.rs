//! Where a message goes: to a turn of its own, behind the turn that runs in its chat, or to
//! a background job that waits for it. The caller starts and stops the turns.
use vstd::prelude::*;
use vstd::string::*;
use crate::api_error::MemoryReply;
use crate::bus::{
    get_background_job_id, metadata_text, metadata_truthy, set_metadata, InboundMessage,
    OutboundMessage, BACKGROUND_JOB_FINISHED, BACKGROUND_JOB_STARTED, METADATA_BACKGROUND_JOB_ID,
    METADATA_BACKGROUND_JOB_STATUS, METADATA_BACKGROUND_JOB_TOOL_NAME,
    METADATA_CLARIFICATION_TICKET_ID, METADATA_SYNTHETIC_BACKGROUND_RESUME,
    METADATA_SYNTHETIC_CRON_TRIGGER, METADATA_SYNTHETIC_JOB_FOLLOWUP,
    METADATA_SYNTHETIC_SUBAGENT_COMPLETION,
};
use crate::bus;
use crate::chat_table::{ChatTable, ChatView};
use crate::chat_table;
use crate::json::{Json, JsonView};
use crate::json;
use crate::message::{ChatMessage, MessageView, ToolCallRequest, ToolCallView};
use crate::message;
use crate::text;
use crate::tool_call::WAITING_FOR_USER_RESULT_PREFIX;

verus! {

broadcast use vstd::string::group_string_axioms;

// ---------------------------------------------------------------------------
// Messages that come in
// ---------------------------------------------------------------------------

/// The clarification ticket that a message answers.
pub fn ticket_of(inbound: &InboundMessage) -> (r: Option<String>)
    ensures
        r.deep_view() == bus::text_under(
            json::members_view(inbound.metadata@),
            METADATA_CLARIFICATION_TICKET_ID@,
        ),
{
    metadata_text(&inbound.metadata, METADATA_CLARIFICATION_TICKET_ID)
}

/// What becomes of a message that came in.
#[derive(Debug)]
pub enum Received {
    /// It is dropped: a schedule sent it, and a turn runs in the chat.
    Dropped,
    /// It waits for the turn that runs in the chat.
    Queued,
    /// No turn runs in the chat.
    Free(InboundMessage),
}

/// Whether a message was taken in as the state of its chat demands: while a turn runs it waits,
/// unless a schedule sent it.
pub open spec fn is_taken_in(
    before: ChatTable,
    after: ChatTable,
    inbound: InboundMessage,
    r: Received,
) -> bool {
    let chat = before.chat(inbound.chat_id@);
    if chat.turn is None {
        r == Received::Free(inbound) && after == before
    } else if bus::says_yes(
        json::members_view(inbound.metadata@),
        METADATA_SYNTHETIC_CRON_TRIGGER@,
    ) {
        r is Dropped && after == before
    } else {
        r is Queued && after.changed_to(
            before,
            inbound.chat_id@,
            ChatView { queue: chat.queue.push(inbound), ..chat },
        )
    }
}

/// Takes a message in. While a turn runs in its chat it waits, unless a schedule sent it.
pub fn receive(table: &mut ChatTable, inbound: InboundMessage) -> (r: Received)
    ensures
        is_taken_in(*old(table), *final(table), inbound, r),
{
    if table.turn_in(inbound.chat_id.as_str()).is_none() {
        return Received::Free(inbound);
    }
    if metadata_truthy(&inbound.metadata, METADATA_SYNTHETIC_CRON_TRIGGER) {
        return Received::Dropped;
    }
    let chat_id: String = inbound.chat_id.clone();
    table.enqueue(chat_id.as_str(), inbound);
    Received::Queued
}

/// Whether a message may wake a background job of its chat that waits: it answers no ticket
/// expressly.
pub fn may_wake_job(inbound: &InboundMessage) -> (r: bool)
    ensures
        r == !bus::says_yes(
            json::members_view(inbound.metadata@),
            METADATA_CLARIFICATION_TICKET_ID@,
        ),
{
    !metadata_truthy(&inbound.metadata, METADATA_CLARIFICATION_TICKET_ID)
}

/// A background job, as the memory knows it.
#[derive(Debug)]
pub struct BackgroundJob {
    pub job_id: String,
    pub state: String,
}

/// The jobs that wait.
pub open spec fn waiting(jobs: Seq<BackgroundJob>) -> Seq<BackgroundJob> {
    jobs.filter(|j: BackgroundJob| j.state@ == "waiting"@)
}

/// Picks the jobs that wait, in their order.
pub fn waiting_jobs(jobs: Vec<BackgroundJob>) -> (r: Vec<BackgroundJob>)
    ensures
        r@ == waiting(jobs@),
{
    let ghost given = jobs@;
    let ghost waits = |j: BackgroundJob| j.state@ == "waiting"@;
    let mut kept: Vec<BackgroundJob> = Vec::new();
    proof {
        reveal(Seq::filter);
        assert(kept@ =~= given.take(0).filter(waits));
    }
    for job in it: jobs
        invariant
            it.seq() == given,
            waits == (|j: BackgroundJob| j.state@ == "waiting"@),
            kept@ == given.take(it.index()).filter(waits),
    {
        proof {
            reveal(Seq::filter);
            assert(given.take(it.index() + 1).drop_last() =~= given.take(it.index()));
        }
        if text::same(job.state.as_str(), "waiting") {
            kept.push(job);
        }
    }
    assert(given.take(given.len() as int) =~= given);
    kept
}

/// The tool of the first call with the id.
pub open spec fn tool_called(calls: Seq<ToolCallView>, id: Seq<char>) -> Option<Seq<char>>
    decreases calls.len(),
{
    if calls.len() == 0 {
        None
    } else if calls[0].id == id {
        Some(calls[0].name)
    } else {
        tool_called(calls.drop_first(), id)
    }
}

/// The tool of the call with the id, in the latest message of the assistant that has one.
pub open spec fn latest_tool_called(ms: Seq<MessageView>, id: Seq<char>) -> Option<Seq<char>>
    decreases ms.len(),
{
    if ms.len() == 0 {
        None
    } else {
        let here = if ms.last().role == "assistant"@ && ms.last().tool_calls is Some {
            tool_called(ms.last().tool_calls->0, id)
        } else {
            None
        };
        if here is Some {
            here
        } else {
            latest_tool_called(ms.drop_last(), id)
        }
    }
}

fn find_tool_called(calls: &Vec<ToolCallRequest>, id: &str) -> (r: Option<String>)
    ensures
        r.deep_view() == tool_called(calls.deep_view(), id@),
{
    let ghost all = calls.deep_view();
    let mut i: usize = 0;
    assert(all.skip(0) =~= all);
    while i < calls.len()
        invariant
            i <= calls@.len(),
            all == calls.deep_view(),
            tool_called(all, id@) == tool_called(all.skip(i as int), id@),
        decreases calls@.len() - i,
    {
        assert(all.skip(i as int).drop_first() =~= all.skip(i + 1));
        assert(all[i as int] == calls@[i as int].deep_view());
        if text::same(calls[i].id.as_str(), id) {
            return Some(calls[i].function.name.clone());
        }
        i = i + 1;
    }
    None
}

/// Finds the tool of the call that a reply answers.
pub fn tool_name_for_resume(context: &[ChatMessage], id: &str) -> (r: Option<String>)
    ensures
        r.deep_view() == latest_tool_called(context.deep_view(), id@),
{
    let ghost ms = context.deep_view();
    let mut i: usize = context.len();
    assert(ms.take(i as int) =~= ms);
    while i > 0
        invariant
            i <= context@.len(),
            ms == context.deep_view(),
            latest_tool_called(ms, id@) == latest_tool_called(ms.take(i as int), id@),
        decreases i,
    {
        i = i - 1;
        assert(ms.take(i + 1).drop_last() =~= ms.take(i as int));
        assert(ms.take(i + 1).last() == ms[i as int]);
        assert(ms[i as int] == context@[i as int].deep_view());
        if text::same(context[i].role.as_str(), "assistant") {
            if let Some(calls) = &context[i].tool_calls {
                let found: Option<String> = find_tool_called(calls, id);
                if found.is_some() {
                    return found;
                }
            }
        }
    }
    None
}

/// Writes the message in the conversation with which a reply answers the call that waited
/// for it.
pub fn reply_message(content: &str, tool_call_id: &str, context: &[ChatMessage]) -> (r: ChatMessage)
    ensures
        r.deep_view() == message::tool_message(
            content@,
            tool_call_id@,
            latest_tool_called(context.deep_view(), tool_call_id@),
            None,
        ),
{
    let name: Option<String> = tool_name_for_resume(context, tool_call_id);
    match &name {
        Some(n) => ChatMessage::tool(content, tool_call_id, Some(n.as_str())),
        None => ChatMessage::tool(content, tool_call_id, None),
    }
}

/// What the message with which a background job goes on has under the key.
pub open spec fn resumed_under(
    metadata: Seq<(Seq<char>, JsonView)>,
    job_id: Seq<char>,
    key: Seq<char>,
) -> Option<JsonView> {
    if key == METADATA_BACKGROUND_JOB_ID@ {
        Some(JsonView::Str(job_id))
    } else if key == METADATA_SYNTHETIC_BACKGROUND_RESUME@ {
        Some(JsonView::Bool(true))
    } else {
        json::member(metadata, key)
    }
}

/// Marks the message with which a background job goes on.
pub fn mark_resumed(inbound: &mut InboundMessage, job_id: &str)
    ensures
        final(inbound).channel == old(inbound).channel,
        final(inbound).sender_id == old(inbound).sender_id,
        final(inbound).chat_id == old(inbound).chat_id,
        final(inbound).thread_id == old(inbound).thread_id,
        final(inbound).content == old(inbound).content,
        final(inbound).attachments == old(inbound).attachments,
        forall|k: Seq<char>|
            #[trigger] json::member(json::members_view(final(inbound).metadata@), k)
                == resumed_under(json::members_view(old(inbound).metadata@), job_id@, k),
{
    set_metadata(&mut inbound.metadata, METADATA_SYNTHETIC_BACKGROUND_RESUME, Json::Bool(true));
    set_metadata(&mut inbound.metadata, METADATA_BACKGROUND_JOB_ID, json::string(job_id));
}

/// Writes why a background job could not go on, whose ticket was answered expressly or not.
pub fn resume_failure(expressly: bool, job_id: &str, error: &str) -> (r: String)
    ensures
        r@ == resume_failed(expressly, job_id@, error@),
{
    let mut out: String = if expressly {
        "Failed to resume background job [".to_owned()
    } else {
        "Failed to auto-resume background job [".to_owned()
    };
    out.append(job_id);
    out.append("]: ");
    out.append(error);
    out
}

// ---------------------------------------------------------------------------
// The way of a message
// ---------------------------------------------------------------------------

/// A question that a background job has asked, and the call that waits for its answer.
#[derive(Debug)]
pub struct OpenTicket {
    pub ticket_id: String,
    pub job_id: String,
    pub tool_call_id: Option<String>,
}

/// What is done next with a message that came in.
#[derive(Debug)]
pub enum ArrivalStep {
    /// It is offered to the question that its session waits for an answer to.
    Offer { inbound: InboundMessage, session_key: String },
    /// The ticket that it answers expressly is looked up.
    FindTicket { inbound: InboundMessage, ticket_id: String },
    /// The background jobs of its chat are looked up.
    ListJobs { inbound: InboundMessage },
    /// The open ticket of this job is looked up; the other jobs come after it.
    FindJobTicket { inbound: InboundMessage, job_id: String, rest: Vec<BackgroundJob> },
    /// It is stored as the answer to the ticket.
    Resolve { inbound: InboundMessage, ticket: OpenTicket, expressly: bool },
    /// The conversation is read in which the call stands that it answers.
    ReadContext {
        inbound: InboundMessage,
        ticket: OpenTicket,
        expressly: bool,
        tool_call_id: String,
    },
    /// The answer is put into the conversation.
    Append {
        inbound: InboundMessage,
        ticket: OpenTicket,
        expressly: bool,
        message: ChatMessage,
    },
    /// A turn starts with it.
    Start(InboundMessage),
    /// The chat is told that the job does not go on.
    Tell { inbound: InboundMessage, error: String },
    /// Nothing is left to do.
    Done,
}

/// The session that a message belongs to.
pub open spec fn session_of(inbound: InboundMessage) -> Seq<char> {
    bus::session_key(inbound.channel@, inbound.chat_id@, inbound.thread_id.deep_view())
}

fn session_key_of(inbound: &InboundMessage) -> (r: String)
    ensures
        r@ == session_of(*inbound),
{
    let thread: Option<&str> = match &inbound.thread_id {
        Some(t) => Some(t.as_str()),
        None => None,
    };
    bus::clarification_session_key(inbound.channel.as_str(), inbound.chat_id.as_str(), thread)
}

/// Takes up a message: first it is offered as a reply.
pub fn arrive(inbound: InboundMessage) -> (r: ArrivalStep)
    ensures
        r matches ArrivalStep::Offer { inbound: i, session_key } && i == inbound && session_key@
            == session_of(inbound),
{
    let session_key: String = session_key_of(&inbound);
    ArrivalStep::Offer { inbound, session_key }
}

/// The step, and the chats, after a message was let in: while a turn runs in its chat it
/// waits, unless a schedule sent it; else it may wake a job or starts a turn.
pub open spec fn is_let_in(
    before: ChatTable,
    after: ChatTable,
    inbound: InboundMessage,
    step: ArrivalStep,
) -> bool {
    let chat = before.chat(inbound.chat_id@);
    let metadata = json::members_view(inbound.metadata@);
    if chat.turn is None {
        &&& after == before
        &&& step == if bus::says_yes(metadata, METADATA_CLARIFICATION_TICKET_ID@) {
            ArrivalStep::Start(inbound)
        } else {
            ArrivalStep::ListJobs { inbound }
        }
    } else if bus::says_yes(metadata, METADATA_SYNTHETIC_CRON_TRIGGER@) {
        step is Done && after == before
    } else {
        step is Done && after.changed_to(
            before,
            inbound.chat_id@,
            ChatView { queue: chat.queue.push(inbound), ..chat },
        )
    }
}

fn let_in(table: &mut ChatTable, inbound: InboundMessage) -> (r: ArrivalStep)
    ensures
        is_let_in(*old(table), *final(table), inbound, r),
{
    match receive(table, inbound) {
        Received::Dropped | Received::Queued => ArrivalStep::Done,
        Received::Free(inbound) => {
            if may_wake_job(&inbound) {
                ArrivalStep::ListJobs { inbound }
            } else {
                ArrivalStep::Start(inbound)
            }
        },
    }
}

/// Whether the step follows once the message was offered as a reply: one that nobody waited for
/// goes on.
pub open spec fn follows_offer(
    before: ChatTable,
    after: ChatTable,
    inbound: InboundMessage,
    taken: bool,
    r: ArrivalStep,
) -> bool {
    if taken {
        r is Done && after == before
    } else {
        match bus::text_under(
            json::members_view(inbound.metadata@),
            METADATA_CLARIFICATION_TICKET_ID@,
        ) {
            Some(id) => after == before && (r matches ArrivalStep::FindTicket {
                inbound: i,
                ticket_id,
            } && i == inbound && ticket_id@ == id),
            None => is_let_in(before, after, inbound, r),
        }
    }
}

/// Decides what follows once the message was offered as a reply: one that nobody waited for
/// goes on.
pub fn after_offer(table: &mut ChatTable, inbound: InboundMessage, taken: bool) -> (r: ArrivalStep)
    ensures
        follows_offer(*old(table), *final(table), inbound, taken, r),
{
    if taken {
        return ArrivalStep::Done;
    }
    match ticket_of(&inbound) {
        Some(ticket_id) => ArrivalStep::FindTicket { inbound, ticket_id },
        None => let_in(table, inbound),
    }
}

/// Whether the step follows once the ticket was looked up that the message answers expressly.
pub open spec fn follows_ticket(
    before: ChatTable,
    after: ChatTable,
    inbound: InboundMessage,
    found: Option<OpenTicket>,
    r: ArrivalStep,
) -> bool {
    match found {
        Some(ticket) => after == before && r == (ArrivalStep::Resolve {
            inbound,
            ticket,
            expressly: true,
        }),
        None => is_let_in(before, after, inbound, r),
    }
}

/// Decides what follows once the ticket was looked up that the message answers expressly.
pub fn after_ticket(
    table: &mut ChatTable,
    inbound: InboundMessage,
    found: Option<OpenTicket>,
) -> (r: ArrivalStep)
    ensures
        follows_ticket(*old(table), *final(table), inbound, found, r),
{
    match found {
        Some(ticket) => ArrivalStep::Resolve { inbound, ticket, expressly: true },
        None => let_in(table, inbound),
    }
}

/// Whether the step asks for the ticket of the first of the jobs, or starts a turn where
/// there is none.
pub open spec fn asks_first(
    inbound: InboundMessage,
    jobs: Seq<BackgroundJob>,
    step: ArrivalStep,
) -> bool {
    if jobs.len() == 0 {
        step == ArrivalStep::Start(inbound)
    } else {
        step matches ArrivalStep::FindJobTicket { inbound: i, job_id, rest } && i == inbound
            && job_id == jobs[0].job_id && rest@ == jobs.drop_first()
    }
}

fn ask_first(inbound: InboundMessage, jobs: Vec<BackgroundJob>) -> (r: ArrivalStep)
    ensures
        asks_first(inbound, jobs@, r),
{
    let mut rest: Vec<BackgroundJob> = jobs;
    if rest.len() == 0 {
        return ArrivalStep::Start(inbound);
    }
    let first = rest.remove(0);
    assert(rest@ =~= jobs@.drop_first());
    ArrivalStep::FindJobTicket { inbound, job_id: first.job_id, rest }
}

/// Decides what follows once the jobs of the chat were looked up: those that wait are asked
/// for their tickets, in their order.
pub fn after_jobs(inbound: InboundMessage, jobs: Vec<BackgroundJob>) -> (r: ArrivalStep)
    ensures
        asks_first(inbound, waiting(jobs@), r),
{
    let jobs: Vec<BackgroundJob> = waiting_jobs(jobs);
    ask_first(inbound, jobs)
}

/// Whether the step follows once the open ticket of a job was looked up: the message answers it,
/// or the next job is asked.
pub open spec fn follows_job_ticket(
    inbound: InboundMessage,
    job_id: String,
    rest: Seq<BackgroundJob>,
    found: Option<OpenTicket>,
    r: ArrivalStep,
) -> bool {
    match found {
        Some(ticket) => r == (ArrivalStep::Resolve {
            inbound,
            ticket: OpenTicket { job_id, ..ticket },
            expressly: false,
        }),
        None => asks_first(inbound, rest, r),
    }
}

/// Decides what follows once the open ticket of a job was looked up: the message answers it,
/// or the next job is asked.
pub fn after_job_ticket(
    inbound: InboundMessage,
    job_id: String,
    rest: Vec<BackgroundJob>,
    found: Option<OpenTicket>,
) -> (r: ArrivalStep)
    ensures
        follows_job_ticket(inbound, job_id, rest@, found, r),
{
    match found {
        Some(ticket) => ArrivalStep::Resolve {
            inbound,
            ticket: OpenTicket {
                ticket_id: ticket.ticket_id,
                job_id,
                tool_call_id: ticket.tool_call_id,
            },
            expressly: false,
        },
        None => ask_first(inbound, rest),
    }
}

/// The text under which the chat is told that a job does not go on.
pub open spec fn resume_failed(expressly: bool, job_id: Seq<char>, error: Seq<char>) -> Seq<char> {
    (if expressly {
        "Failed to resume background job ["@
    } else {
        "Failed to auto-resume background job ["@
    }) + job_id + "]: "@ + error
}

/// Whether the step tells the chat that the job does not go on, and why.
pub open spec fn tells(
    step: ArrivalStep,
    inbound: InboundMessage,
    ticket: OpenTicket,
    expressly: bool,
    error: Seq<char>,
) -> bool {
    step matches ArrivalStep::Tell { inbound: i, error: e } && i == inbound && e@ == resume_failed(
        expressly,
        ticket.job_id@,
        error,
    )
}

fn tell(inbound: InboundMessage, ticket: &OpenTicket, expressly: bool, error: &str) -> (r:
    ArrivalStep)
    ensures
        tells(r, inbound, *ticket, expressly, error@),
{
    let error: String = resume_failure(expressly, ticket.job_id.as_str(), error);
    ArrivalStep::Tell { inbound, error }
}

/// Whether the message is the one with which a job goes on, made of another.
pub open spec fn is_resumed(r: InboundMessage, inbound: InboundMessage, job_id: Seq<char>) -> bool {
    &&& r.channel == inbound.channel
    &&& r.sender_id == inbound.sender_id
    &&& r.chat_id == inbound.chat_id
    &&& r.thread_id == inbound.thread_id
    &&& r.content == inbound.content
    &&& r.attachments == inbound.attachments
    &&& forall|k: Seq<char>|
        #[trigger] json::member(json::members_view(r.metadata@), k) == resumed_under(
            json::members_view(inbound.metadata@),
            job_id,
            k,
        )
}

/// Whether a turn starts with which the job goes on.
pub open spec fn resumes(step: ArrivalStep, inbound: InboundMessage, ticket: OpenTicket) -> bool {
    step matches ArrivalStep::Start(i) && is_resumed(i, inbound, ticket.job_id@)
}

fn resume(inbound: InboundMessage, ticket: &OpenTicket) -> (r: ArrivalStep)
    ensures
        resumes(r, inbound, *ticket),
{
    let mut resumed: InboundMessage = inbound;
    mark_resumed(&mut resumed, ticket.job_id.as_str());
    ArrivalStep::Start(resumed)
}

/// Why the memory did not store an answer, where it did not.
pub open spec fn resolve_error(reply: MemoryReply) -> Option<Seq<char>> {
    match reply {
        MemoryReply::Done => None,
        MemoryReply::NotSent(why) => Some("Memory actor error: "@ + why@),
        MemoryReply::Closed => Some("Memory actor channel closed"@),
        MemoryReply::Refused(why) => Some("Memory node failed to resolve ticket fully: "@ + why@),
    }
}

fn write_resolve_error(reply: &MemoryReply) -> (r: Option<String>)
    ensures
        r.deep_view() == resolve_error(*reply),
{
    match reply {
        MemoryReply::Done => None,
        MemoryReply::NotSent(why) => {
            let mut out: String = "Memory actor error: ".to_owned();
            out.append(why.as_str());
            Some(out)
        },
        MemoryReply::Closed => Some("Memory actor channel closed".to_owned()),
        MemoryReply::Refused(why) => {
            let mut out: String = "Memory node failed to resolve ticket fully: ".to_owned();
            out.append(why.as_str());
            Some(out)
        },
    }
}

/// Whether the step follows once the answer to the ticket was stored: it goes to the call that
/// waits for it, where one does, and a turn starts.
pub open spec fn follows_resolve(
    inbound: InboundMessage,
    ticket: OpenTicket,
    expressly: bool,
    reply: MemoryReply,
    r: ArrivalStep,
) -> bool {
    match (resolve_error(reply), ticket.tool_call_id) {
        (Some(why), _) => tells(r, inbound, ticket, expressly, why),
        (None, None) => resumes(r, inbound, ticket),
        (None, Some(id)) => r matches ArrivalStep::ReadContext {
            inbound: i,
            ticket: t,
            expressly: e,
            tool_call_id,
        } && i == inbound && t == ticket && e == expressly && tool_call_id@ == id@,
    }
}

/// Decides what follows once the answer to the ticket was stored: it goes to the call that
/// waits for it, where one does, and a turn starts.
pub fn after_resolve(
    inbound: InboundMessage,
    ticket: OpenTicket,
    expressly: bool,
    reply: &MemoryReply,
) -> (r: ArrivalStep)
    ensures
        follows_resolve(inbound, ticket, expressly, *reply, r),
{
    if let Some(why) = write_resolve_error(reply) {
        return tell(inbound, &ticket, expressly, why.as_str());
    }
    let waiting_call: Option<String> = match &ticket.tool_call_id {
        Some(id) => Some(id.clone()),
        None => None,
    };
    match waiting_call {
        Some(tool_call_id) => ArrivalStep::ReadContext { inbound, ticket, expressly, tool_call_id },
        None => resume(inbound, &ticket),
    }
}

/// Whether the step follows once the conversation was read; there is none where the session
/// cannot be had.
pub open spec fn follows_context(
    inbound: InboundMessage,
    ticket: OpenTicket,
    expressly: bool,
    tool_call_id: Seq<char>,
    context: Option<Seq<MessageView>>,
    r: ArrivalStep,
) -> bool {
    match context {
        None => tells(
            r,
            inbound,
            ticket,
            expressly,
            "Failed to get session "@ + session_of(inbound),
        ),
        Some(ms) => r matches ArrivalStep::Append {
            inbound: i,
            ticket: t,
            expressly: e,
            message: m,
        } && i == inbound && t == ticket && e == expressly && m.deep_view()
            == message::tool_message(
            inbound.content@,
            tool_call_id,
            latest_tool_called(ms, tool_call_id),
            None,
        ),
    }
}

/// Decides what follows once the conversation was read; there is none where the session
/// cannot be had.
pub fn after_context(
    inbound: InboundMessage,
    ticket: OpenTicket,
    expressly: bool,
    tool_call_id: &str,
    context: Option<Vec<ChatMessage>>,
) -> (r: ArrivalStep)
    ensures
        follows_context(inbound, ticket, expressly, tool_call_id@, context.deep_view(), r),
{
    match context {
        None => {
            let mut why: String = "Failed to get session ".to_owned();
            why.append(session_key_of(&inbound).as_str());
            tell(inbound, &ticket, expressly, why.as_str())
        },
        Some(ms) => {
            let message: ChatMessage = reply_message(
                inbound.content.as_str(),
                tool_call_id,
                ms.as_slice(),
            );
            ArrivalStep::Append { inbound, ticket, expressly, message }
        },
    }
}

/// Whether the step follows once the answer was put into the conversation.
pub open spec fn follows_append(
    inbound: InboundMessage,
    ticket: OpenTicket,
    expressly: bool,
    stored: Result<(), String>,
    r: ArrivalStep,
) -> bool {
    match stored {
        Ok(()) => resumes(r, inbound, ticket),
        Err(e) => tells(
            r,
            inbound,
            ticket,
            expressly,
            "Failed to inject tool response into memory: "@ + e@,
        ),
    }
}

/// Decides what follows once the answer was put into the conversation.
pub fn after_append(
    inbound: InboundMessage,
    ticket: OpenTicket,
    expressly: bool,
    stored: Result<(), String>,
) -> (r: ArrivalStep)
    ensures
        follows_append(inbound, ticket, expressly, stored, r),
{
    match stored {
        Ok(()) => resume(inbound, &ticket),
        Err(e) => {
            let mut why: String = "Failed to inject tool response into memory: ".to_owned();
            why.append(e.as_str());
            tell(inbound, &ticket, expressly, why.as_str())
        },
    }
}

/// The waiting jobs are asked one after the other, in their order and none twice, as long as
/// none has an open ticket. Once the last one had none, a turn starts with the message as it
/// came.
pub proof fn law_jobs_are_asked_in_order(
    inbound: InboundMessage,
    jobs: Seq<BackgroundJob>,
    asked: int,
    rest: Vec<BackgroundJob>,
    next: ArrivalStep,
)
    requires
        0 <= asked < jobs.len(),
        rest@ == jobs.skip(asked).drop_first(),
        asks_first(inbound, rest@, next),
    ensures
        asks_first(inbound, jobs.skip(asked + 1), next),
        asked + 1 == jobs.len() <==> next == ArrivalStep::Start(inbound),
        asked + 1 < jobs.len() ==> next->FindJobTicket_job_id == jobs[asked + 1].job_id,
{
    assert(jobs.skip(asked).drop_first() =~= jobs.skip(asked + 1));
}

/// A message that no schedule sent is not dropped when it is let in: it goes on, or it waits
/// behind all the others in its chat.
pub proof fn law_message_is_not_dropped(
    before: ChatTable,
    after: ChatTable,
    inbound: InboundMessage,
    step: ArrivalStep,
)
    requires
        is_let_in(before, after, inbound, step),
        !bus::says_yes(json::members_view(inbound.metadata@), METADATA_SYNTHETIC_CRON_TRIGGER@),
    ensures
        ({
            ||| step == ArrivalStep::Start(inbound)
            ||| step == (ArrivalStep::ListJobs { inbound })
            ||| step is Done && after.chat(inbound.chat_id@).queue == before.chat(
                inbound.chat_id@,
            ).queue.push(inbound)
        }),
{
}

// ---------------------------------------------------------------------------
// Turns
// ---------------------------------------------------------------------------

/// Whether nobody waits for the turn: a schedule, a job or a sub-agent began it.
pub open spec fn is_background(metadata: Seq<(Seq<char>, JsonView)>) -> bool {
    bus::says_yes(metadata, METADATA_SYNTHETIC_CRON_TRIGGER@) || bus::says_yes(
        metadata,
        METADATA_SYNTHETIC_JOB_FOLLOWUP@,
    ) || bus::says_yes(metadata, METADATA_SYNTHETIC_SUBAGENT_COMPLETION@) || bus::says_yes(
        metadata,
        METADATA_SYNTHETIC_BACKGROUND_RESUME@,
    )
}

/// Decides whether nobody waits for the turn that the message begins.
pub fn is_background_turn(inbound: &InboundMessage) -> (r: bool)
    ensures
        r == is_background(json::members_view(inbound.metadata@)),
{
    metadata_truthy(&inbound.metadata, METADATA_SYNTHETIC_CRON_TRIGGER) || metadata_truthy(
        &inbound.metadata,
        METADATA_SYNTHETIC_JOB_FOLLOWUP,
    ) || metadata_truthy(&inbound.metadata, METADATA_SYNTHETIC_SUBAGENT_COMPLETION)
        || metadata_truthy(&inbound.metadata, METADATA_SYNTHETIC_BACKGROUND_RESUME)
}

/// A turn with which a background job goes on is one that nobody waits for.
pub proof fn law_resumed_turn_is_background(
    before: Seq<(Seq<char>, JsonView)>,
    after: Seq<(Seq<char>, JsonView)>,
    job_id: Seq<char>,
)
    requires
        forall|k: Seq<char>| #[trigger] json::member(after, k) == resumed_under(before, job_id, k),
    ensures
        is_background(after),
        bus::text_under(after, METADATA_BACKGROUND_JOB_ID@) == Some(job_id),
{
    reveal_strlit("isanagent_background_job_id");
    reveal_strlit("isanagent_synthetic_background_resume");
    assert(METADATA_BACKGROUND_JOB_ID@.len() != METADATA_SYNTHETIC_BACKGROUND_RESUME@.len());
}

/// A turn that is about to run.
#[derive(Debug)]
pub struct TurnStart {
    pub is_background: bool,
    pub background_job_id: Option<String>,
    pub session_key: String,
}

/// Starts a turn in the chat of the message.
pub fn start_turn(table: &mut ChatTable, inbound: &InboundMessage, turn: u64) -> (r: TurnStart)
    ensures
        final(table).changed_to(
            *old(table),
            inbound.chat_id@,
            ChatView { turn: Some(turn), ..old(table).chat(inbound.chat_id@) },
        ),
        r.is_background == is_background(json::members_view(inbound.metadata@)),
        r.background_job_id.deep_view() == bus::text_under(
            json::members_view(inbound.metadata@),
            METADATA_BACKGROUND_JOB_ID@,
        ),
        r.session_key@ == bus::session_key(
            inbound.channel@,
            inbound.chat_id@,
            inbound.thread_id.deep_view(),
        ),
{
    table.start_turn(inbound.chat_id.as_str(), turn);
    let thread: Option<&str> = match &inbound.thread_id {
        Some(t) => Some(t.as_str()),
        None => None,
    };
    TurnStart {
        is_background: is_background_turn(inbound),
        background_job_id: get_background_job_id(&inbound.metadata),
        session_key: bus::clarification_session_key(
            inbound.channel.as_str(),
            inbound.chat_id.as_str(),
            thread,
        ),
    }
}

/// How a turn came to its end.
#[derive(Debug)]
pub enum TurnEnd {
    Answered(String),
    Failed(String),
    Panicked,
}

/// What is told, and stored, of a turn that panicked.
pub const PANIC_NOTICE: &'static str =
    "Internal error: reasoning loop panicked and was stopped.";

/// What the chat is told of a turn that did not come to an answer.
pub open spec fn error_of(end: TurnEnd) -> Option<Seq<char>> {
    match end {
        TurnEnd::Answered(_) => None,
        TurnEnd::Failed(e) => Some(e@),
        TurnEnd::Panicked => Some(PANIC_NOTICE@),
    }
}

/// Writes what the chat is told of a turn that did not come to an answer.
pub fn turn_error(end: &TurnEnd) -> (r: Option<String>)
    ensures
        r.deep_view() == error_of(*end),
{
    match end {
        TurnEnd::Answered(_) => None,
        TurnEnd::Failed(e) => Some(e.clone()),
        TurnEnd::Panicked => Some(PANIC_NOTICE.to_owned()),
    }
}

/// The state of a background job after its turn, and the error with it.
pub open spec fn job_state(end: TurnEnd, cancelled: bool) -> (Seq<char>, Option<Seq<char>>) {
    match end {
        TurnEnd::Answered(s) => if text::starts_with(s@, WAITING_FOR_USER_RESULT_PREFIX@) {
            ("waiting"@, None)
        } else if cancelled {
            ("failed"@, Some("Cancelled"@))
        } else {
            ("completed"@, None)
        },
        TurnEnd::Failed(e) => ("failed"@, Some(e@)),
        TurnEnd::Panicked => ("failed"@, Some("Panic in reasoning loop"@)),
    }
}

/// Decides in what state a background job is after its turn, and with what error.
pub fn job_state_after(end: &TurnEnd, cancelled: bool) -> (r: (String, Option<String>))
    ensures
        (r.0@, r.1.deep_view()) == job_state(*end, cancelled),
{
    match end {
        TurnEnd::Answered(s) => {
            if text::begins_with(s.as_str(), WAITING_FOR_USER_RESULT_PREFIX) {
                ("waiting".to_owned(), None)
            } else if cancelled {
                ("failed".to_owned(), Some("Cancelled".to_owned()))
            } else {
                ("completed".to_owned(), None)
            }
        },
        TurnEnd::Failed(e) => ("failed".to_owned(), Some(e.clone())),
        TurnEnd::Panicked => ("failed".to_owned(), Some("Panic in reasoning loop".to_owned())),
    }
}

/// A background job is completed if and only if its turn was answered, was not cancelled, and
/// does not wait for the user. A job whose turn did not come to an answer has failed, with the
/// error of the turn where there is one; a job that has not failed has no error.
pub proof fn law_job_ends_as_its_turn_does(end: TurnEnd, cancelled: bool)
    ensures
        ({
            let (state, last_error) = job_state(end, cancelled);
            let waits = end matches TurnEnd::Answered(s) && text::starts_with(
                s@,
                WAITING_FOR_USER_RESULT_PREFIX@,
            );
            &&& state == "completed"@ <==> end is Answered && !cancelled && !waits
            &&& state == "waiting"@ <==> waits
            &&& state == "failed"@ <==> !(end is Answered) || (cancelled && !waits)
            &&& state == "failed"@ <==> last_error is Some
            &&& end matches TurnEnd::Failed(e) ==> last_error == Some(e@)
            &&& end is Answered && cancelled && !waits ==> last_error == Some("Cancelled"@)
            &&& end is Panicked ==> last_error == Some("Panic in reasoning loop"@)
        }),
{
    reveal_strlit("completed");
    reveal_strlit("waiting");
    reveal_strlit("failed");
    assert("completed"@[0] == 'c' && "waiting"@[0] == 'w' && "failed"@[0] == 'f');
}

proof fn lemma_job_keys_differ()
    ensures
        METADATA_BACKGROUND_JOB_ID@ != METADATA_BACKGROUND_JOB_STATUS@,
        METADATA_BACKGROUND_JOB_ID@ != METADATA_BACKGROUND_JOB_TOOL_NAME@,
        METADATA_BACKGROUND_JOB_ID@ != BACKGROUND_JOB_FINISHED@,
        METADATA_BACKGROUND_JOB_ID@ != BACKGROUND_JOB_STARTED@,
        METADATA_BACKGROUND_JOB_STATUS@ != METADATA_BACKGROUND_JOB_TOOL_NAME@,
        METADATA_BACKGROUND_JOB_STATUS@ != BACKGROUND_JOB_FINISHED@,
        METADATA_BACKGROUND_JOB_STATUS@ != BACKGROUND_JOB_STARTED@,
        METADATA_BACKGROUND_JOB_TOOL_NAME@ != BACKGROUND_JOB_FINISHED@,
        METADATA_BACKGROUND_JOB_TOOL_NAME@ != BACKGROUND_JOB_STARTED@,
        BACKGROUND_JOB_FINISHED@ != BACKGROUND_JOB_STARTED@,
{
    reveal_strlit("isanagent_background_job_id");
    reveal_strlit("isanagent_background_job_status");
    reveal_strlit("isanagent_background_job_started");
    reveal_strlit("isanagent_background_job_finished");
    reveal_strlit("isanagent_background_job_tool_name");
    assert(METADATA_BACKGROUND_JOB_ID@.len() == 27);
    assert(METADATA_BACKGROUND_JOB_STATUS@.len() == 31);
    assert(BACKGROUND_JOB_STARTED@.len() == 32);
    assert(BACKGROUND_JOB_FINISHED@.len() == 33);
    assert(METADATA_BACKGROUND_JOB_TOOL_NAME@.len() == 34);
}

/// The end of a background job is told in the words for the state that is stored, under its
/// own id, in the chat that the message came from, and as an end.
pub proof fn law_job_end_is_told_as_stored(
    r: JobEnd,
    inbound: InboundMessage,
    job_id: Seq<char>,
    end: TurnEnd,
    cancelled: bool,
)
    requires
        is_job_end(r, inbound, job_id, end, cancelled),
    ensures
        r.job_id@ == job_id,
        r.notice.content@ == "Background task finished: "@ + r.state@,
        r.notice.channel@ == inbound.channel@,
        r.notice.chat_id@ == inbound.chat_id@,
        r.notice.thread_id == inbound.thread_id,
        json::member(json::members_view(r.notice.metadata@), METADATA_BACKGROUND_JOB_ID@) == Some(
            JsonView::Str(job_id),
        ),
        json::member(json::members_view(r.notice.metadata@), METADATA_BACKGROUND_JOB_STATUS@)
            == Some(JsonView::Str(r.state@)),
        json::member(json::members_view(r.notice.metadata@), BACKGROUND_JOB_FINISHED@) == Some(
            JsonView::Bool(true),
        ),
        json::member(json::members_view(r.notice.metadata@), BACKGROUND_JOB_STARTED@) is None,
        !(end is Answered) ==> r.state@ == "failed"@ && r.last_error is Some,
        end matches TurnEnd::Failed(e) ==> r.last_error.deep_view() == Some(e@),
        end is Answered && !cancelled && !text::starts_with(
            end->Answered_0@,
            WAITING_FOR_USER_RESULT_PREFIX@,
        ) ==> r.state@ == "completed"@ && r.last_error is None,
{
    lemma_job_keys_differ();
}

/// The start of a background job is told as such, under its id.
pub proof fn law_job_start_is_told(
    r: OutboundMessage,
    inbound: InboundMessage,
    job_id: Seq<char>,
    status: Option<Seq<char>>,
)
    requires
        is_job_notice(r, inbound, job_id, true, status),
    ensures
        r.content@ == "Background task started..."@,
        r.chat_id@ == inbound.chat_id@,
        json::member(json::members_view(r.metadata@), METADATA_BACKGROUND_JOB_ID@) == Some(
            JsonView::Str(job_id),
        ),
        json::member(json::members_view(r.metadata@), BACKGROUND_JOB_STARTED@) == Some(
            JsonView::Bool(true),
        ),
        json::member(json::members_view(r.metadata@), BACKGROUND_JOB_FINISHED@) is None,
        json::member(json::members_view(r.metadata@), METADATA_BACKGROUND_JOB_STATUS@) is None,
{
    lemma_job_keys_differ();
}

/// A background job whose turn waits for the user is in the state in which a reply of the
/// chat takes it up again.
pub proof fn law_waiting_job_can_be_woken(ticket: Seq<char>, answer: String, cancelled: bool, job: BackgroundJob)
    requires
        answer@ == WAITING_FOR_USER_RESULT_PREFIX@ + ticket,
        job.state@ == job_state(TurnEnd::Answered(answer), cancelled).0,
    ensures
        waiting(seq![job]) == seq![job],
{
    text::lemma_starts_with_concat(WAITING_FOR_USER_RESULT_PREFIX@, ticket);
    reveal_with_fuel(Seq::filter, 3);
    let waits = |j: BackgroundJob| j.state@ == "waiting"@;
    assert(seq![job].drop_last() =~= Seq::empty());
    assert(seq![job].filter(waits) =~= seq![job]);
}

/// What the notice about a background job has under the key.
pub open spec fn job_notice_under(
    job_id: Seq<char>,
    is_start: bool,
    status: Option<Seq<char>>,
    key: Seq<char>,
) -> Option<JsonView> {
    if key == METADATA_BACKGROUND_JOB_ID@ {
        Some(JsonView::Str(job_id))
    } else if is_start {
        if key == METADATA_BACKGROUND_JOB_TOOL_NAME@ {
            Some(JsonView::Str("background_reasoning"@))
        } else if key == BACKGROUND_JOB_STARTED@ {
            Some(JsonView::Bool(true))
        } else {
            None
        }
    } else if key == METADATA_BACKGROUND_JOB_STATUS@ && status is Some {
        Some(JsonView::Str(status->0))
    } else if key == BACKGROUND_JOB_FINISHED@ {
        Some(JsonView::Bool(true))
    } else {
        None
    }
}

/// Whether the message is the notice that a background job has started, or finished in the
/// state.
pub open spec fn is_job_notice(
    r: OutboundMessage,
    inbound: InboundMessage,
    job_id: Seq<char>,
    is_start: bool,
    status: Option<Seq<char>>,
) -> bool {
    &&& r.channel@ == inbound.channel@
    &&& r.chat_id@ == inbound.chat_id@
    &&& r.thread_id == inbound.thread_id
    &&& r.content@ == if is_start {
        "Background task started..."@
    } else {
        "Background task finished: "@ + match status {
            Some(s) => s,
            None => "unknown"@,
        }
    }
    &&& forall|k: Seq<char>|
        #[trigger] json::member(json::members_view(r.metadata@), k) == job_notice_under(
            job_id,
            is_start,
            status,
            k,
        )
}

/// Writes the notice that a background job has started, or finished in the state.
pub fn background_job_notification(
    inbound: &InboundMessage,
    job_id: &str,
    is_start: bool,
    status: Option<&str>,
) -> (r: OutboundMessage)
    ensures
        is_job_notice(r, *inbound, job_id@, is_start, status.deep_view()),
{
    let mut metadata: Vec<(String, Json)> = json::no_members();
    if is_start {
        set_metadata(&mut metadata, BACKGROUND_JOB_STARTED, Json::Bool(true));
        set_metadata(
            &mut metadata,
            METADATA_BACKGROUND_JOB_TOOL_NAME,
            json::string("background_reasoning"),
        );
    } else {
        set_metadata(&mut metadata, BACKGROUND_JOB_FINISHED, Json::Bool(true));
        if let Some(s) = status {
            set_metadata(&mut metadata, METADATA_BACKGROUND_JOB_STATUS, json::string(s));
        }
    }
    set_metadata(&mut metadata, METADATA_BACKGROUND_JOB_ID, json::string(job_id));
    let content: String = if is_start {
        "Background task started...".to_owned()
    } else {
        let mut text: String = "Background task finished: ".to_owned();
        match status {
            Some(s) => text.append(s),
            None => text.append("unknown"),
        }
        text
    };
    OutboundMessage {
        channel: inbound.channel.clone(),
        chat_id: inbound.chat_id.clone(),
        thread_id: match &inbound.thread_id {
            Some(t) => Some(t.clone()),
            None => None,
        },
        content,
        metadata,
    }
}

/// The end of a background job, as it is stored and told.
#[derive(Debug)]
pub struct JobEnd {
    pub job_id: String,
    pub state: String,
    pub last_error: Option<String>,
    pub notice: OutboundMessage,
}

/// What is stored and told of a turn that came to its end.
#[derive(Debug)]
pub struct TurnReport {
    /// What is stored in the conversation.
    pub stored: Option<String>,
    /// The error that the chat is told of.
    pub error: Option<String>,
    /// The end of the background job that the turn belongs to.
    pub job: Option<JobEnd>,
}

/// Whether the end of a background job is told as it came.
pub open spec fn is_job_end(
    r: JobEnd,
    inbound: InboundMessage,
    job_id: Seq<char>,
    end: TurnEnd,
    cancelled: bool,
) -> bool {
    let (state, last_error) = job_state(end, cancelled);
    &&& r.job_id@ == job_id
    &&& r.state@ == state
    &&& r.last_error.deep_view() == last_error
    &&& is_job_notice(r.notice, inbound, job_id, false, Some(state))
}

/// Whether this is what is stored and told of a turn that came to its end.
pub open spec fn is_report_of(
    r: TurnReport,
    inbound: InboundMessage,
    background_job_id: Option<Seq<char>>,
    end: TurnEnd,
    cancelled: bool,
) -> bool {
    &&& r.stored.deep_view() == match end {
        TurnEnd::Panicked => Some(PANIC_NOTICE@),
        _ => None,
    }
    &&& r.error.deep_view() == error_of(end)
    &&& match background_job_id {
        Some(job_id) => r.job matches Some(job) && is_job_end(
            job,
            inbound,
            job_id,
            end,
            cancelled,
        ),
        None => r.job is None,
    }
}

/// Puts together what is stored and told of a turn that came to its end.
pub fn conclude_turn(
    inbound: &InboundMessage,
    background_job_id: Option<&str>,
    end: &TurnEnd,
    cancelled: bool,
) -> (r: TurnReport)
    ensures
        is_report_of(r, *inbound, background_job_id.deep_view(), *end, cancelled),
{
    let stored: Option<String> = match end {
        TurnEnd::Panicked => Some(PANIC_NOTICE.to_owned()),
        _ => None,
    };
    let job: Option<JobEnd> = match background_job_id {
        Some(job_id) => {
            let (state, last_error) = job_state_after(end, cancelled);
            let notice = background_job_notification(inbound, job_id, false, Some(state.as_str()));
            Some(JobEnd { job_id: job_id.to_owned(), state, last_error, notice })
        },
        None => None,
    };
    TurnReport { stored, error: turn_error(end), job }
}

// ---------------------------------------------------------------------------
// Compaction on demand
// ---------------------------------------------------------------------------

/// Why a conversation is not compacted on demand: its key names no chat, or a turn runs in
/// the chat.
pub open spec fn compaction_refusal(session_key: Seq<char>, busy: bool) -> Option<Seq<char>> {
    let pieces = text::split_at_char(session_key, ':');
    if pieces.len() < 2 {
        Some("Malformed session_key (expected `channel:chat_id:thread`): "@ + session_key)
    } else if busy {
        Some("Refusing manual compaction: reasoning turn in flight for chat_id="@ + pieces[1])
    } else {
        None
    }
}

/// The chat that a session key names.
pub open spec fn chat_in_key(session_key: Seq<char>) -> Seq<char> {
    text::split_at_char(session_key, ':')[1]
}

/// What a compaction on demand is about.
#[derive(Debug)]
pub struct CompactionTarget {
    pub chat_id: String,
    /// The beginning of the keys under which the summaries of the chat are stored.
    pub summary_prefix: String,
}

/// Decides whether a conversation is compacted on demand: between turns only.
pub fn compaction_target(table: &ChatTable, session_key: &str) -> (r: Result<CompactionTarget, String>)
    ensures
        match compaction_refusal(session_key@, table.chat(chat_in_key(session_key@)).turn is Some) {
            Some(why) => r matches Err(e) && e@ == why,
            None => r matches Ok(t) && t.chat_id@ == chat_in_key(session_key@) && t.summary_prefix@
                == text::split_at_char(session_key@, ':')[0] + ":"@ + chat_in_key(
                session_key@,
            ),
        },
{
    let pieces: Vec<String> = text::pieces_between(session_key, ':');
    let ghost all = text::split_at_char(session_key@, ':');
    assert(pieces.deep_view() == all);
    if pieces.len() < 2 {
        let mut why: String = "Malformed session_key (expected `channel:chat_id:thread`): ".to_owned();
        why.append(session_key);
        return Err(why);
    }
    assert(all[0] == pieces@[0]@ && all[1] == pieces@[1]@);
    let chat_id: String = pieces[1].clone();
    if table.turn_in(chat_id.as_str()).is_some() {
        let mut why: String =
            "Refusing manual compaction: reasoning turn in flight for chat_id=".to_owned();
        why.append(chat_id.as_str());
        return Err(why);
    }
    let mut summary_prefix: String = pieces[0].clone();
    summary_prefix.append(":");
    summary_prefix.append(chat_id.as_str());
    Ok(CompactionTarget { chat_id, summary_prefix })
}

// ---------------------------------------------------------------------------
// Laws
// ---------------------------------------------------------------------------

/// What waits in a chat comes out in the order in which it came in: a message that has come
/// behind others comes out after all of them, and with none before it, it comes out next.
pub proof fn law_messages_wait_in_order(
    before: ChatTable,
    queued: ChatTable,
    after: ChatTable,
    inbound: InboundMessage,
    turn: u64,
)
    requires
        is_let_in(before, queued, inbound, ArrivalStep::Done),
        !bus::says_yes(json::members_view(inbound.metadata@), METADATA_SYNTHETIC_CRON_TRIGGER@),
        after.changed_to(
            queued,
            inbound.chat_id@,
            chat_table::without_turn(queued.chat(inbound.chat_id@), turn),
        ),
    ensures
        ({
            let waited = before.chat(inbound.chat_id@).queue;
            let next = chat_table::next_of(queued.chat(inbound.chat_id@));
            let left = after.chat(inbound.chat_id@).queue;
            if waited.len() > 0 {
                next == Some(waited[0]) && left == waited.drop_first().push(inbound)
            } else {
                next == Some(inbound) && left.len() == 0
            }
        }),
{
    let waited = before.chat(inbound.chat_id@).queue;
    if waited.len() > 0 {
        assert(waited.push(inbound).drop_first() =~= waited.drop_first().push(inbound));
    }
}

/// Cancelling a chat drops what waits in it: the end of the cancelled turn brings no message
/// out, and leaves the chat idle.
pub proof fn law_cancelled_chat_is_idle(
    before: ChatTable,
    cancelled: ChatTable,
    chat_id: Seq<char>,
    turn: u64,
)
    requires
        cancelled.changed_to(before, chat_id, chat_table::idle()),
    ensures
        chat_table::next_of(cancelled.chat(chat_id)) is None,
        chat_table::without_turn(cancelled.chat(chat_id), turn) == chat_table::idle(),
{
}

/// The key of a session names the chat of the session, where neither the channel nor the
/// chat holds a colon.
pub proof fn law_session_key_names_chat(
    channel: Seq<char>,
    chat_id: Seq<char>,
    thread: Option<Seq<char>>,
)
    requires
        !channel.contains(':'),
        !chat_id.contains(':'),
    ensures
        compaction_refusal(bus::session_key(channel, chat_id, thread), false) is None,
        chat_in_key(bus::session_key(channel, chat_id, thread)) == chat_id,
{
    reveal_strlit(":");
    let t = match thread {
        Some(t) => t,
        None => Seq::empty(),
    };
    let is_sep = text::is_char(':');
    let rest = chat_id + ":"@ + t;
    assert(bus::session_key(channel, chat_id, thread) =~= channel + seq![':'] + rest);
    assert(rest =~= chat_id + seq![':'] + t);
    assert forall|i: int| 0 <= i < channel.len() implies !is_sep(#[trigger] channel[i]) by {
        assert(channel.contains(channel[i]));
    }
    assert forall|i: int| 0 <= i < chat_id.len() implies !is_sep(#[trigger] chat_id[i]) by {
        assert(chat_id.contains(chat_id[i]));
    }
    text::lemma_split_by_first(channel, ':', rest, is_sep);
    text::lemma_split_by_first(chat_id, ':', t, is_sep);
    text::lemma_split_by_nonempty(t, is_sep);
}

/// The tool of a call is that of the latest message of the assistant that makes a call with
/// the id, and of the first such call in it.
pub proof fn law_answered_tool_is_the_latest(
    ms: Seq<MessageView>,
    m: MessageView,
    calls: Seq<ToolCallView>,
    id: Seq<char>,
    c: int,
)
    ensures
        latest_tool_called(Seq::empty(), id) is None,
        m.role != "assistant"@ || m.tool_calls is None ==> latest_tool_called(ms.push(m), id)
            == latest_tool_called(ms, id),
        m.role == "assistant"@ && m.tool_calls == Some(calls) && 0 <= c < calls.len()
            && calls[c].id == id && (forall|k: int| 0 <= k < c ==> (#[trigger] calls[k]).id != id)
            ==> latest_tool_called(ms.push(m), id) == Some(calls[c].name),
        m.role == "assistant"@ && m.tool_calls == Some(calls) && (forall|k: int|
            0 <= k < calls.len() ==> (#[trigger] calls[k]).id != id) ==> latest_tool_called(
            ms.push(m),
            id,
        ) == latest_tool_called(ms, id),
{
    assert(ms.push(m).drop_last() =~= ms);
    lemma_tool_called(calls, id);
}

proof fn lemma_tool_called(calls: Seq<ToolCallView>, id: Seq<char>)
    ensures
        forall|c: int|
            0 <= c < calls.len() && (#[trigger] calls[c]).id == id && (forall|k: int|
                0 <= k < c ==> (#[trigger] calls[k]).id != id) ==> tool_called(calls, id) == Some(
                calls[c].name,
            ),
        (forall|k: int| 0 <= k < calls.len() ==> (#[trigger] calls[k]).id != id) ==> tool_called(
            calls,
            id,
        ) is None,
    decreases calls.len(),
{
    if calls.len() > 0 {
        let rest = calls.drop_first();
        lemma_tool_called(rest, id);
        assert(forall|k: int| 0 <= k < rest.len() ==> (#[trigger] rest[k]) == calls[k + 1]);
        assert forall|c: int|
            0 <= c < calls.len() && (#[trigger] calls[c]).id == id && (forall|k: int|
                0 <= k < c ==> (#[trigger] calls[k]).id != id) implies tool_called(calls, id)
            == Some(calls[c].name) by {
            if c > 0 {
                assert(calls[0].id != id);
                assert(rest[c - 1].id == id);
                assert forall|k: int| 0 <= k < c - 1 implies (#[trigger] rest[k]).id != id by {
                    assert(calls[k + 1].id != id);
                }
            }
        }
        if forall|k: int| 0 <= k < calls.len() ==> (#[trigger] calls[k]).id != id {
            assert(calls[0].id != id);
            assert forall|k: int| 0 <= k < rest.len() implies (#[trigger] rest[k]).id != id by {
                assert(calls[k + 1].id != id);
            }
        }
    }
}

/// Exactly the jobs that wait are asked, in their order.
pub proof fn law_waiting_jobs_are_asked(jobs: Seq<BackgroundJob>, job: BackgroundJob)
    ensures
        waiting(Seq::empty()).len() == 0,
        job.state@ == "waiting"@ ==> waiting(jobs.push(job)) == waiting(jobs).push(job),
        job.state@ != "waiting"@ ==> waiting(jobs.push(job)) == waiting(jobs),
{
    reveal(Seq::filter);
    assert(jobs.push(job).drop_last() =~= jobs);
}

/// The message with which a job goes on is the one that came, word for word: it is marked as
/// such, it names the job, and whatever else it carried stays.
pub proof fn law_resumed_message_is_the_one_that_came(
    r: InboundMessage,
    inbound: InboundMessage,
    job_id: Seq<char>,
    key: Seq<char>,
)
    requires
        is_resumed(r, inbound, job_id),
    ensures
        r.content == inbound.content,
        r.chat_id == inbound.chat_id,
        r.channel == inbound.channel,
        r.thread_id == inbound.thread_id,
        r.attachments == inbound.attachments,
        bus::text_under(json::members_view(r.metadata@), METADATA_BACKGROUND_JOB_ID@) == Some(
            job_id,
        ),
        is_background(json::members_view(r.metadata@)),
        key != METADATA_BACKGROUND_JOB_ID@ && key != METADATA_SYNTHETIC_BACKGROUND_RESUME@
            ==> json::member(json::members_view(r.metadata@), key) == json::member(
            json::members_view(inbound.metadata@),
            key,
        ),
{
    law_resumed_turn_is_background(
        json::members_view(inbound.metadata@),
        json::members_view(r.metadata@),
        job_id,
    );
}

/// A turn is one that nobody waits for if and only if its message says that a schedule, a
/// job, a sub-agent or a resumption sent it.
pub proof fn law_background_turns_say_so(metadata: Seq<(Seq<char>, JsonView)>)
    ensures
        bus::says_yes(metadata, METADATA_SYNTHETIC_CRON_TRIGGER@) ==> is_background(metadata),
        bus::says_yes(metadata, METADATA_SYNTHETIC_JOB_FOLLOWUP@) ==> is_background(metadata),
        bus::says_yes(metadata, METADATA_SYNTHETIC_SUBAGENT_COMPLETION@) ==> is_background(
            metadata,
        ),
        bus::says_yes(metadata, METADATA_SYNTHETIC_BACKGROUND_RESUME@) ==> is_background(metadata),
        metadata.len() == 0 ==> !is_background(metadata),
        is_background(metadata) ==> exists|i: int|
            0 <= i < metadata.len() && ((#[trigger] metadata[i]).0
                == METADATA_SYNTHETIC_CRON_TRIGGER@ || metadata[i].0
                == METADATA_SYNTHETIC_JOB_FOLLOWUP@ || metadata[i].0
                == METADATA_SYNTHETIC_SUBAGENT_COMPLETION@ || metadata[i].0
                == METADATA_SYNTHETIC_BACKGROUND_RESUME@),
{
    if is_background(metadata) {
        if forall|i: int|
            0 <= i < metadata.len() ==> ((#[trigger] metadata[i]).0
                != METADATA_SYNTHETIC_CRON_TRIGGER@ && metadata[i].0
                != METADATA_SYNTHETIC_JOB_FOLLOWUP@ && metadata[i].0
                != METADATA_SYNTHETIC_SUBAGENT_COMPLETION@ && metadata[i].0
                != METADATA_SYNTHETIC_BACKGROUND_RESUME@) {
            json::lemma_member_absent(metadata, METADATA_SYNTHETIC_CRON_TRIGGER@);
            json::lemma_member_absent(metadata, METADATA_SYNTHETIC_JOB_FOLLOWUP@);
            json::lemma_member_absent(metadata, METADATA_SYNTHETIC_SUBAGENT_COMPLETION@);
            json::lemma_member_absent(metadata, METADATA_SYNTHETIC_BACKGROUND_RESUME@);
        }
    }
}

/// While a turn runs in a chat, no message starts another one there; in a chat without one,
/// no message waits or is dropped.
pub proof fn law_one_turn_at_a_time(
    before: ChatTable,
    after: ChatTable,
    inbound: InboundMessage,
    step: ArrivalStep,
    other: Seq<char>,
)
    requires
        is_let_in(before, after, inbound, step),
    ensures
        before.chat(inbound.chat_id@).turn is Some ==> step is Done,
        before.chat(inbound.chat_id@).turn is None ==> step == ArrivalStep::Start(inbound) || step
            == (ArrivalStep::ListJobs { inbound }),
        after.chat(inbound.chat_id@).turn == before.chat(inbound.chat_id@).turn,
        other != inbound.chat_id@ ==> after.chat(other) == before.chat(other),
        before.chat(inbound.chat_id@).turn is Some && bus::says_yes(
            json::members_view(inbound.metadata@),
            METADATA_SYNTHETIC_CRON_TRIGGER@,
        ) ==> after.chat(inbound.chat_id@).queue == before.chat(inbound.chat_id@).queue,
{
}

/// A failure to store an answer is told, and only a failure: with its own words where it has
/// any, and with the job that does not go on.
pub proof fn law_only_failures_are_told(reply: MemoryReply, expressly: bool, job_id: Seq<char>, error: Seq<char>)
    ensures
        resolve_error(reply) is None <==> reply is Done,
        reply matches MemoryReply::NotSent(why) ==> text::contains(resolve_error(reply)->0, why@),
        reply matches MemoryReply::Refused(why) ==> text::contains(resolve_error(reply)->0, why@),
        text::contains(resume_failed(expressly, job_id, error), job_id),
        text::ends_with(resume_failed(expressly, job_id, error), error),
{
    if let MemoryReply::NotSent(why) = reply {
        text::lemma_contains_middle("Memory actor error: "@, why@, Seq::empty());
        assert("Memory actor error: "@ + why@ + Seq::<char>::empty() =~= "Memory actor error: "@
            + why@);
    }
    if let MemoryReply::Refused(why) = reply {
        text::lemma_contains_middle(
            "Memory node failed to resolve ticket fully: "@,
            why@,
            Seq::empty(),
        );
        assert("Memory node failed to resolve ticket fully: "@ + why@ + Seq::<char>::empty()
            =~= "Memory node failed to resolve ticket fully: "@ + why@);
    }
    let start = if expressly {
        "Failed to resume background job ["@
    } else {
        "Failed to auto-resume background job ["@
    };
    let all = resume_failed(expressly, job_id, error);
    assert(all =~= start + job_id + ("]: "@ + error));
    text::lemma_contains_middle(start, job_id, "]: "@ + error);
    assert(all.subrange(all.len() - error.len(), all.len() as int) =~= error);
}

// ---------------------------------------------------------------------------
// Laws of what follows
// ---------------------------------------------------------------------------

/// A message is handed on at once where its chat is free, and waits behind the others where it
/// is not; only what a schedule sent into a busy chat is dropped. Other chats are left alone.
pub proof fn law_message_is_taken_in(
    before: ChatTable,
    after: ChatTable,
    inbound: InboundMessage,
    r: Received,
    other: Seq<char>,
)
    requires
        is_taken_in(before, after, inbound, r),
    ensures
        before.chat(inbound.chat_id@).turn is None <==> r is Free,
        r is Free ==> r == Received::Free(inbound),
        r is Dropped ==> bus::says_yes(
            json::members_view(inbound.metadata@),
            "isanagent_synthetic_cron_trigger"@,
        ),
        r is Queued ==> after.chat(inbound.chat_id@).queue == before.chat(
            inbound.chat_id@,
        ).queue.push(inbound),
        !(r is Queued) ==> after.chat(inbound.chat_id@) == before.chat(inbound.chat_id@),
        after.chat(inbound.chat_id@).turn == before.chat(inbound.chat_id@).turn,
        other != inbound.chat_id@ ==> after.chat(other) == before.chat(other),
{
}

/// A message that somebody waited for goes no further. One that nobody waited for answers the
/// ticket that it names, and is let in where it names none or where there is no such ticket.
pub proof fn law_offered_message_goes_its_way(
    before: ChatTable,
    after: ChatTable,
    inbound: InboundMessage,
    taken: bool,
    found: Option<OpenTicket>,
    offered: ArrivalStep,
    looked_up: ArrivalStep,
)
    requires
        follows_offer(before, after, inbound, taken, offered),
        follows_ticket(before, after, inbound, found, looked_up),
    ensures
        taken ==> offered is Done && after == before,
        !taken ==> (bus::text_under(
            json::members_view(inbound.metadata@),
            "isanagent_clarification_ticket_id"@,
        ) matches Some(id) ==> (offered matches ArrivalStep::FindTicket { inbound: i, ticket_id }
            && i == inbound && ticket_id@ == id)),
        !taken && bus::text_under(
            json::members_view(inbound.metadata@),
            "isanagent_clarification_ticket_id"@,
        ) is None ==> is_let_in(before, after, inbound, offered),
        found matches Some(ticket) ==> after == before && (looked_up
            matches ArrivalStep::Resolve { inbound: i, ticket: t, expressly } && i == inbound && t
            == ticket && expressly),
        found is None ==> is_let_in(before, after, inbound, looked_up),
{
}

/// A message answers the first job that has an open ticket, in that job's name; while none was
/// found the next job is asked, and once all were asked a turn starts.
pub proof fn law_message_answers_the_first_open_job(
    inbound: InboundMessage,
    job_id: String,
    rest: Seq<BackgroundJob>,
    found: Option<OpenTicket>,
    r: ArrivalStep,
)
    requires
        follows_job_ticket(inbound, job_id, rest, found, r),
    ensures
        found matches Some(ticket) ==> (r matches ArrivalStep::Resolve {
            inbound: i,
            ticket: t,
            expressly,
        } && i == inbound && t.job_id == job_id && t.tool_call_id == ticket.tool_call_id
            && !expressly),
        found is None && rest.len() == 0 ==> r == ArrivalStep::Start(inbound),
        found is None && rest.len() > 0 ==> (r matches ArrivalStep::FindJobTicket {
            inbound: i,
            job_id: next,
            rest: others,
        } && i == inbound && next == rest[0].job_id && others@ == rest.drop_first()),
{
}

/// An answer that was stored takes its job up again: the turn that starts says what the user
/// said, in the chat where they said it, and names the job. A call that waits for the answer gets
/// it first. What could not be stored is told, and nothing starts.
pub proof fn law_stored_answer_takes_the_job_up(
    inbound: InboundMessage,
    ticket: OpenTicket,
    expressly: bool,
    reply: MemoryReply,
    r: ArrivalStep,
    stored: Result<(), String>,
    last: ArrivalStep,
)
    requires
        follows_resolve(inbound, ticket, expressly, reply, r),
        follows_append(inbound, ticket, expressly, stored, last),
    ensures
        reply is Done && ticket.tool_call_id is None ==> (r matches ArrivalStep::Start(i)
            && i.content == inbound.content && i.chat_id == inbound.chat_id && i.attachments
            == inbound.attachments && bus::text_under(
            json::members_view(i.metadata@),
            "isanagent_background_job_id"@,
        ) == Some(ticket.job_id@) && bus::says_yes(
            json::members_view(i.metadata@),
            "isanagent_synthetic_background_resume"@,
        )),
        reply is Done ==> (ticket.tool_call_id matches Some(id) ==> (r
            matches ArrivalStep::ReadContext { inbound: i, ticket: t, expressly: e, tool_call_id }
            && i == inbound && t == ticket && tool_call_id@ == id@)),
        !(reply is Done) ==> (r matches ArrivalStep::Tell { inbound: i, error } && i == inbound
            && text::contains(error@, ticket.job_id@)),
        stored is Ok ==> (last matches ArrivalStep::Start(i) && i.content == inbound.content
            && i.chat_id == inbound.chat_id && bus::text_under(
            json::members_view(i.metadata@),
            "isanagent_background_job_id"@,
        ) == Some(ticket.job_id@)),
        stored matches Err(why) ==> (last matches ArrivalStep::Tell { inbound: i, error } && i
            == inbound && text::ends_with(error@, why@)),
{
    reveal_strlit("isanagent_background_job_id");
    reveal_strlit("isanagent_synthetic_background_resume");
    assert("isanagent_background_job_id"@.len() == 27);
    assert("isanagent_synthetic_background_resume"@.len() == 37);
    if let Some(why) = resolve_error(reply) {
        law_only_failures_are_told(reply, expressly, ticket.job_id@, why);
    }
    if let Err(why) = stored {
        let error = "Failed to inject tool response into memory: "@ + why@;
        let all = resume_failed(expressly, ticket.job_id@, error);
        assert(all.subrange(all.len() - why@.len(), all.len() as int) =~= why@);
    }
    if reply is Done && ticket.tool_call_id is None {
        if let ArrivalStep::Start(i) = r {
            let given = json::members_view(i.metadata@);
            assert(json::member(given, METADATA_BACKGROUND_JOB_ID@) == Some(
                JsonView::Str(ticket.job_id@),
            ));
            assert(json::member(given, METADATA_SYNTHETIC_BACKGROUND_RESUME@) == Some(
                JsonView::Bool(true),
            ));
        }
    }
    if stored is Ok {
        if let ArrivalStep::Start(i) = last {
            let given = json::members_view(i.metadata@);
            assert(json::member(given, METADATA_BACKGROUND_JOB_ID@) == Some(
                JsonView::Str(ticket.job_id@),
            ));
        }
    }
}

/// What the user said becomes the result of the call that waited for it, under that call's id;
/// where the conversation cannot be read that is told.
pub proof fn law_answer_becomes_the_result_of_its_call(
    inbound: InboundMessage,
    ticket: OpenTicket,
    expressly: bool,
    tool_call_id: Seq<char>,
    context: Option<Seq<MessageView>>,
    r: ArrivalStep,
)
    requires
        follows_context(inbound, ticket, expressly, tool_call_id, context, r),
    ensures
        context is Some ==> (r matches ArrivalStep::Append { inbound: i, ticket: t, expressly: e, message: m }
            && i == inbound && t == ticket && m.role@ == "tool"@ && m.deep_view().content == Some(
            message::ContentView::Text(inbound.content@),
        ) && m.deep_view().tool_call_id == Some(tool_call_id)),
        context is None ==> (r matches ArrivalStep::Tell { inbound: i, error } && i == inbound
            && text::contains(error@, ticket.job_id@)),
{
    if context is None {
        let error = "Failed to get session "@ + session_of(inbound);
        law_only_failures_are_told(MemoryReply::Done, expressly, ticket.job_id@, error);
    }
}

/// A turn that came to an answer is told no error, and one that did not is told why; only one
/// that broke down leaves a word of its own in the conversation. Its background job, where it
/// belongs to one, ends with it.
pub proof fn law_turn_is_reported(
    r: TurnReport,
    inbound: InboundMessage,
    background_job_id: Option<Seq<char>>,
    end: TurnEnd,
    cancelled: bool,
)
    requires
        is_report_of(r, inbound, background_job_id, end, cancelled),
    ensures
        r.error is None <==> end is Answered,
        end matches TurnEnd::Failed(e) ==> (r.error matches Some(s) && s@ == e@),
        r.stored is Some <==> end is Panicked,
        end is Panicked ==> r.error.deep_view() == r.stored.deep_view(),
        r.job is Some <==> background_job_id is Some,
        background_job_id matches Some(id) ==> (r.job matches Some(job) && job.job_id@ == id
            && job.notice.chat_id@ == inbound.chat_id@),
{
}

/// A conversation is compacted on request only while no turn runs in its chat, and only where the
/// key names a chat; a refusal tells which chat or which key it was.
pub proof fn law_running_turn_is_not_compacted(session_key: Seq<char>, busy: bool)
    ensures
        !session_key.contains(':') ==> compaction_refusal(session_key, busy) is Some
            && text::ends_with(compaction_refusal(session_key, busy)->0, session_key),
        compaction_refusal(session_key, true) is Some,
        compaction_refusal(session_key, false) is None ==> text::ends_with(
            compaction_refusal(session_key, true)->0,
            chat_in_key(session_key),
        ),
        compaction_refusal(session_key, false) is None <==> text::split_at_char(
            session_key,
            ':',
        ).len() >= 2,
{
    let is_sep = text::is_char(':');
    let pieces = text::split_at_char(session_key, ':');
    let whole = "Malformed session_key (expected `channel:chat_id:thread`): "@ + session_key;
    let taken = "Refusing manual compaction: reasoning turn in flight for chat_id="@ + pieces[1];
    assert(whole.subrange(whole.len() - session_key.len(), whole.len() as int) =~= session_key);
    assert(taken.subrange(taken.len() - pieces[1].len(), taken.len() as int) =~= pieces[1]);
    if !session_key.contains(':') {
        assert forall|i: int| 0 <= i < session_key.len() implies !is_sep(
            #[trigger] session_key[i],
        ) by {
            assert(session_key.contains(session_key[i]));
        }
        text::law_split_at_separators(session_key, ':', session_key, is_sep);
    }
}

} // verus!
