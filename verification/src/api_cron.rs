//! Jobs that a scheduler outside sets off by a request: what such a request does step by
//! step, and what it is answered. The caller talks to the scheduler and to the agent.
use vstd::prelude::*;
use vstd::string::*;
use crate::bus::{self, InboundMessage};
use crate::json::{self, Json, JsonView};

verus! {

broadcast use vstd::string::group_string_axioms;

/// A job that was set off.
#[derive(Debug)]
pub struct CronTrigger {
    pub job_id: String,
    pub channel: String,
    pub chat_id: String,
    pub message: String,
}

/// What is under a key in the metadata of a job's message.
pub open spec fn trigger_under(job_id: Seq<char>, key: Seq<char>) -> Option<JsonView> {
    if key == bus::METADATA_AUTONOMOUS_FORBID_FINAL_WITHOUT_TOOLS@ {
        Some(JsonView::Bool(true))
    } else if key == bus::METADATA_SYNTHETIC_CRON_TRIGGER@ {
        Some(JsonView::Bool(true))
    } else if key == "trigger_source"@ {
        Some(JsonView::Str("multi_tenant_edge"@))
    } else if key == "cron_job_id"@ {
        Some(JsonView::Str(job_id))
    } else if key == bus::METADATA_BACKGROUND_JOB_ID@ {
        Some(JsonView::Str("cron:"@ + job_id))
    } else {
        None
    }
}

/// Writes the message that brings a job to the agent.
pub fn trigger_message(trigger: &CronTrigger) -> (r: InboundMessage)
    ensures
        r.channel@ == trigger.channel@,
        r.sender_id@ == "cron"@,
        r.chat_id@ == trigger.chat_id@,
        r.thread_id is None,
        r.content@ == trigger.message@,
        r.attachments@.len() == 0,
        forall|k: Seq<char>| #[trigger]
            json::member(json::members_view(r.metadata@), k) == trigger_under(trigger.job_id@, k),
{
    let mut job: String = "cron:".to_owned();
    job.append(trigger.job_id.as_str());
    let mut metadata: Vec<(String, Json)> = json::no_members();
    bus::set_metadata(&mut metadata, bus::METADATA_BACKGROUND_JOB_ID, json::string(job.as_str()));
    bus::set_metadata(&mut metadata, "cron_job_id", json::string(trigger.job_id.as_str()));
    bus::set_metadata(&mut metadata, "trigger_source", json::string("multi_tenant_edge"));
    bus::set_metadata(&mut metadata, bus::METADATA_SYNTHETIC_CRON_TRIGGER, Json::Bool(true));
    bus::set_metadata(
        &mut metadata,
        bus::METADATA_AUTONOMOUS_FORBID_FINAL_WITHOUT_TOOLS,
        Json::Bool(true),
    );
    InboundMessage {
        channel: trigger.channel.clone(),
        sender_id: "cron".to_owned(),
        chat_id: trigger.chat_id.clone(),
        thread_id: None,
        content: trigger.message.clone(),
        attachments: Vec::new(),
        metadata,
    }
}

/// How far a request has come.
#[derive(Clone, Copy, PartialEq, Eq, Debug, Structural)]
pub enum CronPhase {
    /// The scheduler is asked for the job.
    Begun,
    /// The job is on its way to the agent.
    Sending,
    /// The job could not be brought to the agent, and is given back to the scheduler.
    RollingBack,
    /// The agent has the job, and the scheduler is told so.
    Marking,
    /// The scheduler closes the job.
    Completing,
    /// The request is answered.
    Answered,
}

/// What has come of the step that was asked for.
#[derive(Debug)]
pub enum CronEvent {
    /// The scheduler gave the job.
    Found(CronTrigger),
    /// The scheduler knows no such job, or there is no scheduler.
    Unknown,
    /// What the scheduler, or the way to the agent, was asked for succeeded.
    Succeeded,
    /// It failed.
    Failed,
}

/// What is to be done next.
#[derive(Debug)]
pub enum CronStep {
    /// Bring the message to the agent.
    Send(InboundMessage),
    /// Give the job back to the scheduler.
    Rollback,
    /// Tell the scheduler that the agent has the job.
    MarkDelivered,
    /// Let the scheduler close the job; tell of the job.
    Complete,
    /// Answer with this status.
    Answer(u16),
}

/// The phase and the kind of step that follow.
pub open spec fn next_phase(phase: CronPhase, event: CronEvent) -> CronPhase {
    match (phase, event) {
        (CronPhase::Begun, CronEvent::Found(_)) => CronPhase::Sending,
        (CronPhase::Sending, CronEvent::Succeeded) => CronPhase::Marking,
        (CronPhase::Sending, _) => CronPhase::RollingBack,
        (CronPhase::Marking, CronEvent::Succeeded) => CronPhase::Completing,
        (_, _) => CronPhase::Answered,
    }
}

/// The status that a request is answered with when its last step came to `event`.
pub open spec fn status_after(phase: CronPhase, event: CronEvent) -> u16 {
    match phase {
        CronPhase::Begun => if event is Unknown {
            404
        } else {
            500
        },
        CronPhase::Completing => 204,
        _ => 500,
    }
}

/// Whether a step is the one of a phase.
pub open spec fn is_step_of(phase: CronPhase, event: CronEvent, next: CronPhase, r: CronStep) -> bool {
    match next {
        CronPhase::Sending => event matches CronEvent::Found(t) && r matches CronStep::Send(m)
            && m.channel@ == t.channel@ && m.sender_id@ == "cron"@ && m.chat_id@ == t.chat_id@
            && m.thread_id is None && m.content@ == t.message@ && m.attachments@.len() == 0 && (
        forall|k: Seq<char>| #[trigger]
            json::member(json::members_view(m.metadata@), k) == trigger_under(t.job_id@, k)),
        CronPhase::RollingBack => r is Rollback,
        CronPhase::Marking => r is MarkDelivered,
        CronPhase::Completing => r is Complete,
        CronPhase::Begun | CronPhase::Answered => r == CronStep::Answer(status_after(phase, event)),
    }
}

/// Goes on after a step of a request. The scheduler always closes a job of which it knows that
/// the agent has it, though it may warn.
pub fn after_step(phase: CronPhase, event: CronEvent) -> (r: (CronPhase, CronStep))
    requires
        phase != CronPhase::Answered,
        phase == CronPhase::Completing ==> event is Succeeded,
    ensures
        r.0 == next_phase(phase, event),
        is_step_of(phase, event, r.0, r.1),
{
    match phase {
        CronPhase::Begun => match event {
            CronEvent::Found(trigger) => {
                (CronPhase::Sending, CronStep::Send(trigger_message(&trigger)))
            },
            CronEvent::Unknown => (CronPhase::Answered, CronStep::Answer(404)),
            _ => (CronPhase::Answered, CronStep::Answer(500)),
        },
        CronPhase::Sending => match event {
            CronEvent::Succeeded => (CronPhase::Marking, CronStep::MarkDelivered),
            _ => (CronPhase::RollingBack, CronStep::Rollback),
        },
        CronPhase::Marking => match event {
            CronEvent::Succeeded => (CronPhase::Completing, CronStep::Complete),
            _ => (CronPhase::Answered, CronStep::Answer(500)),
        },
        CronPhase::Completing => (CronPhase::Answered, CronStep::Answer(204)),
        _ => (CronPhase::Answered, CronStep::Answer(500)),
    }
}

/// The phase after a row of events.
pub open spec fn phase_after(events: Seq<CronEvent>) -> CronPhase
    decreases events.len(),
{
    if events.len() == 0 {
        CronPhase::Begun
    } else {
        next_phase(phase_after(events.drop_last()), events.last())
    }
}

/// A request says that its job was accepted only if the scheduler gave the job, the agent got
/// it and the scheduler was told.
pub proof fn law_accepted_job_was_delivered(events: Seq<CronEvent>)
    requires
        events.len() > 0,
        phase_after(events.drop_last()) != CronPhase::Answered,
        phase_after(events) == CronPhase::Answered,
        status_after(phase_after(events.drop_last()), events.last()) == 204,
    ensures
        events.len() == 4,
        events[0] is Found,
        events[1] is Succeeded,
        events[2] is Succeeded,
{
    let before = events.drop_last();
    assert(phase_after(before) == CronPhase::Completing);
    let sent = before.drop_last();
    assert(phase_after(sent) == CronPhase::Marking);
    let found = sent.drop_last();
    assert(phase_after(found) == CronPhase::Sending);
    assert(found.drop_last().len() == 0) by {
        if found.drop_last().len() > 0 {
            assert(phase_after(found.drop_last()) == CronPhase::Begun);
            lemma_begun_is_first(found.drop_last());
        }
    }
    assert(events[0] == found.last());
    assert(events[1] == sent.last());
    assert(events[2] == before.last());
}

proof fn lemma_begun_is_first(events: Seq<CronEvent>)
    requires
        phase_after(events) == CronPhase::Begun,
    ensures
        events.len() == 0,
{
}

/// A job that the agent did not get is given back to the scheduler before the request is
/// answered.
pub proof fn law_undelivered_job_is_given_back(event: CronEvent, next: CronEvent)
    requires
        !(event is Succeeded),
    ensures
        next_phase(CronPhase::Sending, event) == CronPhase::RollingBack,
        next_phase(CronPhase::RollingBack, next) == CronPhase::Answered,
        status_after(CronPhase::RollingBack, next) == 500,
{
}

/// A request takes at most four steps.
pub proof fn law_request_ends(events: Seq<CronEvent>)
    requires
        events.len() >= 4,
    ensures
        phase_after(events) == CronPhase::Answered,
    decreases events.len(),
{
    if events.len() > 4 {
        law_request_ends(events.drop_last());
    } else {
        reveal_with_fuel(phase_after, 5);
    }
}

/// A job that is found is sent to the agent as it was written, to the chat that it is for, under
/// its id; the agent is told that a schedule sent it and that it must not end without tools.
pub proof fn law_found_job_is_sent(t: CronTrigger, r: CronStep, key: Seq<char>)
    requires
        is_step_of(
            CronPhase::Begun,
            CronEvent::Found(t),
            next_phase(CronPhase::Begun, CronEvent::Found(t)),
            r,
        ),
    ensures
        r matches CronStep::Send(m) && m.channel@ == t.channel@ && m.chat_id@ == t.chat_id@
            && m.content@ == t.message@ && m.sender_id@ == "cron"@ && m.attachments@.len() == 0
            && json::member(json::members_view(m.metadata@), "cron_job_id"@) == Some(
            JsonView::Str(t.job_id@),
        ) && json::member(json::members_view(m.metadata@), "isanagent_background_job_id"@) == Some(
            JsonView::Str("cron:"@ + t.job_id@),
        ) && bus::says_yes(
            json::members_view(m.metadata@),
            "isanagent_synthetic_cron_trigger"@,
        ) && bus::says_yes(
            json::members_view(m.metadata@),
            "isanagent_autonomous_forbid_final_without_tools"@,
        ) && (key != "cron_job_id"@ && key != "isanagent_background_job_id"@ && key
            != "isanagent_synthetic_cron_trigger"@ && key
            != "isanagent_autonomous_forbid_final_without_tools"@ && key != "trigger_source"@
            ==> json::member(json::members_view(m.metadata@), key) is None),
{
    reveal_strlit("cron_job_id");
    reveal_strlit("trigger_source");
    reveal_strlit("isanagent_background_job_id");
    reveal_strlit("isanagent_synthetic_cron_trigger");
    reveal_strlit("isanagent_autonomous_forbid_final_without_tools");
    assert("cron_job_id"@.len() == 11 && "trigger_source"@.len() == 14
        && "isanagent_background_job_id"@.len() == 27 && "isanagent_synthetic_cron_trigger"@.len()
        == 32 && "isanagent_autonomous_forbid_final_without_tools"@.len() == 47);
    if let CronStep::Send(m) = r {
        let given = json::members_view(m.metadata@);
        assert(json::member(given, key) == trigger_under(t.job_id@, key));
    }
}

/// A job that is found, delivered and noted is closed and the request says so; each step comes
/// in its turn and no step is left out.
pub proof fn law_job_goes_its_way(t: CronTrigger, steps: Seq<CronStep>)
    requires
        steps.len() == 4,
        is_step_of(
            CronPhase::Begun,
            CronEvent::Found(t),
            phase_after(seq![CronEvent::Found(t)]),
            steps[0],
        ),
        is_step_of(
            phase_after(seq![CronEvent::Found(t)]),
            CronEvent::Succeeded,
            phase_after(seq![CronEvent::Found(t), CronEvent::Succeeded]),
            steps[1],
        ),
        is_step_of(
            phase_after(seq![CronEvent::Found(t), CronEvent::Succeeded]),
            CronEvent::Succeeded,
            phase_after(seq![CronEvent::Found(t), CronEvent::Succeeded, CronEvent::Succeeded]),
            steps[2],
        ),
        is_step_of(
            phase_after(seq![CronEvent::Found(t), CronEvent::Succeeded, CronEvent::Succeeded]),
            CronEvent::Succeeded,
            phase_after(
                seq![
                    CronEvent::Found(t),
                    CronEvent::Succeeded,
                    CronEvent::Succeeded,
                    CronEvent::Succeeded,
                ],
            ),
            steps[3],
        ),
    ensures
        steps[0] is Send,
        steps[1] is MarkDelivered,
        steps[2] is Complete,
        steps[3] == CronStep::Answer(204),
{
    let found = CronEvent::Found(t);
    let done = CronEvent::Succeeded;
    reveal_with_fuel(phase_after, 2);
    let one = seq![found];
    let two = seq![found, done];
    let three = seq![found, done, done];
    let four = seq![found, done, done, done];
    assert(one.drop_last() =~= Seq::empty());
    assert(two.drop_last() =~= one);
    assert(three.drop_last() =~= two);
    assert(four.drop_last() =~= three);
    assert(phase_after(one) == CronPhase::Sending);
    assert(phase_after(two) == CronPhase::Marking);
    assert(phase_after(three) == CronPhase::Completing);
    assert(phase_after(four) == CronPhase::Answered);
}

/// A job that the scheduler does not know is answered as not found; a request that goes wrong
/// anywhere else is answered as an error of the server, and one of which the delivery could not
/// be noted is not closed.
pub proof fn law_requests_go_wrong_as_told(event: CronEvent, r: CronStep)
    ensures
        is_step_of(
            CronPhase::Begun,
            CronEvent::Unknown,
            next_phase(CronPhase::Begun, CronEvent::Unknown),
            r,
        ) ==> r == CronStep::Answer(404),
        event is Failed && is_step_of(
            CronPhase::Begun,
            event,
            next_phase(CronPhase::Begun, event),
            r,
        ) ==> r == CronStep::Answer(500),
        event is Failed && is_step_of(
            CronPhase::Sending,
            event,
            next_phase(CronPhase::Sending, event),
            r,
        ) ==> r is Rollback,
        event is Failed && is_step_of(
            CronPhase::Marking,
            event,
            next_phase(CronPhase::Marking, event),
            r,
        ) ==> r == CronStep::Answer(500),
        is_step_of(
            CronPhase::RollingBack,
            event,
            next_phase(CronPhase::RollingBack, event),
            r,
        ) ==> r == CronStep::Answer(500),
{
}

} // verus!
