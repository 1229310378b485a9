//! The threads of the HTTP interface: how they are named, listed and shown.
use vstd::prelude::*;
use vstd::string::*;
use crate::api_error::{api_error, ApiError};
use crate::api_error;
use crate::history_cells::{strip_model_thinking_markup, text_and_images_from_message, CellView};
use crate::history_cells;
use crate::json::{Json, JsonView};
use crate::json;
use crate::message::{ChatMessage, MessageView, RUNTIME_CONTEXT_END_SUFFIX};
use crate::message;
use crate::outside;
use crate::prompt;
use crate::text;

verus! {

broadcast use vstd::string::group_string_axioms;

// ---------------------------------------------------------------------------
// The transcript
// ---------------------------------------------------------------------------

/// What a runtime context starts with.
pub const RUNTIME_CONTEXT_MARK: &'static str = "[RUNTIME CONTEXT]";

/// The regular expression for a runtime context without the mark of its end.
pub const RUNTIME_CONTEXT_PREFIX_PATTERN: &'static str =
    "^\\[RUNTIME CONTEXT\\] Current time is .+?\\. You are navigating and responding in channel: '[^']*', with chat ID: '[^']*'(?:, thread: '[^']*')?\\.\\s*\\n\\s*";

/// What follows the runtime context, without the white space at its start. A context without
/// the mark of its end is told by its form; if the expression for it does not compile, the
/// text is taken as it is.
pub open spec fn without_runtime_context(t: Seq<char>) -> Seq<char> {
    text::trim_start(
        match text::after_first(t, RUNTIME_CONTEXT_END_SUFFIX@) {
            Some(rest) => rest,
            None => match outside::regex_replaced_first(RUNTIME_CONTEXT_PREFIX_PATTERN@, t, ""@) {
                Some(rest) => rest,
                None => t,
            },
        },
    )
}

/// Whether the expression for a runtime context leaves the text as it is.
pub open spec fn is_spared(t: Seq<char>) -> bool {
    outside::regex_replaced_first(RUNTIME_CONTEXT_PREFIX_PATTERN@, t, ""@) matches Some(rest)
        ==> rest == t
}

/// Whether the text could be told by its form to hold a runtime context: it starts with the
/// mark of one and does not hold the mark of its end.
pub open spec fn may_hold_open_context(t: Seq<char>) -> bool {
    text::after_first(t, RUNTIME_CONTEXT_END_SUFFIX@) is None && text::starts_with(
        t,
        RUNTIME_CONTEXT_MARK@,
    )
}

/// Takes the runtime context off the front of a message.
pub fn strip_runtime_context_prefix(t: &str) -> (r: String)
    ensures
        r@ == without_runtime_context(t@),
        !may_hold_open_context(t@) ==> text::after_first(t@, RUNTIME_CONTEXT_END_SUFFIX@) is Some
            || is_spared(t@),
{
    let rest: String = match text::text_after(t, RUNTIME_CONTEXT_END_SUFFIX) {
        Some(rest) => rest,
        None => match outside::regex_replace_first(RUNTIME_CONTEXT_PREFIX_PATTERN, t, "") {
            Some(rest) => rest,
            None => t.to_owned(),
        },
    };
    text::trimmed_start(rest.as_str())
}

/// What a user wrote is shown without the runtime context that was put in front of it, but
/// for the white space at its start, where the context itself does not hold the mark of its
/// end.
pub proof fn law_runtime_context_is_hidden(
    facts: prompt::HostFacts,
    channel: Seq<char>,
    chat_id: Seq<char>,
    thread: Option<Seq<char>>,
    until: Option<Seq<char>>,
    forbid_final: bool,
    content: Seq<char>,
)
    requires
        ({
            let context = prompt::runtime_context(
                facts,
                channel,
                chat_id,
                thread,
                until,
                forbid_final,
            );
            forall|at: int|
                0 <= at < context.len() ==> !#[trigger] text::occurs_at(
                    context + RUNTIME_CONTEXT_END_SUFFIX@,
                    RUNTIME_CONTEXT_END_SUFFIX@,
                    at,
                )
        }),
    ensures
        without_runtime_context(
            prompt::contextualized(facts, channel, chat_id, thread, until, forbid_final, content),
        ) == text::trim_start(content),
{
    text::lemma_after_first(
        prompt::runtime_context(facts, channel, chat_id, thread, until, forbid_final),
        RUNTIME_CONTEXT_END_SUFFIX@,
        content,
    );
}

/// A message of the transcript.
#[derive(Debug)]
pub struct SessionHistoryMessage {
    pub role: String,
    pub content: String,
    /// Where the images of the message are.
    pub image_urls: Option<Vec<String>>,
}

/// A message of the transcript in the abstract.
#[verifier::ext_equal]
pub struct HistoryView {
    pub role: Seq<char>,
    pub content: Seq<char>,
    pub image_urls: Option<Seq<Seq<char>>>,
}

impl DeepView for SessionHistoryMessage {
    type V = HistoryView;

    open spec fn deep_view(&self) -> HistoryView {
        HistoryView {
            role: self.role@,
            content: self.content@,
            image_urls: self.image_urls.deep_view(),
        }
    }
}

/// What is seen of a message's text.
pub open spec fn visible_text(m: MessageView) -> Seq<char> {
    let t = history_cells::text_and_images(m.content).0;
    text::trim(
        if m.role == "user"@ {
            without_runtime_context(t)
        } else if m.role == "assistant"@ {
            text::trim(message::without_thinking(t))
        } else {
            t
        },
    )
}

/// The row of a message. Tools and the system have none, nor has a message in which there is
/// nothing to see.
pub open spec fn row_of(m: MessageView) -> Option<HistoryView> {
    let images = history_cells::text_and_images(m.content).1;
    if m.role == "tool"@ || m.role == "system"@ || (visible_text(m).len() == 0 && images.len()
        == 0) {
        None
    } else {
        Some(
            HistoryView {
                role: m.role,
                content: visible_text(m),
                image_urls: if images.len() == 0 {
                    None
                } else {
                    Some(images)
                },
            },
        )
    }
}

/// Whether a message is by one of those that take part in a conversation.
pub open spec fn has_known_role(m: MessageView) -> bool {
    m.role == "user"@ || m.role == "assistant"@ || m.role == "tool"@ || m.role == "system"@
}

/// Whether a message is not one of a user that could be told by its form to hold a runtime
/// context.
pub open spec fn is_plain(m: MessageView) -> bool {
    m.role == "user"@ ==> !may_hold_open_context(history_cells::text_and_images(m.content).0)
}

/// Whether a message is stripped by the marks alone: where a user wrote it, the mark of the
/// end of a runtime context is in it, or the expression for one leaves it as it is.
pub open spec fn is_stripped_alike(m: MessageView) -> bool {
    let t = history_cells::text_and_images(m.content).0;
    m.role == "user"@ ==> text::after_first(t, RUNTIME_CONTEXT_END_SUFFIX@) is Some || is_spared(t)
}

/// Whether an entry of the terminal shows what a row shows: who says it, and the text, with
/// the number of the images behind it where a user added any.
pub open spec fn row_matches_cell(row: HistoryView, cell: CellView) -> bool {
    &&& cell is User <==> row.role == "user"@
    &&& cell is Assistant <==> row.role == "assistant"@
    &&& cell matches CellView::User(t) ==> t == history_cells::user_label(
        row.content,
        match row.image_urls {
            Some(urls) => urls.len(),
            None => 0,
        },
    )
    &&& cell matches CellView::Assistant(markdown) ==> markdown == row.content
}

/// Whether the entries of the terminal show what the rows show, one for one.
pub open spec fn rows_match_cells(rows: Seq<HistoryView>, cells: Seq<CellView>) -> bool {
    &&& rows.len() == cells.len()
    &&& forall|i: int| 0 <= i < rows.len() ==> row_matches_cell(#[trigger] rows[i], cells[i])
}

/// The rows of a conversation.
pub open spec fn transcript_rows(ms: Seq<MessageView>) -> Seq<HistoryView>
    decreases ms.len(),
{
    if ms.len() == 0 {
        Seq::empty()
    } else {
        let head = transcript_rows(ms.drop_last());
        match row_of(ms.last()) {
            Some(row) => head.push(row),
            None => head,
        }
    }
}

fn message_row(m: &ChatMessage) -> (r: Option<SessionHistoryMessage>)
    ensures
        r.deep_view() == row_of(m.deep_view()),
        is_plain(m.deep_view()) ==> is_stripped_alike(m.deep_view()),
{
    if text::same(m.role.as_str(), "tool") || text::same(m.role.as_str(), "system") {
        proof {
            reveal_strlit("user");
            reveal_strlit("tool");
            reveal_strlit("system");
            assert("user"@[0] != "tool"@[0] && "user"@[0] != "system"@[0]);
        }
        return None;
    }
    let (given, images) = text_and_images_from_message(m);
    let stripped: String = if text::same(m.role.as_str(), "user") {
        strip_runtime_context_prefix(given.as_str())
    } else if text::same(m.role.as_str(), "assistant") {
        strip_model_thinking_markup(given.as_str())
    } else {
        given
    };
    let visible: String = text::trimmed(stripped.as_str());
    assert(images.deep_view().len() == images@.len());
    if visible.as_str().is_empty() && images.len() == 0 {
        return None;
    }
    Some(
        SessionHistoryMessage {
            role: m.role.clone(),
            content: visible,
            image_urls: if images.len() == 0 {
                None
            } else {
                Some(images)
            },
        },
    )
}

/// The conversation as the web interface shows it. The terminal shows the same messages,
/// where each of them is plain.
pub fn chat_messages_to_ui_transcript(messages: &[ChatMessage]) -> (r: Vec<SessionHistoryMessage>)
    ensures
        r.deep_view() == transcript_rows(messages.deep_view()),
        (forall|i: int|
            0 <= i < messages.deep_view().len() ==> has_known_role(
                #[trigger] messages.deep_view()[i],
            ) && is_plain(messages.deep_view()[i])) ==> rows_match_cells(
            r.deep_view(),
            history_cells::cells(messages.deep_view()),
        ),
{
    let ghost ms = messages.deep_view();
    let mut out: Vec<SessionHistoryMessage> = Vec::new();
    let mut i: usize = 0;
    assert(out.deep_view() =~= transcript_rows(ms.take(0)));
    while i < messages.len()
        invariant
            i <= messages@.len(),
            ms == messages.deep_view(),
            out.deep_view() == transcript_rows(ms.take(i as int)),
            forall|k: int|
                0 <= k < i ==> is_plain(#[trigger] ms[k]) ==> is_stripped_alike(ms[k]),
        decreases messages@.len() - i,
    {
        let ghost before = out.deep_view();
        assert(ms.take(i + 1).drop_last() =~= ms.take(i as int));
        assert(ms.take(i + 1).last() == messages@[i as int].deep_view());
        if let Some(row) = message_row(&messages[i]) {
            out.push(row);
            assert(out.deep_view() =~= before.push(row.deep_view()));
        }
        i = i + 1;
    }
    assert(ms.take(i as int) =~= ms);
    proof {
        if forall|k: int| 0 <= k < ms.len() ==> has_known_role(#[trigger] ms[k]) && is_plain(ms[k]) {
            law_terminal_shows_the_same(ms);
        }
    }
    out
}

/// Neither the tools nor the system are heard in a transcript.
pub proof fn law_transcript_hides_tools(ms: Seq<MessageView>, i: int)
    requires
        0 <= i < transcript_rows(ms).len(),
    ensures
        transcript_rows(ms)[i].role != "tool"@,
        transcript_rows(ms)[i].role != "system"@,
    decreases ms.len(),
{
    if ms.len() > 0 {
        let head = transcript_rows(ms.drop_last());
        if i < head.len() {
            law_transcript_hides_tools(ms.drop_last(), i);
        }
    }
}

proof fn lemma_message_is_shown_alike(m: MessageView)
    requires
        has_known_role(m),
        is_stripped_alike(m),
    ensures
        row_of(m) is Some <==> history_cells::cell_of(m) is Some,
        row_of(m) matches Some(row) ==> row_matches_cell(row, history_cells::cell_of(m)->0),
{
    reveal_strlit("user");
    reveal_strlit("assistant");
    reveal_strlit("tool");
    reveal_strlit("system");
    assert("user"@[0] == 'u' && "assistant"@[0] == 'a' && "tool"@[0] == 't' && "system"@[0] == 's');
    text::lemma_trim_after_trim_start(history_cells::text_and_images(m.content).0);
    assert(visible_text(m) == history_cells::visible_text(m));
}

/// The terminal and the web interface show the same: the same messages, by the same speakers,
/// with the same texts. Messages of users in which the expression for a runtime context finds
/// one are left out, as the terminal goes by the mark of its end alone.
pub proof fn law_terminal_shows_the_same(ms: Seq<MessageView>)
    requires
        forall|i: int|
            0 <= i < ms.len() ==> has_known_role(#[trigger] ms[i]) && is_stripped_alike(ms[i]),
    ensures
        rows_match_cells(transcript_rows(ms), history_cells::cells(ms)),
    decreases ms.len(),
{
    if ms.len() > 0 {
        let init = ms.drop_last();
        assert forall|i: int| 0 <= i < init.len() implies has_known_role(#[trigger] init[i])
            && is_stripped_alike(init[i]) by {
            assert(init[i] == ms[i]);
        }
        law_terminal_shows_the_same(init);
        assert(ms[ms.len() - 1] == ms.last());
        lemma_message_is_shown_alike(ms.last());
    }
}

// ---------------------------------------------------------------------------
// Previews
// ---------------------------------------------------------------------------

/// How many characters a preview has.
pub const PREVIEW_CHARS: usize = 56;

/// The first line of a text, trimmed and cut, with an ellipsis where it was cut.
pub open spec fn preview(t: Seq<char>) -> Seq<char> {
    let line = text::trim(text::split_at_char(t, '\n')[0]);
    if line.len() > PREVIEW_CHARS {
        line.take(PREVIEW_CHARS as int) + "…"@
    } else {
        line
    }
}

/// Writes the preview of a text.
pub fn truncate_chat_preview(t: &str) -> (r: String)
    ensures
        r@ == preview(t@),
{
    let lines: Vec<String> = text::pieces_between(t, '\n');
    proof {
        text::lemma_split_by_nonempty(t@, text::is_char('\n'));
        assert(lines.deep_view().len() == lines@.len());
        assert(lines.deep_view()[0] == lines@[0]@);
    }
    let line: String = text::trimmed(lines[0].as_str());
    let chars: Vec<char> = text::chars_of(line.as_str());
    if chars.len() > PREVIEW_CHARS {
        let mut out: String = text::cut_to_chars(line.as_str(), PREVIEW_CHARS);
        out.append("…");
        out
    } else {
        line
    }
}

/// A preview has no more than one character beyond its bound.
pub proof fn law_preview_is_short(t: Seq<char>)
    ensures
        preview(t).len() <= PREVIEW_CHARS + 1,
{
    reveal_strlit("…");
}

/// How many threads are listed: 100 where nothing is said, at least one, and 500 at the most.
pub fn clamp_thread_list_limit(raw: Option<u32>) -> (r: u32)
    ensures
        r == match raw {
            None => 100,
            Some(n) => if n < 1 {
                1
            } else if n > 500 {
                500
            } else {
                n
            },
        },
{
    match raw {
        None => 100,
        Some(n) => {
            if n < 1 {
                1
            } else if n > 500 {
                500
            } else {
                n
            }
        },
    }
}

/// A thread as it is stored.
#[derive(Debug)]
pub struct ThreadRow {
    pub thread_id: String,
    pub updated_at: i64,
    pub latest_response_id: String,
}

/// A thread as it is listed.
#[derive(Debug)]
pub struct ThreadListEntry {
    pub thread_id: String,
    pub updated_at: i64,
    pub latest_response_id: String,
    pub preview: String,
}

/// What is shown of the first message of a thread; nothing where it is not known.
pub open spec fn thread_preview(first: Option<Seq<char>>) -> Seq<char> {
    match first {
        Some(t) => preview(without_runtime_context(t)),
        None => Seq::empty(),
    }
}

fn write_thread_preview(first: &Option<String>) -> (r: String)
    ensures
        r@ == thread_preview(first.deep_view()),
{
    match first {
        Some(t) => {
            let stripped: String = strip_runtime_context_prefix(t.as_str());
            truncate_chat_preview(stripped.as_str())
        },
        None => {
            let none: String = String::new();
            assert(none@ =~= Seq::<char>::empty());
            none
        },
    }
}

/// Lists the threads, each with a preview of its first message. Previews that are not one
/// for each thread are left out.
pub fn thread_entries(rows: Vec<ThreadRow>, previews: &Vec<Option<String>>) -> (r: Vec<
    ThreadListEntry,
>)
    ensures
        r@.len() == rows@.len(),
        forall|i: int|
            0 <= i < r@.len() ==> (#[trigger] r@[i]).thread_id == rows@[i].thread_id
                && r@[i].updated_at == rows@[i].updated_at && r@[i].latest_response_id
                == rows@[i].latest_response_id && r@[i].preview@ == if previews@.len()
                == rows@.len() {
                thread_preview(previews@[i].deep_view())
            } else {
                Seq::empty()
            },
{
    let matched: bool = previews.len() == rows.len();
    let ghost given = rows@;
    let mut out: Vec<ThreadListEntry> = Vec::new();
    for row in it: rows
        invariant
            it.seq() == given,
            matched == (previews@.len() == given.len()),
            out@.len() == it.index(),
            forall|i: int|
                0 <= i < out@.len() ==> (#[trigger] out@[i]).thread_id == given[i].thread_id
                    && out@[i].updated_at == given[i].updated_at && out@[i].latest_response_id
                    == given[i].latest_response_id && out@[i].preview@ == if previews@.len()
                    == given.len() {
                    thread_preview(previews@[i].deep_view())
                } else {
                    Seq::empty()
                },
    {
        let preview: String = if matched {
            let at: usize = out.len();
            assert(at < previews@.len());
            write_thread_preview(&previews[at])
        } else {
            write_thread_preview(&None)
        };
        out.push(
            ThreadListEntry {
                thread_id: row.thread_id,
                updated_at: row.updated_at,
                latest_response_id: row.latest_response_id,
                preview,
            },
        );
    }
    out
}

// ---------------------------------------------------------------------------
// Names of threads
// ---------------------------------------------------------------------------

/// The last piece between colons that is not empty; the text itself where there is none.
pub open spec fn bare_id(s: Seq<char>) -> Seq<char> {
    last_non_empty(text::split_at_char(s, ':'), s)
}

/// The last piece that is not empty.
pub open spec fn last_non_empty(pieces: Seq<Seq<char>>, otherwise: Seq<char>) -> Seq<char>
    decreases pieces.len(),
{
    if pieces.len() == 0 {
        otherwise
    } else if pieces.last().len() > 0 {
        pieces.last()
    } else {
        last_non_empty(pieces.drop_last(), otherwise)
    }
}

/// Takes the channel off the name of a thread.
pub fn bare_thread_id(s: &str) -> (r: String)
    ensures
        r@ == bare_id(s@),
{
    let pieces: Vec<String> = text::pieces_between(s, ':');
    let ghost all = text::split_at_char(s@, ':');
    let mut i: usize = pieces.len();
    assert(all.len() == pieces@.len());
    assert(all.take(i as int) =~= all);
    while i > 0
        invariant
            i <= pieces@.len(),
            all == pieces.deep_view(),
            all == text::split_at_char(s@, ':'),
            bare_id(s@) == last_non_empty(all.take(i as int), s@),
        decreases i,
    {
        i = i - 1;
        assert(all.take(i + 1).last() == pieces@[i as int]@);
        assert(all.take(i + 1).drop_last() =~= all.take(i as int));
        if !pieces[i].as_str().is_empty() {
            return pieces[i].clone();
        }
    }
    s.to_owned()
}

/// The name under which a thread is remembered: the channel, the thread, and a colon behind
/// each. A name with another channel is taken for a thread of this one.
pub open spec fn memory_thread_id(channel: Seq<char>, raw: Seq<char>) -> Seq<char> {
    let s = text::trim(raw);
    let prefix = channel + ":"@;
    if text::starts_with(s, prefix) {
        if text::ends_with(s, ":"@) {
            s
        } else {
            s + ":"@
        }
    } else {
        prefix + bare_id(s) + ":"@
    }
}

/// Writes the name under which a thread is remembered.
pub fn resolve_memory_thread_id(channel: &str, raw: &str) -> (r: String)
    ensures
        r@ == memory_thread_id(channel@, raw@),
{
    let s: String = text::trimmed(raw);
    let mut prefix: String = channel.to_owned();
    prefix.append(":");
    if text::begins_with(s.as_str(), prefix.as_str()) {
        if text::finishes_with(s.as_str(), ":") {
            s
        } else {
            let mut out: String = s;
            out.append(":");
            out
        }
    } else {
        let id: String = bare_thread_id(s.as_str());
        let mut out: String = prefix;
        out.append(id.as_str());
        out.append(":");
        out
    }
}

/// Whatever a caller asks for, the thread is one of this channel.
pub proof fn law_thread_stays_in_channel(channel: Seq<char>, raw: Seq<char>)
    ensures
        text::starts_with(memory_thread_id(channel, raw), channel + ":"@),
        text::ends_with(memory_thread_id(channel, raw), ":"@),
{
    let s = text::trim(raw);
    let prefix = channel + ":"@;
    let name = memory_thread_id(channel, raw);
    if text::starts_with(s, prefix) {
        if !text::ends_with(s, ":"@) {
            assert(name.subrange(0, prefix.len() as int) =~= s.subrange(0, prefix.len() as int));
            assert(name.subrange(name.len() - ":"@.len(), name.len() as int) =~= ":"@);
        }
    } else {
        assert(name.subrange(0, prefix.len() as int) =~= prefix);
        assert(name.subrange(name.len() - ":"@.len(), name.len() as int) =~= ":"@);
    }
}

// ---------------------------------------------------------------------------
// Requests about threads
// ---------------------------------------------------------------------------

/// Reads the user that a request is about.
pub fn required_user(raw: &str) -> (r: Result<String, ApiError>)
    ensures
        match text::non_blank(raw@) {
            Some(user) => r matches Ok(u) && u@ == user,
            None => r matches Err(e) && api_error::is_error(
                e,
                400,
                "invalid_user"@,
                "Query parameter `user` is required."@,
            ),
        },
{
    match text::non_blank_text(raw) {
        Some(user) => Ok(user),
        None => Err(api_error(400, "invalid_user", "Query parameter `user` is required.")),
    }
}

/// Reads the thread that a request is about.
pub fn required_thread(raw: &str) -> (r: Result<String, ApiError>)
    ensures
        match text::non_blank(raw@) {
            Some(thread) => r matches Ok(t) && t@ == thread,
            None => r matches Err(e) && api_error::is_error(
                e,
                400,
                "invalid_thread"@,
                "Empty thread id."@,
            ),
        },
{
    match text::non_blank_text(raw) {
        Some(thread) => Ok(thread),
        None => Err(api_error(400, "invalid_thread", "Empty thread id.")),
    }
}

/// What is deleted of a thread.
#[derive(Debug)]
pub struct ThreadDeletion {
    /// The thread as the store knows it.
    pub bare_id: String,
    /// The thread as the memory knows it.
    pub memory_thread_id: String,
    pub user: String,
}

/// Whether this is what is to be deleted. The thread is looked at before the user.
pub open spec fn is_deletion_of(
    channel: Seq<char>,
    thread: Seq<char>,
    user: Seq<char>,
    r: Result<ThreadDeletion, ApiError>,
) -> bool {
    match (text::non_blank(thread), text::non_blank(user)) {
        (None, _) => r matches Err(e) && api_error::is_error(
            e,
            400,
            "invalid_thread"@,
            "Empty thread id."@,
        ),
        (Some(_), None) => r matches Err(e) && api_error::is_error(
            e,
            400,
            "invalid_user"@,
            "Query parameter `user` is required."@,
        ),
        (Some(t), Some(u)) => r matches Ok(d) && d.bare_id@ == bare_id(t)
            && d.memory_thread_id@ == memory_thread_id(channel, t) && d.user@ == u,
    }
}

/// Reads what is to be deleted. The thread is looked at before the user.
pub fn thread_deletion(channel: &str, thread: &str, user: &str) -> (r: Result<
    ThreadDeletion,
    ApiError,
>)
    ensures
        is_deletion_of(channel@, thread@, user@, r),
{
    match required_thread(thread) {
        Err(e) => Err(e),
        Ok(t) => match required_user(user) {
            Err(e) => Err(e),
            Ok(u) => Ok(
                ThreadDeletion {
                    bare_id: bare_thread_id(t.as_str()),
                    memory_thread_id: resolve_memory_thread_id(channel, t.as_str()),
                    user: u,
                },
            ),
        },
    }
}

/// What follows the deletion of a thread's responses.
#[derive(Debug)]
pub enum DeletionStep {
    /// The memory of the thread is cleared too: the user had responses in it.
    ClearMemory,
    /// The request is answered.
    Reply(Json),
    Fail(ApiError),
}

/// What a deletion is answered with.
pub open spec fn deletion_reply(deleted: bool, removed: nat, thread: Seq<char>) -> JsonView {
    JsonView::Object(
        seq![
            ("deleted"@, JsonView::Bool(deleted)),
            ("responses_removed"@, JsonView::Number(text::decimal(removed))),
            ("thread_id"@, JsonView::Str(thread)),
        ],
    )
}

/// Writes what a deletion is answered with.
fn write_deletion_reply(deleted: bool, removed: usize, thread: &str) -> (r: Json)
    ensures
        r@ == deletion_reply(deleted, removed as nat, thread@),
{
    let mut members: Vec<(String, Json)> = json::no_members();
    json::put(&mut members, "deleted", Json::Bool(deleted));
    json::put(&mut members, "responses_removed", Json::Number(text::decimal_usize(removed)));
    json::put(&mut members, "thread_id", json::string(thread));
    let out = json::object(members);
    assert(out@->Object_0 =~= deletion_reply(deleted, removed as nat, thread@)->Object_0);
    out
}

/// Whether the step follows the deletion of a thread's responses: the memory is cleared only for
/// a user who had responses in the thread.
pub open spec fn follows_deletion(
    removed: Result<usize, String>,
    thread: Seq<char>,
    r: DeletionStep,
) -> bool {
    match removed {
        Ok(n) => if n > 0 {
            r is ClearMemory
        } else {
            r matches DeletionStep::Reply(j) && j@ == deletion_reply(
                false,
                0,
                thread,
            )
        },
        Err(message) => r matches DeletionStep::Fail(e) && api_error::is_error(
            e,
            500,
            "thread_delete_unavailable"@,
            message@,
        ),
    }
}

/// Goes on after the deletion of a thread's responses: the memory is cleared only for a user
/// who had responses in the thread.
pub fn after_deletion(removed: Result<usize, String>, deletion: &ThreadDeletion) -> (r: DeletionStep)
    ensures
        follows_deletion(removed, deletion.bare_id@, r),
{
    match removed {
        Ok(n) => {
            if n > 0 {
                DeletionStep::ClearMemory
            } else {
                DeletionStep::Reply(write_deletion_reply(false, 0, deletion.bare_id.as_str()))
            }
        },
        Err(message) => DeletionStep::Fail(
            api_error(500, "thread_delete_unavailable", message.as_str()),
        ),
    }
}

/// Whether this is the answer once the memory of a deleted thread was cleared.
pub open spec fn follows_clearing(
    cleared: Result<(), String>,
    removed: nat,
    thread: Seq<char>,
    r: Result<Json, ApiError>,
) -> bool {
    match cleared {
        Ok(_) => r matches Ok(j) && j@ == deletion_reply(
            true,
            removed,
            thread,
        ),
        Err(why) => r matches Err(e) && api_error::is_error(
            e,
            500,
            "memory_unavailable"@,
            why@,
        ),
    }
}

/// Goes on after the memory of a deleted thread was cleared.
pub fn after_clearing(cleared: Result<(), String>, removed: usize, deletion: &ThreadDeletion) -> (r:
    Result<Json, ApiError>)
    ensures
        follows_clearing(cleared, removed as nat, deletion.bare_id@, r),
{
    match cleared {
        Ok(_) => Ok(write_deletion_reply(true, removed, deletion.bare_id.as_str())),
        Err(why) => Err(api_error(500, "memory_unavailable", why.as_str())),
    }
}

/// The answer where the threads of a user cannot be listed.
pub fn thread_list_error(why: &str) -> (r: ApiError)
    ensures
        api_error::is_error(r, 500, "thread_list_unavailable"@, why@),
{
    api_error(500, "thread_list_unavailable", why)
}

/// The answer where the messages of a thread cannot be read.
pub fn thread_memory_error(why: &str) -> (r: ApiError)
    ensures
        api_error::is_error(r, 500, "memory_unavailable"@, why@),
{
    api_error(500, "memory_unavailable", why)
}

// ---------------------------------------------------------------------------
// Laws of the requests
// ---------------------------------------------------------------------------

/// Two conversations, one after the other, are listed one after the other, and a message alone
/// is at most one row.
pub proof fn law_rows_of_two_conversations(a: Seq<MessageView>, b: Seq<MessageView>)
    ensures
        transcript_rows(a + b) == transcript_rows(a) + transcript_rows(b),
        a.len() == 1 ==> (transcript_rows(a) == match row_of(a[0]) {
            Some(row) => seq![row],
            None => Seq::empty(),
        }),
    decreases b.len(),
{
    reveal_with_fuel(transcript_rows, 2);
    if b.len() == 0 {
        assert(a + b =~= a);
        assert(transcript_rows(a) + transcript_rows(b) =~= transcript_rows(a));
    } else {
        law_rows_of_two_conversations(a, b.drop_last());
        assert((a + b).drop_last() =~= a + b.drop_last());
        assert((a + b).last() == b.last());
        assert(transcript_rows(a + b) =~= transcript_rows(a) + transcript_rows(b));
    }
    if a.len() == 1 {
        assert(a.drop_last() =~= Seq::empty());
        assert(transcript_rows(a) =~= match row_of(a[0]) {
            Some(row) => seq![row],
            None => Seq::empty(),
        });
    }
}

/// A message that says something, or that brings an image, is listed under the role of the one
/// who sent it, with every image; one of a tool or of the system is not, nor is one that is
/// empty.
pub proof fn law_messages_are_listed_as_sent(m: MessageView, t: Seq<char>)
    ensures
        m.role == "tool"@ || m.role == "system"@ ==> row_of(m) is None,
        m.role == "assistant"@ && m.content == Some(message::ContentView::Text(t)) ==> (row_of(m)
            matches Some(row) ==> row.role == "assistant"@ && row.content == text::trim(
            message::without_thinking(t),
        ) && row.image_urls is None),
        m.role == "assistant"@ && m.content == Some(message::ContentView::Text(t)) ==> (row_of(m) is Some
            <==> text::trim(message::without_thinking(t)).len() > 0),
        m.role == "user"@ && m.content == Some(message::ContentView::Text(t)) ==> (row_of(m) is Some
            <==> text::trim(without_runtime_context(t)).len() > 0),
        m.role == "user"@ && m.content == Some(message::ContentView::Text(t)) ==> (row_of(m) matches Some(
            row,
        ) ==> row.role == "user"@ && row.content == text::trim(without_runtime_context(t))
            && row.image_urls is None),
        (m.role == "user"@ || m.role == "assistant"@) && history_cells::text_and_images(
            m.content,
        ).1.len() > 0 ==> (row_of(m) matches Some(row) && row.role == m.role && row.image_urls
            == Some(history_cells::text_and_images(m.content).1)),
{
    reveal_strlit("user");
    reveal_strlit("assistant");
    reveal_strlit("tool");
    reveal_strlit("system");
    assert("user"@.len() == 4 && "tool"@.len() == 4 && "system"@.len() == 6 && "assistant"@.len()
        == 9);
    assert("user"@[0] == 'u' && "tool"@[0] == 't');
    text::lemma_trim_idempotent(message::without_thinking(t));
}

/// What follows the mark of the end of the runtime context is what the user wrote, but for
/// white space at its start.
pub proof fn law_text_after_the_context_is_kept(t: Seq<char>, rest: Seq<char>)
    requires
        text::after_first(t, RUNTIME_CONTEXT_END_SUFFIX@) == Some(rest),
    ensures
        without_runtime_context(t) == text::trim_start(rest),
{
}

/// A thread is previewed by its first line: whole where that has fifty-six characters or fewer,
/// and else by the first fifty-six and a mark that more follows.
pub proof fn law_preview_is_the_first_line(line: Seq<char>, rest: Seq<char>)
    requires
        !line.contains('\n'),
    ensures
        text::trim(line).len() <= 56 ==> preview(line) == text::trim(line),
        text::trim(line).len() > 56 ==> preview(line) == text::trim(line).take(56) + "…"@,
        preview(line + seq!['\n'] + rest) == preview(line),
        thread_preview(None).len() == 0,
        thread_preview(Some(line)) == preview(without_runtime_context(line)),
{
    let is_sep = text::is_char('\n');
    assert forall|i: int| 0 <= i < line.len() implies !is_sep(#[trigger] line[i]) by {
        assert(line.contains(line[i]));
    }
    text::law_split_at_separators(line, '\n', rest, is_sep);
    text::lemma_split_by_first(line, '\n', rest, is_sep);
    assert((seq![line] + text::split_by(rest, is_sep))[0] == line);
    assert(seq![line][0] == line);
}

/// A thread's plain id is remembered under the channel, and the name that it is remembered by
/// leads to the same thread again. Of a name with colons the last part that is not empty is the
/// id.
pub proof fn law_thread_is_found_again(channel: Seq<char>, id: Seq<char>, before: Seq<char>)
    requires
        id.len() > 0,
        !id.contains(':'),
        text::trim(id) == id,
    ensures
        bare_id(id) == id,
        bare_id(before + seq![':'] + id) == id,
        bare_id(before + seq![':'] + id + seq![':']) == id,
        memory_thread_id(channel, id) == channel + ":"@ + id + ":"@,
        bare_id(memory_thread_id(channel, id)) == id,
        text::trim(channel) == channel && channel.len() > 0 ==> memory_thread_id(
            channel,
            memory_thread_id(channel, id),
        ) == memory_thread_id(channel, id),
{
    let is_sep = text::is_char(':');
    reveal_strlit(":");
    assert(":"@ =~= seq![':']);
    reveal_with_fuel(last_non_empty, 3);
    assert forall|i: int| 0 <= i < id.len() implies !is_sep(#[trigger] id[i]) by {
        assert(id.contains(id[i]));
    }
    text::law_split_at_separators(id, ':', Seq::empty(), is_sep);
    assert(text::split_at_char(id, ':').last() == id);
    lemma_last_part(before, id);
    lemma_last_part(channel, id);
    let name = channel + ":"@ + id + ":"@;
    assert(name =~= channel + seq![':'] + id + seq![':']);
    if text::starts_with(id, channel + ":"@) {
        let n = channel.len() as int;
        assert(id.subrange(0, n + 1)[n] == ':');
        assert(id[n] == ':');
        assert(id.contains(':'));
    }
    if text::trim(channel) == channel && channel.len() > 0 {
        text::lemma_trim_ends(channel);
        assert(name[0] == channel[0] && name.last() == ':');
        assert(!text::is_white_space(':'));
        assert(text::trim(name) == name);
        assert(name.subrange(0, channel.len() as int + 1) =~= channel + ":"@);
        assert(name.subrange(name.len() - 1, name.len() as int) =~= ":"@);
    }
}

proof fn lemma_last_part(before: Seq<char>, id: Seq<char>)
    requires
        id.len() > 0,
        !id.contains(':'),
    ensures
        bare_id(before + seq![':'] + id) == id,
        bare_id(before + seq![':'] + id + seq![':']) == id,
{
    let is_sep = text::is_char(':');
    reveal_with_fuel(last_non_empty, 3);
    assert forall|i: int| 0 <= i < id.len() implies !is_sep(#[trigger] id[i]) by {
        assert(id.contains(id[i]));
    }
    let none = Seq::<char>::empty();
    text::law_split_at_separators(id, ':', none, is_sep);
    text::law_split_at_separators(before, ':', id, is_sep);
    let one = before + seq![':'] + id;
    let parts = text::split_by(before, is_sep) + seq![id];
    assert(text::split_by(one, is_sep) == parts);
    assert(parts.last() == id);
    text::law_split_at_separators(one, ':', none, is_sep);
    assert(one + seq![':'] + none =~= one + seq![':']);
    text::law_split_at_separators(none, ':', none, is_sep);
    let more = parts + seq![none];
    assert(text::split_by(one + seq![':'], is_sep) == more);
    assert(more.last() == none);
    assert(more.drop_last() =~= parts);
}

/// A deletion is answered with whether anything was deleted, how many responses went, and the
/// thread that was meant.
pub proof fn law_deletion_is_told(deleted: bool, removed: nat, thread: Seq<char>)
    ensures
        deletion_reply(deleted, removed, thread).get("deleted"@) == Some(JsonView::Bool(deleted)),
        deletion_reply(deleted, removed, thread).get("responses_removed"@) == Some(
            JsonView::Number(text::decimal(removed)),
        ),
        deletion_reply(deleted, removed, thread).get("thread_id"@) == Some(JsonView::Str(thread)),
{
    reveal_strlit("deleted");
    reveal_strlit("responses_removed");
    reveal_strlit("thread_id");
    assert("deleted"@.len() == 7 && "responses_removed"@.len() == 17 && "thread_id"@.len() == 9);
    let members = deletion_reply(deleted, removed, thread)->Object_0;
    json::lemma_member_at(members, "deleted"@, 0);
    json::lemma_member_at(members, "responses_removed"@, 1);
    json::lemma_member_at(members, "thread_id"@, 2);
}

/// A deletion means the thread and the user that were named, trimmed, and is refused where either
/// is missing.
pub proof fn law_deletion_is_of_what_was_named(
    channel: Seq<char>,
    thread: Seq<char>,
    user: Seq<char>,
    r: Result<ThreadDeletion, ApiError>,
)
    requires
        is_deletion_of(channel, thread, user, r),
    ensures
        r is Ok <==> text::trim(thread).len() > 0 && text::trim(user).len() > 0,
        r matches Ok(d) ==> d.user@ == text::trim(user) && d.bare_id@ == bare_id(text::trim(thread))
            && d.memory_thread_id@ == memory_thread_id(channel, text::trim(thread)),
        r matches Err(e) ==> e.status == 400,
        text::trim(thread).len() == 0 ==> (r matches Err(e) && e.code@ == "invalid_thread"@),
        text::trim(thread).len() > 0 && text::trim(user).len() == 0 ==> (r matches Err(e) && e.code@
            == "invalid_user"@),
{
}

/// The memory of a thread is cleared only where responses of the user went, and the answer says
/// how many; a deletion that failed says why and clears nothing.
pub proof fn law_memory_goes_with_the_responses(
    removed: Result<usize, String>,
    thread: Seq<char>,
    r: DeletionStep,
    cleared: Result<(), String>,
    count: nat,
    last: Result<Json, ApiError>,
)
    requires
        follows_deletion(removed, thread, r),
        follows_clearing(cleared, count, thread, last),
    ensures
        r is ClearMemory <==> (removed matches Ok(n) && n > 0),
        removed == Ok::<usize, String>(0) ==> (r matches DeletionStep::Reply(j) && j@.get(
            "deleted"@,
        ) == Some(JsonView::Bool(false)) && j@.text_at("thread_id"@) == Some(thread)),
        removed matches Err(why) ==> (r matches DeletionStep::Fail(e) && e.status == 500
            && e.message@ == why@),
        cleared is Ok ==> (last matches Ok(j) && j@.get("deleted"@) == Some(JsonView::Bool(true))
            && j@.get("responses_removed"@) == Some(JsonView::Number(text::decimal(count)))
            && j@.text_at("thread_id"@) == Some(thread)),
        cleared matches Err(why) ==> (last matches Err(e) && e.status == 500 && e.message@ == why@),
{
    law_deletion_is_told(false, 0, thread);
    law_deletion_is_told(true, count, thread);
}

} // verus!
