//! Chat messages: what is said, by whom, and which tools are called.
use vstd::prelude::*;
use crate::outside;
use crate::text;

verus! {

/// Stands between the runtime context that is put in front of a user's text and
/// the text itself.
pub const RUNTIME_CONTEXT_END_SUFFIX: &'static str = "\n[END RUNTIME CONTEXT]\n";

/// The regular expression for the thinking markup that some models leave in
/// their text.
pub const REDACTED_THINKING_STRIP_PATTERN: &'static str =
    "(?s)<(?:redacted_)?think(?:ing)?>.*?</(?:redacted_)?think(?:ing)?>";

/// The name and the argument text of a tool call.
#[derive(Clone, Debug)]
pub struct ToolCallFunction {
    pub name: String,
    pub arguments: String,
}

/// A tool call that a model asks for. `extra_content` is the JSON text of what a
/// provider wants to see again with the call.
#[derive(Clone, Debug)]
pub struct ToolCallRequest {
    pub id: String,
    pub tool_type: String,
    pub extra_content: Option<String>,
    pub function: ToolCallFunction,
}

/// Where an image is found.
#[derive(Clone, Debug)]
pub struct ImageUrl {
    pub url: String,
    pub detail: Option<String>,
}

/// A document that goes with a message.
#[derive(Clone, Debug)]
pub struct DocumentPart {
    pub name: Option<String>,
    pub data: String,
}

/// One part of a message that has several.
#[derive(Clone, Debug)]
pub enum ContentPart {
    Text { text: String },
    ImageUrl { image_url: ImageUrl },
    Document { document: DocumentPart },
}

/// What a message holds.
#[derive(Clone, Debug)]
pub enum MessageContent {
    Text(String),
    Parts(Vec<ContentPart>),
}

/// A message of a conversation.
#[derive(Clone, Debug)]
pub struct ChatMessage {
    pub role: String,
    pub content: Option<MessageContent>,
    pub name: Option<String>,
    pub tool_calls: Option<Vec<ToolCallRequest>>,
    pub tool_call_id: Option<String>,
    pub reasoning_content: Option<String>,
    pub is_error: Option<bool>,
}

/// A tool call in the abstract.
#[verifier::ext_equal]
pub struct ToolCallView {
    pub id: Seq<char>,
    pub tool_type: Seq<char>,
    pub extra_content: Option<Seq<char>>,
    pub name: Seq<char>,
    pub arguments: Seq<char>,
}

/// A part of a message in the abstract.
#[verifier::ext_equal]
pub enum PartView {
    Text(Seq<char>),
    ImageUrl { url: Seq<char>, detail: Option<Seq<char>> },
    Document { name: Option<Seq<char>>, data: Seq<char> },
}

/// The content of a message in the abstract.
#[verifier::ext_equal]
pub enum ContentView {
    Text(Seq<char>),
    Parts(Seq<PartView>),
}

/// A message in the abstract.
#[verifier::ext_equal]
pub struct MessageView {
    pub role: Seq<char>,
    pub content: Option<ContentView>,
    pub name: Option<Seq<char>>,
    pub tool_calls: Option<Seq<ToolCallView>>,
    pub tool_call_id: Option<Seq<char>>,
    pub reasoning_content: Option<Seq<char>>,
    pub is_error: Option<bool>,
}

impl DeepView for ToolCallRequest {
    type V = ToolCallView;

    open spec fn deep_view(&self) -> ToolCallView {
        ToolCallView {
            id: self.id@,
            tool_type: self.tool_type@,
            extra_content: self.extra_content.deep_view(),
            name: self.function.name@,
            arguments: self.function.arguments@,
        }
    }
}

impl DeepView for ContentPart {
    type V = PartView;

    open spec fn deep_view(&self) -> PartView {
        match *self {
            ContentPart::Text { text } => PartView::Text(text@),
            ContentPart::ImageUrl { image_url } => PartView::ImageUrl {
                url: image_url.url@,
                detail: image_url.detail.deep_view(),
            },
            ContentPart::Document { document } => PartView::Document {
                name: document.name.deep_view(),
                data: document.data@,
            },
        }
    }
}

impl DeepView for MessageContent {
    type V = ContentView;

    open spec fn deep_view(&self) -> ContentView {
        match *self {
            MessageContent::Text(text) => ContentView::Text(text@),
            MessageContent::Parts(parts) => ContentView::Parts(parts.deep_view()),
        }
    }
}

impl DeepView for ChatMessage {
    type V = MessageView;

    open spec fn deep_view(&self) -> MessageView {
        MessageView {
            role: self.role@,
            content: self.content.deep_view(),
            name: self.name.deep_view(),
            tool_calls: self.tool_calls.deep_view(),
            tool_call_id: self.tool_call_id.deep_view(),
            reasoning_content: self.reasoning_content.deep_view(),
            is_error: self.is_error,
        }
    }
}

/// A message that holds nothing but a role and a text.
pub open spec fn plain_message(role: Seq<char>, text: Seq<char>) -> MessageView {
    MessageView {
        role,
        content: Some(ContentView::Text(text)),
        name: None,
        tool_calls: None,
        tool_call_id: None,
        reasoning_content: None,
        is_error: None,
    }
}

/// The result of a tool call as a message.
pub open spec fn tool_message(
    text: Seq<char>,
    id: Seq<char>,
    name: Option<Seq<char>>,
    is_error: Option<bool>,
) -> MessageView {
    MessageView {
        role: "tool"@,
        content: Some(ContentView::Text(text)),
        name,
        tool_calls: None,
        tool_call_id: Some(id),
        reasoning_content: None,
        is_error,
    }
}

fn plain(role: &str, text: &str) -> (r: ChatMessage)
    ensures
        r.deep_view() == plain_message(role@, text@),
{
    ChatMessage {
        role: role.to_owned(),
        content: Some(MessageContent::Text(text.to_owned())),
        name: None,
        tool_calls: None,
        tool_call_id: None,
        reasoning_content: None,
        is_error: None,
    }
}

impl ChatMessage {
    /// What a user says.
    pub fn user(text: &str) -> (r: Self)
        ensures
            r.deep_view() == plain_message("user"@, text@),
    {
        plain("user", text)
    }

    /// What a user says, with what goes with it.
    pub fn user_multimodal(text: &str, attachments: Vec<ContentPart>) -> (r: Self)
        ensures
            r.deep_view() == (MessageView {
                content: Some(
                    ContentView::Parts(seq![PartView::Text(text@)] + attachments.deep_view()),
                ),
                ..plain_message("user"@, text@)
            }),
    {
        let ghost given = attachments.deep_view();
        let mut attachments: Vec<ContentPart> = attachments;
        let mut parts: Vec<ContentPart> = Vec::new();
        parts.push(ContentPart::Text { text: text.to_owned() });
        parts.append(&mut attachments);
        assert(parts.deep_view() =~= seq![PartView::Text(text@)] + given);
        ChatMessage {
            role: "user".to_owned(),
            content: Some(MessageContent::Parts(parts)),
            name: None,
            tool_calls: None,
            tool_call_id: None,
            reasoning_content: None,
            is_error: None,
        }
    }

    /// What the system says.
    pub fn system(text: &str) -> (r: Self)
        ensures
            r.deep_view() == plain_message("system"@, text@),
    {
        plain("system", text)
    }

    /// What the assistant says.
    pub fn assistant(text: &str) -> (r: Self)
        ensures
            r.deep_view() == plain_message("assistant"@, text@),
    {
        plain("assistant", text)
    }

    /// The result of the tool call `id`.
    pub fn tool(text: &str, id: &str, name: Option<&str>) -> (r: Self)
        ensures
            r.deep_view() == tool_message(text@, id@, name.deep_view(), None),
    {
        ChatMessage {
            role: "tool".to_owned(),
            content: Some(MessageContent::Text(text.to_owned())),
            name: match name {
                Some(n) => Some(n.to_owned()),
                None => None,
            },
            tool_calls: None,
            tool_call_id: Some(id.to_owned()),
            reasoning_content: None,
            is_error: None,
        }
    }

    /// The result of the tool call `id`, marked as a success or a failure.
    pub fn tool_with_error(text: &str, id: &str, name: Option<&str>, is_error: bool) -> (r: Self)
        ensures
            r.deep_view() == tool_message(text@, id@, name.deep_view(), Some(is_error)),
    {
        let mut message = ChatMessage::tool(text, id, name);
        message.is_error = Some(is_error);
        message
    }
}

/// The texts among the parts, in their order.
pub open spec fn part_texts(parts: Seq<PartView>) -> Seq<Seq<char>>
    decreases parts.len(),
{
    if parts.len() == 0 {
        Seq::empty()
    } else {
        let before = part_texts(parts.drop_last());
        match parts.last() {
            PartView::Text(text) => before.push(text),
            _ => before,
        }
    }
}

/// The text of a message's content: its parts' texts, one per line.
pub open spec fn content_text(content: ContentView) -> Seq<char> {
    match content {
        ContentView::Text(text) => text,
        ContentView::Parts(parts) => text::join(part_texts(parts), "\n"@),
    }
}

impl MessageContent {
    /// The text of the content: that of its parts, one per line, where it has
    /// several.
    pub fn text_content(&self) -> (r: String)
        ensures
            r@ == content_text(self.deep_view()),
    {
        match self {
            MessageContent::Text(text) => text.clone(),
            MessageContent::Parts(parts) => {
                let mut texts: Vec<String> = Vec::new();
                let mut i: usize = 0;
                assert(parts.deep_view().take(0) =~= Seq::<PartView>::empty());
                while i < parts.len()
                    invariant
                        i <= parts@.len(),
                        texts.deep_view() == part_texts(parts.deep_view().take(i as int)),
                    decreases parts@.len() - i,
                {
                    let ghost before = texts.deep_view();
                    assert(parts.deep_view().take(i + 1).drop_last() =~= parts.deep_view().take(
                        i as int,
                    ));
                    if let ContentPart::Text { text } = &parts[i] {
                        texts.push(text.clone());
                        assert(texts.deep_view() =~= before.push(text@));
                    }
                    i = i + 1;
                }
                assert(parts.deep_view().take(i as int) =~= parts.deep_view());
                text::joined(&texts, "\n")
            },
        }
    }
}

/// The text without the model's thinking; the text itself if the expression for the thinking
/// does not compile.
pub open spec fn without_thinking(t: Seq<char>) -> Seq<char> {
    match outside::regex_replaced_all(REDACTED_THINKING_STRIP_PATTERN@, t, ""@) {
        Some(visible) => visible,
        None => t,
    }
}

/// Takes the model's thinking out of a text.
pub fn strip_thinking(t: &str) -> (r: String)
    ensures
        r@ == without_thinking(t@),
{
    match outside::regex_replace_all(REDACTED_THINKING_STRIP_PATTERN, t, "") {
        Some(visible) => visible,
        None => t.to_owned(),
    }
}

/// The text of a message of several parts holds the texts of its parts, each on lines of its
/// own and in their order; what is no text adds nothing.
pub proof fn law_texts_of_two_lists_of_parts(a: Seq<PartView>, b: Seq<PartView>)
    ensures
        part_texts(a + b) == part_texts(a) + part_texts(b),
        a.len() == 1 ==> (part_texts(a) == match a[0] {
            PartView::Text(t) => seq![t],
            _ => Seq::empty(),
        }),
        part_texts(a).len() > 0 && part_texts(b).len() > 0 ==> content_text(
            ContentView::Parts(a + b),
        ) == content_text(ContentView::Parts(a)) + "\n"@ + content_text(ContentView::Parts(b)),
        part_texts(b).len() == 0 ==> content_text(ContentView::Parts(a + b)) == content_text(
            ContentView::Parts(a),
        ),
    decreases b.len(),
{
    reveal_with_fuel(part_texts, 2);
    if b.len() == 0 {
        assert(a + b =~= a);
        assert(part_texts(a) + part_texts(b) =~= part_texts(a));
    } else {
        law_texts_of_two_lists_of_parts(a, b.drop_last());
        assert((a + b).drop_last() =~= a + b.drop_last());
        assert((a + b).last() == b.last());
        assert(part_texts(a + b) =~= part_texts(a) + part_texts(b));
    }
    if a.len() == 1 {
        assert(a.drop_last() =~= Seq::empty());
        assert(part_texts(a) =~= match a[0] {
            PartView::Text(t) => seq![t],
            _ => Seq::empty(),
        });
    }
    crate::text::law_join_of_two_lists(part_texts(a), part_texts(b), "\n"@);
    if part_texts(b).len() == 0 {
        assert(part_texts(a) + part_texts(b) =~= part_texts(a));
    }
}

/// A message of one text says that text, and a message of a single part says that part's.
pub proof fn law_plain_content_is_its_text(t: Seq<char>, role: Seq<char>)
    ensures
        content_text(ContentView::Text(t)) == t,
        content_text(ContentView::Parts(seq![PartView::Text(t)])) == t,
        plain_message(role, t).role == role,
        plain_message(role, t).content == Some(ContentView::Text(t)),
        plain_message(role, t).tool_calls is None,
        plain_message(role, t).tool_call_id is None,
{
    law_texts_of_two_lists_of_parts(seq![PartView::Text(t)], Seq::empty());
    crate::text::law_join_of_two_lists(seq![t], Seq::empty(), "\n"@);
}

/// A tool's message answers the call whose number it bears.
pub proof fn law_tool_message_answers_its_call(
    t: Seq<char>,
    id: Seq<char>,
    name: Option<Seq<char>>,
    is_error: Option<bool>,
)
    ensures
        tool_message(t, id, name, is_error).role == "tool"@,
        tool_message(t, id, name, is_error).content == Some(ContentView::Text(t)),
        tool_message(t, id, name, is_error).tool_call_id == Some(id),
        tool_message(t, id, name, is_error).name == name,
        tool_message(t, id, name, is_error).is_error == is_error,
        tool_message(t, id, name, is_error).tool_calls is None,
{
}

} // verus!
