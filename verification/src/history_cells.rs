//! A stored conversation as the terminal shows it.
use vstd::prelude::*;
use vstd::string::*;
use crate::message::{
    strip_thinking, ChatMessage, ContentPart, ContentView, MessageContent, MessageView, PartView,
    RUNTIME_CONTEXT_END_SUFFIX,
};
use crate::message;
use crate::prompt;
use crate::text;

verus! {

broadcast use vstd::string::group_string_axioms;

/// One entry of the transcript.
#[derive(Debug)]
pub enum Cell {
    User { text: String },
    Assistant { markdown: String },
}

/// An entry of the transcript in the abstract.
#[verifier::ext_equal]
pub enum CellView {
    User(Seq<char>),
    Assistant(Seq<char>),
}

impl DeepView for Cell {
    type V = CellView;

    open spec fn deep_view(&self) -> CellView {
        match self {
            Cell::User { text } => CellView::User(text@),
            Cell::Assistant { markdown } => CellView::Assistant(markdown@),
        }
    }
}

/// What follows the runtime context, without the white space at its start; the text itself
/// where there is no runtime context.
pub open spec fn without_runtime_context(t: Seq<char>) -> Seq<char> {
    match text::after_first(t, RUNTIME_CONTEXT_END_SUFFIX@) {
        Some(rest) => text::trim_start(rest),
        None => t,
    }
}

/// Takes the runtime context off the front of a message.
pub fn strip_runtime_context_prefix(t: &str) -> (r: String)
    ensures
        r@ == without_runtime_context(t@),
{
    match text::text_after(t, RUNTIME_CONTEXT_END_SUFFIX) {
        Some(rest) => text::trimmed_start(rest.as_str()),
        None => t.to_owned(),
    }
}

/// Takes the model's thinking out of an answer, and the white space at its ends.
pub fn strip_model_thinking_markup(t: &str) -> (r: String)
    ensures
        r@ == text::trim(message::without_thinking(t@)),
{
    let visible: String = strip_thinking(t);
    text::trimmed(visible.as_str())
}

/// The texts of the parts; a document is shown as such.
pub open spec fn shown_texts(parts: Seq<PartView>) -> Seq<Seq<char>>
    decreases parts.len(),
{
    if parts.len() == 0 {
        Seq::empty()
    } else {
        let head = shown_texts(parts.drop_last());
        match parts.last() {
            PartView::Text(t) => head.push(t),
            PartView::Document { .. } => head.push("[document attachment]"@),
            PartView::ImageUrl { .. } => head,
        }
    }
}

/// Where the images of the parts are.
pub open spec fn image_urls(parts: Seq<PartView>) -> Seq<Seq<char>>
    decreases parts.len(),
{
    if parts.len() == 0 {
        Seq::empty()
    } else {
        let head = image_urls(parts.drop_last());
        match parts.last() {
            PartView::ImageUrl { url, .. } => head.push(url),
            _ => head,
        }
    }
}

/// The text of a message, and where its images are.
pub open spec fn text_and_images(content: Option<ContentView>) -> (Seq<char>, Seq<Seq<char>>) {
    match content {
        Some(ContentView::Parts(parts)) => (
            text::join(shown_texts(parts), "\n\n"@),
            image_urls(parts),
        ),
        Some(ContentView::Text(s)) => (s, Seq::empty()),
        None => (Seq::empty(), Seq::empty()),
    }
}

/// Splits a message into its text and where its images are.
pub fn text_and_images_from_message(m: &ChatMessage) -> (r: (String, Vec<String>))
    ensures
        (r.0@, r.1.deep_view()) == text_and_images(m.deep_view().content),
{
    match &m.content {
        Some(MessageContent::Parts(parts)) => {
            let ghost all = parts.deep_view();
            let mut texts: Vec<String> = Vec::new();
            let mut urls: Vec<String> = Vec::new();
            let mut i: usize = 0;
            assert(texts.deep_view() =~= shown_texts(all.take(0)));
            assert(urls.deep_view() =~= image_urls(all.take(0)));
            while i < parts.len()
                invariant
                    i <= parts@.len(),
                    all == parts.deep_view(),
                    texts.deep_view() == shown_texts(all.take(i as int)),
                    urls.deep_view() == image_urls(all.take(i as int)),
                decreases parts@.len() - i,
            {
                let ghost texts_before = texts.deep_view();
                let ghost urls_before = urls.deep_view();
                assert(all.take(i + 1).drop_last() =~= all.take(i as int));
                assert(all.take(i + 1).last() == parts@[i as int].deep_view());
                match &parts[i] {
                    ContentPart::Text { text } => {
                        texts.push(text.clone());
                        assert(texts.deep_view() =~= texts_before.push(text@));
                    },
                    ContentPart::ImageUrl { image_url } => {
                        urls.push(image_url.url.clone());
                        assert(urls.deep_view() =~= urls_before.push(image_url.url@));
                    },
                    ContentPart::Document { .. } => {
                        texts.push("[document attachment]".to_owned());
                        assert(texts.deep_view() =~= texts_before.push("[document attachment]"@));
                    },
                }
                i = i + 1;
            }
            assert(all.take(i as int) =~= all);
            (text::joined(texts.as_slice(), "\n\n"), urls)
        },
        Some(MessageContent::Text(s)) => {
            let none: Vec<String> = Vec::new();
            assert(none.deep_view() =~= Seq::<Seq<char>>::empty());
            (s.clone(), none)
        },
        None => {
            let none: Vec<String> = Vec::new();
            assert(none.deep_view() =~= Seq::<Seq<char>>::empty());
            let empty: String = String::new();
            assert(empty@ =~= Seq::<char>::empty());
            (empty, none)
        },
    }
}

/// What is seen of a message's text: without the runtime context where a user wrote it,
/// without the thinking where the model did.
pub open spec fn visible_text(m: MessageView) -> Seq<char> {
    let t = text_and_images(m.content).0;
    text::trim(
        if m.role == "user"@ {
            without_runtime_context(t)
        } else if m.role == "assistant"@ {
            text::trim(message::without_thinking(t))
        } else {
            t
        },
    )
}

/// The entry of a message of a user: its text, and how many images go with it.
pub open spec fn user_label(visible: Seq<char>, images: nat) -> Seq<char> {
    if images == 0 {
        visible
    } else {
        visible + (if visible.len() == 0 {
            Seq::empty()
        } else {
            "\n"@
        }) + ("("@ + text::decimal(images) + " image(s))"@)
    }
}

/// The entry of a message. Only the user and the assistant have any, and only where there is
/// something to see.
pub open spec fn cell_of(m: MessageView) -> Option<CellView> {
    let visible = visible_text(m);
    let images = text_and_images(m.content).1.len();
    if visible.len() == 0 && images == 0 {
        None
    } else if m.role == "user"@ {
        Some(CellView::User(user_label(visible, images)))
    } else if m.role == "assistant"@ {
        Some(CellView::Assistant(visible))
    } else {
        None
    }
}

/// The entries of a conversation.
pub open spec fn cells(ms: Seq<MessageView>) -> Seq<CellView>
    decreases ms.len(),
{
    if ms.len() == 0 {
        Seq::empty()
    } else {
        let head = cells(ms.drop_last());
        match cell_of(ms.last()) {
            Some(c) => head.push(c),
            None => head,
        }
    }
}

fn message_cell(m: &ChatMessage) -> (r: Option<Cell>)
    ensures
        r.deep_view() == cell_of(m.deep_view()),
{
    let is_user: bool = text::same(m.role.as_str(), "user");
    let is_assistant: bool = text::same(m.role.as_str(), "assistant");
    if !is_user && !is_assistant {
        return None;
    }
    let (given, images) = text_and_images_from_message(m);
    let stripped: String = if is_user {
        strip_runtime_context_prefix(given.as_str())
    } else {
        strip_model_thinking_markup(given.as_str())
    };
    let visible: String = text::trimmed(stripped.as_str());
    proof {
        reveal_strlit("user");
        reveal_strlit("assistant");
        assert("user"@.len() != "assistant"@.len());
        assert(images.deep_view().len() == images@.len());
    }
    if visible.as_str().is_empty() && images.len() == 0 {
        return None;
    }
    if is_user {
        let mut label: String = visible;
        if images.len() > 0 {
            let ghost shown = label@;
            if !label.as_str().is_empty() {
                label.append("\n");
            } else {
                assert(shown + Seq::<char>::empty() =~= shown);
            }
            let count: String = text::decimal_usize(images.len());
            let ghost start = label@;
            label.append("(");
            label.append(count.as_str());
            label.append(" image(s))");
            assert(label@ =~= start + ("("@ + count@ + " image(s))"@));
        }
        Some(Cell::User { text: label })
    } else {
        Some(Cell::Assistant { markdown: visible })
    }
}

/// The entries of a conversation, without those of tools and of the system.
pub fn chat_messages_to_terminal_cells(messages: &[ChatMessage]) -> (r: Vec<Cell>)
    ensures
        r.deep_view() == cells(messages.deep_view()),
{
    let ghost ms = messages.deep_view();
    let mut out: Vec<Cell> = Vec::new();
    let mut i: usize = 0;
    assert(out.deep_view() =~= cells(ms.take(0)));
    while i < messages.len()
        invariant
            i <= messages@.len(),
            ms == messages.deep_view(),
            out.deep_view() == cells(ms.take(i as int)),
        decreases messages@.len() - i,
    {
        let ghost before = out.deep_view();
        assert(ms.take(i + 1).drop_last() =~= ms.take(i as int));
        assert(ms.take(i + 1).last() == messages@[i as int].deep_view());
        if let Some(cell) = message_cell(&messages[i]) {
            out.push(cell);
            assert(out.deep_view() =~= before.push(cell.deep_view()));
        }
        i = i + 1;
    }
    assert(ms.take(i as int) =~= ms);
    out
}

// ---------------------------------------------------------------------------
// Laws
// ---------------------------------------------------------------------------

/// A message of a tool or of the system is not shown.
pub proof fn law_only_user_and_assistant_are_shown(m: MessageView)
    requires
        m.role != "user"@,
        m.role != "assistant"@,
    ensures
        cell_of(m) is None,
{
}

/// What a user wrote is shown without the runtime context that was put in front of it, but
/// for the white space at its start, where the context itself does not hold the mark of its
/// end.
pub proof fn law_runtime_context_is_hidden(
    facts: prompt::HostFacts,
    channel: Seq<char>,
    chat_id: Seq<char>,
    thread: Option<Seq<char>>,
    until: Option<Seq<char>>,
    forbid_final: bool,
    content: Seq<char>,
)
    requires
        ({
            let context = prompt::runtime_context(
                facts,
                channel,
                chat_id,
                thread,
                until,
                forbid_final,
            );
            forall|at: int|
                0 <= at < context.len() ==> !#[trigger] text::occurs_at(
                    context + RUNTIME_CONTEXT_END_SUFFIX@,
                    RUNTIME_CONTEXT_END_SUFFIX@,
                    at,
                )
        }),
    ensures
        without_runtime_context(
            prompt::contextualized(
                facts,
                channel,
                chat_id,
                thread,
                until,
                forbid_final,
                content,
            ),
        ) == text::trim_start(content),
{
    text::lemma_after_first(
        prompt::runtime_context(facts, channel, chat_id, thread, until, forbid_final),
        RUNTIME_CONTEXT_END_SUFFIX@,
        content,
    );
}

/// Two conversations, one after the other, are shown one after the other, and a message alone
/// is at most one entry.
pub proof fn law_cells_of_two_conversations(a: Seq<MessageView>, b: Seq<MessageView>)
    ensures
        cells(a + b) == cells(a) + cells(b),
        cells(Seq::empty()).len() == 0,
        a.len() == 1 ==> (cells(a) == match cell_of(a[0]) {
            Some(c) => seq![c],
            None => Seq::empty(),
        }),
    decreases b.len(),
{
    reveal_with_fuel(cells, 2);
    if b.len() == 0 {
        assert(a + b =~= a);
        assert(cells(a) + cells(b) =~= cells(a));
    } else {
        law_cells_of_two_conversations(a, b.drop_last());
        assert((a + b).drop_last() =~= a + b.drop_last());
        assert((a + b).last() == b.last());
        assert(cells(a + b) =~= cells(a) + cells(b));
    }
    if a.len() == 1 {
        assert(a.drop_last() =~= Seq::empty());
        assert(cells(a) =~= match cell_of(a[0]) {
            Some(c) => seq![c],
            None => Seq::empty(),
        });
    }
}

/// What a user wrote is shown as theirs, with how many images went with it, and what the
/// assistant wrote is shown as the assistant's, without its thinking. A message is left out
/// where there is nothing to see of it, and only there.
pub proof fn law_speakers_are_shown_as_they_are(m: MessageView, t: Seq<char>)
    requires
        m.content == Some(ContentView::Text(t)),
    ensures
        m.role == "user"@ && text::after_first(t, RUNTIME_CONTEXT_END_SUFFIX@) is None ==> cell_of(
            m,
        ) == if text::trim(t).len() > 0 {
            Some(CellView::User(text::trim(t)))
        } else {
            None
        },
        m.role == "assistant"@ ==> cell_of(m) == if text::trim(message::without_thinking(t)).len()
            > 0 {
            Some(CellView::Assistant(text::trim(message::without_thinking(t))))
        } else {
            None
        },
{
    reveal_strlit("user");
    reveal_strlit("assistant");
    assert("user"@.len() != "assistant"@.len());
    text::lemma_trim_idempotent(message::without_thinking(t));
}

/// The parts of a message are gone through in their order: a text is shown as it is, a document
/// as such, and an image is counted.
pub proof fn law_parts_are_shown_each(a: Seq<PartView>, b: Seq<PartView>)
    ensures
        shown_texts(a + b) == shown_texts(a) + shown_texts(b),
        image_urls(a + b) == image_urls(a) + image_urls(b),
        a.len() == 1 ==> (match a[0] {
            PartView::Text(t) => shown_texts(a) == seq![t] && image_urls(a).len() == 0,
            PartView::Document { .. } => shown_texts(a) == seq!["[document attachment]"@]
                && image_urls(a).len() == 0,
            PartView::ImageUrl { url, .. } => shown_texts(a).len() == 0 && image_urls(a)
                == seq![url],
        }),
        text_and_images(Some(ContentView::Parts(a))).1 == image_urls(a),
        shown_texts(a).len() > 0 && shown_texts(b).len() > 0 ==> text_and_images(
            Some(ContentView::Parts(a + b)),
        ).0 == text_and_images(Some(ContentView::Parts(a))).0 + "\n\n"@ + text_and_images(
            Some(ContentView::Parts(b)),
        ).0,
    decreases b.len(),
{
    reveal_with_fuel(shown_texts, 2);
    reveal_with_fuel(image_urls, 2);
    if b.len() == 0 {
        assert(a + b =~= a);
        assert(shown_texts(a) + shown_texts(b) =~= shown_texts(a));
        assert(image_urls(a) + image_urls(b) =~= image_urls(a));
    } else {
        law_parts_are_shown_each(a, b.drop_last());
        assert((a + b).drop_last() =~= a + b.drop_last());
        assert((a + b).last() == b.last());
        assert(shown_texts(a + b) =~= shown_texts(a) + shown_texts(b));
        assert(image_urls(a + b) =~= image_urls(a) + image_urls(b));
    }
    if a.len() == 1 {
        assert(a.drop_last() =~= Seq::empty());
        match a[0] {
            PartView::Text(t) => assert(shown_texts(a) =~= seq![t]),
            PartView::Document { .. } => assert(shown_texts(a) =~= seq!["[document attachment]"@]),
            PartView::ImageUrl { url, .. } => assert(image_urls(a) =~= seq![url]),
        }
    }
    text::law_join_of_two_lists(shown_texts(a), shown_texts(b), "\n\n"@);
}

/// A message of a user that is all images is shown by their number, and one that has a text too
/// is shown by the text and, on a line below it, the number.
pub proof fn law_images_are_counted(visible: Seq<char>, images: nat)
    ensures
        images == 0 ==> user_label(visible, images) == visible,
        images > 0 && visible.len() == 0 ==> user_label(visible, images) == "("@ + text::decimal(
            images,
        ) + " image(s))"@,
        images > 0 && visible.len() > 0 ==> user_label(visible, images) == visible + "\n"@ + "("@
            + text::decimal(images) + " image(s))"@,
{
    let count = "("@ + text::decimal(images) + " image(s))"@;
    if images > 0 && visible.len() == 0 {
        assert(user_label(visible, images) =~= count);
    } else if images > 0 {
        assert(user_label(visible, images) =~= visible + "\n"@ + "("@ + text::decimal(images)
            + " image(s))"@);
    }
}

/// A message with an image is shown, whatever else it holds, if a user or the assistant sent it.
pub proof fn law_images_are_never_lost(m: MessageView)
    requires
        text_and_images(m.content).1.len() > 0,
    ensures
        m.role == "user"@ ==> (cell_of(m) matches Some(CellView::User(label)) && label.len() > 0),
        m.role == "assistant"@ ==> cell_of(m) is Some,
{
    reveal_strlit("user");
    reveal_strlit("assistant");
    reveal_strlit("(");
    assert("user"@.len() != "assistant"@.len());
    assert("("@.len() == 1);
}

} // verus!
