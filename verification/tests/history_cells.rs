use isanagent::history_cells::{
    chat_messages_to_terminal_cells, strip_model_thinking_markup, strip_runtime_context_prefix,
    text_and_images_from_message, Cell,
};
use isanagent::message::{
    ChatMessage, ContentPart, ImageUrl, MessageContent, RUNTIME_CONTEXT_END_SUFFIX,
};

#[test]
fn skips_tool_rows() {
    let messages = vec![
        ChatMessage::user("hi"),
        ChatMessage {
            role: "tool".into(),
            content: Some(MessageContent::Text("x".into())),
            name: None,
            tool_calls: None,
            tool_call_id: None,
            reasoning_content: None,
            is_error: None,
        },
    ];
    let cells = chat_messages_to_terminal_cells(&messages);
    assert_eq!(cells.len(), 1);
}

#[test]
fn the_runtime_context_is_hidden() {
    let t = format!("[Runtime Context]\nChannel: x{}hello", RUNTIME_CONTEXT_END_SUFFIX);
    let cells = chat_messages_to_terminal_cells(&[ChatMessage::user(&t)]);
    match &cells[0] {
        Cell::User { text } => assert_eq!(text, "hello"),
        other => panic!("{:?}", other),
    }
    assert_eq!(strip_runtime_context_prefix("plain"), "plain");
}

#[test]
fn thinking_is_hidden() {
    let shown = strip_model_thinking_markup("<think>secret</think>answer");
    assert_eq!(shown, "answer");
    let cells =
        chat_messages_to_terminal_cells(&[ChatMessage::assistant("<thinking>a</thinking> b ")]);
    match &cells[0] {
        Cell::Assistant { markdown } => assert_eq!(markdown, "b"),
        other => panic!("{:?}", other),
    }
}

#[test]
fn images_are_counted() {
    let m = ChatMessage::user_multimodal(
        "look",
        vec![ContentPart::ImageUrl {
            image_url: ImageUrl {
                url: "u1".to_string(),
                detail: None,
            },
        }],
    );
    let (text, images) = text_and_images_from_message(&m);
    assert_eq!(text, "look");
    assert_eq!(images, vec!["u1".to_string()]);
    match &chat_messages_to_terminal_cells(&[m])[0] {
        Cell::User { text } => assert_eq!(text, "look\n(1 image(s))"),
        other => panic!("{:?}", other),
    }
}
