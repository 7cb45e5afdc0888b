use docs_search::stream::{chat_completion_stream, completion_text, error_stream, text_of_choices};
use openai::chat::{ChatCompletionChoiceDelta, ChatCompletionDelta, ChatCompletionMessageDelta};

fn choice(index: u64, content: Option<&str>) -> ChatCompletionChoiceDelta {
    ChatCompletionChoiceDelta {
        index,
        finish_reason: None,
        delta: ChatCompletionMessageDelta {
            role: None,
            content: content.map(|text| text.to_string()),
            name: None,
            function_call: None,
            tool_call_id: None,
            tool_calls: None,
        },
    }
}

fn delta(contents: Vec<Option<&str>>) -> ChatCompletionDelta {
    let mut choices = Vec::new();
    for (index, content) in contents.into_iter().enumerate() {
        choices.push(choice(index as u64, content));
    }
    ChatCompletionDelta {
        id: "chatcmpl-1".to_string(),
        object: "chat.completion.chunk".to_string(),
        created: 0,
        model: "gpt-3.5-turbo".to_string(),
        choices,
        usage: None,
    }
}

#[test]
fn delta_without_content_is_a_line_feed() {
    assert_eq!(completion_text(&delta(vec![None])), "\n");
}

#[test]
fn delta_with_content_is_its_content() {
    assert_eq!(completion_text(&delta(vec![Some("Hello")])), "Hello");
}

#[test]
fn delta_with_empty_content_is_empty() {
    assert_eq!(completion_text(&delta(vec![Some("")])), "");
}

#[test]
fn delta_without_choices_is_empty() {
    assert_eq!(completion_text(&delta(vec![])), "");
}

#[test]
fn choices_are_joined_in_order() {
    assert_eq!(completion_text(&delta(vec![Some("a"), None, Some("b"), None])), "a\nb\n");
}

#[test]
fn text_of_plain_choices() {
    let contents = vec![Some("x".to_string()), None, None, Some("yz".to_string())];
    assert_eq!(text_of_choices(&contents), "x\n\nyz");
    assert_eq!(text_of_choices(&Vec::new()), "");
}

#[test]
fn stream_has_one_text_for_each_event() {
    let events = vec![delta(vec![Some("Hel")]), delta(vec![None]), delta(vec![]), delta(vec![Some("lo"), Some("!")])];
    assert_eq!(chat_completion_stream(&events), vec!["Hel", "\n", "", "lo!"]);
}

#[test]
fn stream_of_nothing_is_empty() {
    assert!(chat_completion_stream(&Vec::new()).is_empty());
}

#[test]
fn error_stream_is_the_one_message() {
    assert_eq!(error_stream(), vec!["Error with your prompt"]);
}
