//! From the events of a streamed completion to the text that the client reads.

use openai::chat::{ChatCompletionChoiceDelta, ChatCompletionDelta, ChatCompletionGeneric};
use vstd::prelude::*;
use vstd::string::StringExecFns;

verus! {

/// `openai::chat::ChatCompletionGeneric`, a completion or, with choice deltas in it,
/// one event of a streamed completion. Nothing is known of one but what
/// `delta_contents` names.
#[verifier::external_type_specification]
#[verifier::external_body]
#[verifier::reject_recursive_types(C)]
pub struct ExChatCompletionGeneric<C>(ChatCompletionGeneric<C>);

/// `openai::chat::ChatCompletionChoiceDelta`, one choice of such an event. Nothing is
/// known of one.
#[verifier::external_type_specification]
#[verifier::external_body]
pub struct ExChatCompletionChoiceDelta(ChatCompletionChoiceDelta);

/// What the choices of a completion event carry, in their order: for each choice the
/// text of its delta, or `None` where the delta has none.
pub uninterp spec fn delta_contents(completion: ChatCompletionDelta) -> Seq<Option<Seq<char>>>;

/// Reads a completion event: the field `choices`, and of each choice the field
/// `content` of its field `delta`, copied.
#[verifier::external_body]
fn choice_contents(completion: &ChatCompletionDelta) -> (contents: Vec<Option<String>>)
    ensures
        contents.deep_view() == delta_contents(*completion),
{
    completion.choices.iter().map(|choice| choice.delta.content.clone()).collect()
}

/// The text that stands for one choice: its content, or a line feed where it has none.
pub open spec fn choice_text(content: Option<Seq<char>>) -> Seq<char> {
    match content {
        Some(text) => text,
        None => seq!['\n'],
    }
}

/// The text that stands for the choices of one event: their texts, one after the other.
pub open spec fn joined_text(contents: Seq<Option<Seq<char>>>) -> Seq<char>
    decreases contents.len(),
{
    if contents.len() == 0 {
        Seq::empty()
    } else {
        joined_text(contents.drop_last()) + choice_text(contents.last())
    }
}

/// The message that a client reads when its prompt could not be answered.
pub open spec fn error_text() -> Seq<char> {
    "Error with your prompt"@
}

/// The text for the contents of an event's choices.
pub fn text_of_choices(contents: &Vec<Option<String>>) -> (text: String)
    ensures
        text@ == joined_text(contents.deep_view()),
{
    let mut text = String::new();
    let mut at: usize = 0;
    proof {
        reveal_strlit("\n");
        assert("\n"@ == seq!['\n']);
        assert(contents.deep_view().take(0) == Seq::<Option<Seq<char>>>::empty());
    }
    while at < contents.len()
        invariant
            at <= contents.len(),
            "\n"@ == seq!['\n'],
            text@ == joined_text(contents.deep_view().take(at as int)),
        decreases contents.len() - at,
    {
        proof {
            let read = contents.deep_view().take(at + 1);
            assert(read.drop_last() == contents.deep_view().take(at as int));
            assert(read.last() == contents[at as int].deep_view());
        }
        match &contents[at] {
            Some(content) => text.append(content.as_str()),
            None => text.append("\n"),
        }
        at += 1;
    }
    assert(contents.deep_view().take(at as int) == contents.deep_view());
    text
}

/// The text that the client reads for one completion event.
pub fn completion_text(completion: &ChatCompletionDelta) -> (text: String)
    ensures
        text@ == joined_text(delta_contents(*completion)),
{
    let contents = choice_contents(completion);
    text_of_choices(&contents)
}

/// The texts that the client reads for a run of completion events: one for each
/// event, in their order.
pub fn chat_completion_stream(completions: &Vec<ChatCompletionDelta>) -> (texts: Vec<String>)
    ensures
        texts@.len() == completions@.len(),
        forall|i: int|
            0 <= i < completions@.len() ==> (#[trigger] texts[i])@ == joined_text(
                delta_contents(completions[i]),
            ),
{
    let mut texts: Vec<String> = Vec::new();
    let mut at: usize = 0;
    while at < completions.len()
        invariant
            at <= completions.len(),
            texts@.len() == at,
            forall|i: int|
                0 <= i < at ==> (#[trigger] texts[i])@ == joined_text(
                    delta_contents(completions[i]),
                ),
        decreases completions.len() - at,
    {
        let text = completion_text(&completions[at]);
        texts.push(text);
        at += 1;
    }
    texts
}

/// What the client reads when its prompt could not be answered: the one message.
pub fn error_stream() -> (texts: Vec<String>)
    ensures
        texts.deep_view() == seq![error_text()],
{
    let mut texts: Vec<String> = Vec::new();
    texts.push(String::from_str("Error with your prompt"));
    assert(texts.deep_view() == seq![error_text()]);
    texts
}

} // verus!
