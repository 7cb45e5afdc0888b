//! Answering one prompt: from what the database found to the document that goes to
//! the completion service, and from a failure to what the client reads instead.

use crate::contents::File;
use crate::errors::PromptError;
use crate::finder::{get_contents, lemma_contents_at, matched_contents};
use crate::stream::{error_stream, error_text};
use crate::vector::{best_match, document_path, VectorDB};
use qdrant_client::qdrant::ScoredPoint;
use vstd::prelude::*;
use vstd::string::StringExecFns;

verus! {

/// The text to answer a prompt from, given what the database answered: the text of
/// the document that the best match belongs to.
pub open spec fn retrieved(
    files: Seq<File>,
    answer: Result<Vec<ScoredPoint>, anyhow::Error>,
) -> Result<Seq<char>, PromptError> {
    match best_match(answer) {
        Ok(point) => match matched_contents(files, point) {
            Some(text) => Ok(text),
            None => Err(PromptError::NotFound),
        },
        Err(error) => Err(error),
    }
}

/// What a result looks like once a failure has been replaced by what the client reads.
pub open spec fn reply_of<T>(outcome: Result<T, PromptError>) -> Result<T, Seq<Seq<char>>> {
    match outcome {
        Ok(value) => Ok(value),
        Err(_) => Err(seq![error_text()]),
    }
}

/// The text to answer a prompt from. A failure of the database stays what it is; a
/// best match whose document is not loaded is reported as not found.
pub fn retrieve(
    vector_db: &VectorDB,
    files: &Vec<File>,
    answer: Result<Vec<ScoredPoint>, anyhow::Error>,
) -> (found: Result<String, PromptError>)
    ensures
        match found {
            Ok(text) => retrieved(files@, answer) == Ok::<Seq<char>, PromptError>(text@),
            Err(error) => retrieved(files@, answer) == Err::<Seq<char>, PromptError>(error),
        },
{
    match vector_db.search(answer) {
        Ok(point) => match get_contents(files, &point) {
            Some(text) => Ok(text),
            None => Err(PromptError::NotFound),
        },
        Err(error) => Err(error),
    }
}

/// What is asked of the completion service: the prompt, the document to answer it
/// from, and the request to be brief.
pub open spec fn prompt_text(prompt: Seq<char>, contents: Seq<char>) -> Seq<char> {
    prompt + "\n Context: "@ + contents + "\n Be concise"@
}

/// Writes what is asked of the completion service.
pub fn chat_prompt(prompt: &str, contents: &str) -> (text: String)
    ensures
        text@ == prompt_text(prompt@, contents@),
{
    let mut text = String::from_str(prompt);
    text.append("\n Context: ");
    text.append(contents);
    text.append("\n Be concise");
    text
}

/// What the embedding service gave, with any failure of it named as such.
pub fn embedded<T>(outcome: Result<T, anyhow::Error>) -> (named: Result<T, PromptError>)
    ensures
        outcome matches Ok(value) ==> named == Ok::<T, PromptError>(value),
        outcome is Err ==> named == Err::<T, PromptError>(PromptError::Embedding),
{
    match outcome {
        Ok(value) => Ok(value),
        Err(_) => Err(PromptError::Embedding),
    }
}

/// What the completion service gave, with any failure of it named as such.
pub fn completed<T>(outcome: Result<T, anyhow::Error>) -> (named: Result<T, PromptError>)
    ensures
        outcome matches Ok(value) ==> named == Ok::<T, PromptError>(value),
        outcome is Err ==> named == Err::<T, PromptError>(PromptError::Completion),
{
    match outcome {
        Ok(value) => Ok(value),
        Err(_) => Err(PromptError::Completion),
    }
}

/// Decides what the client gets: what was made for it, or, after any failure, the one
/// message that says no more than that the prompt failed.
pub fn reply<T>(outcome: Result<T, PromptError>) -> (decided: Result<T, Vec<String>>)
    ensures
        match decided {
            Ok(value) => reply_of(outcome) == Ok::<T, Seq<Seq<char>>>(value),
            Err(texts) => reply_of(outcome) == Err::<T, Seq<Seq<char>>>(texts.deep_view()),
        },
{
    match outcome {
        Ok(value) => Ok(value),
        Err(_) => Err(error_stream()),
    }
}

/// A best match that names a document which is not loaded is reported as not found,
/// and the client reads the one error message.
pub proof fn lemma_unknown_document(
    files: Seq<File>,
    answer: Result<Vec<ScoredPoint>, anyhow::Error>,
)
    requires
        answer matches Ok(found) && found@.len() > 0 && (document_path(found@[0]) matches Some(
            path,
        ) ==> forall|i: int| 0 <= i < files.len() ==> (#[trigger] files[i]).path@ != path),
    ensures
        retrieved(files, answer) == Err::<Seq<char>, PromptError>(PromptError::NotFound),
        reply_of(retrieved(files, answer)) == Err::<Seq<char>, Seq<Seq<char>>>(
            seq![error_text()],
        ),
{
    let point = answer->Ok_0@[0];
    if let Some(path) = document_path(point) {
        lemma_contents_at(files, path);
    }
}

} // verus!
