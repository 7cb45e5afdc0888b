//! Retrieval core of a documentation question-answering service.

pub mod contents;
pub mod errors;
pub mod finder;
pub mod prompt;
pub mod stream;
pub mod text;
pub mod vector;
