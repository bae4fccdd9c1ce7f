//! Errors of the generator.

use vstd::prelude::*;

use crate::text::{append_str, append_vec, chars_of, string_of};

verus! {

#[derive(Debug, Clone)]
pub enum WikiGenError {
    Config(String),
    Parse { file: String, message: String },
    /// An I/O failure, carried as the message of the underlying error.
    Io(String),
    Graph(String),
    Llm(String),
    Template(String),
    Export(String),
    Cache(String),
    /// A (de)serialisation failure, carried as its message.
    Serialization(String),
    Storage(String),
}

pub type WikiGenResult<T> = Result<T, WikiGenError>;

impl WikiGenError {
    /// The message `Display` shows.
    pub open spec fn spec_message(&self) -> Seq<char> {
        match self {
            WikiGenError::Config(m) => "Config error: "@ + m@,
            WikiGenError::Parse { file, message } => "Parse error in "@ + file@ + ": "@ + message@,
            WikiGenError::Io(m) => "IO error: "@ + m@,
            WikiGenError::Graph(m) => "Graph error: "@ + m@,
            WikiGenError::Llm(m) => "LLM error: "@ + m@,
            WikiGenError::Template(m) => "Template error: "@ + m@,
            WikiGenError::Export(m) => "Export error: "@ + m@,
            WikiGenError::Cache(m) => "Cache error: "@ + m@,
            WikiGenError::Serialization(m) => "Serialization error: "@ + m@,
            WikiGenError::Storage(m) => "Storage error: "@ + m@,
        }
    }

    pub fn to_string(&self) -> (r: String)
        ensures
            r@ == self.spec_message(),
    {
        let mut out: Vec<char> = Vec::new();
        match self {
            WikiGenError::Config(m) => {
                append_str(&mut out, "Config error: ");
                append_str(&mut out, m.as_str());
            },
            WikiGenError::Parse { file, message } => {
                append_str(&mut out, "Parse error in ");
                append_str(&mut out, file.as_str());
                append_str(&mut out, ": ");
                append_str(&mut out, message.as_str());
            },
            WikiGenError::Io(m) => {
                append_str(&mut out, "IO error: ");
                append_str(&mut out, m.as_str());
            },
            WikiGenError::Graph(m) => {
                append_str(&mut out, "Graph error: ");
                append_str(&mut out, m.as_str());
            },
            WikiGenError::Llm(m) => {
                append_str(&mut out, "LLM error: ");
                append_str(&mut out, m.as_str());
            },
            WikiGenError::Template(m) => {
                append_str(&mut out, "Template error: ");
                append_str(&mut out, m.as_str());
            },
            WikiGenError::Export(m) => {
                append_str(&mut out, "Export error: ");
                append_str(&mut out, m.as_str());
            },
            WikiGenError::Cache(m) => {
                append_str(&mut out, "Cache error: ");
                append_str(&mut out, m.as_str());
            },
            WikiGenError::Serialization(m) => {
                append_str(&mut out, "Serialization error: ");
                append_str(&mut out, m.as_str());
            },
            WikiGenError::Storage(m) => {
                append_str(&mut out, "Storage error: ");
                append_str(&mut out, m.as_str());
            },
        }
        string_of(out.as_slice())
    }
}

} // verus!
