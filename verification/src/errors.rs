use vstd::prelude::*;
use vstd::string::StringExecFns;

verus! {

/// The failure taxonomy of the pipeline engine. Every error is surfaced to
/// the caller unchanged in kind: the engine performs no recovery.
#[derive(Debug, PartialEq, Eq)]
pub enum Error {
    /// A run was attempted on an empty agent sequence, or an index or name
    /// lookup resolved no agent.
    NoAgentsExist,
    /// Retrieval succeeded at the transport level but produced no usable
    /// result.
    DataSourceNoMatch,
    /// A required field was unexpectedly absent, such as a backend response
    /// with no extractable text.
    OptionIsNone,
    /// The underlying model or service call failed; carries the
    /// collaborator's own message.
    BackendError(String),
    /// Context or a result could not be encoded or decoded as expected.
    SerializationError(String),
}

/// The mathematical value of an `Error`: the same taxonomy with messages as
/// character sequences.
pub ghost enum ErrorView {
    NoAgentsExist,
    DataSourceNoMatch,
    OptionIsNone,
    BackendError(Seq<char>),
    SerializationError(Seq<char>),
}

impl View for Error {
    type V = ErrorView;

    open spec fn view(&self) -> ErrorView {
        match self {
            Error::NoAgentsExist => ErrorView::NoAgentsExist,
            Error::DataSourceNoMatch => ErrorView::DataSourceNoMatch,
            Error::OptionIsNone => ErrorView::OptionIsNone,
            Error::BackendError(m) => ErrorView::BackendError(m@),
            Error::SerializationError(m) => ErrorView::SerializationError(m@),
        }
    }
}

impl Error {
    /// What the failure says, in words.
    pub open spec fn spec_message(&self) -> Seq<char> {
        match self {
            Error::NoAgentsExist => "There's no agents in the pipeline!"@,
            Error::DataSourceNoMatch => "Searched data source but no results"@,
            Error::OptionIsNone => "Option expected to be Some but is None"@,
            Error::BackendError(m) => "LLM error: "@ + m@,
            Error::SerializationError(m) => "serde_json error: "@ + m@,
        }
    }

    /// The failure, worded for a caller's log or message.
    pub fn message(&self) -> (r: String)
        ensures
            r@ == self.spec_message(),
    {
        match self {
            Error::NoAgentsExist => "There's no agents in the pipeline!".to_owned(),
            Error::DataSourceNoMatch => "Searched data source but no results".to_owned(),
            Error::OptionIsNone => "Option expected to be Some but is None".to_owned(),
            Error::BackendError(m) => {
                let mut s = "LLM error: ".to_owned();
                s.append(m.as_str());
                s
            },
            Error::SerializationError(m) => {
                let mut s = "serde_json error: ".to_owned();
                s.append(m.as_str());
                s
            },
        }
    }
}

/// The mathematical value of a run's outcome: the produced text, or the error.
pub open spec fn res_view(r: Result<String, Error>) -> Result<Seq<char>, ErrorView> {
    match r {
        Ok(s) => Ok(s@),
        Err(e) => Err(e@),
    }
}

} // verus!
