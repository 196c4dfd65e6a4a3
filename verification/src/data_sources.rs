use crate::errors::{res_view, Error, ErrorView};
use vstd::prelude::*;

verus! {

/// A retrieval capability: it produces one blob of textual context on
/// demand, to seed a pipeline's initial context. A retrieval that produces
/// no usable result is a distinguishable failure, never an empty success.
pub trait DataSource: Sized {
    /// What one retrieval returns, as a function of the source's state.
    spec fn spec_retrieve(&self) -> Result<Seq<char>, ErrorView>;

    /// Retrieves the context blob, or the source's failure.
    fn retrieve_data(&self) -> (r: Result<String, Error>)
        ensures
            res_view(r) == self.spec_retrieve(),
    ;
}

/// A stubbed source for tests: every retrieval returns the same fixed text.
pub struct StaticDataSource {
    /// The text every retrieval returns.
    pub data: String,
}

impl StaticDataSource {
    /// A source that always retrieves `data`.
    pub fn new(data: String) -> (r: StaticDataSource)
        ensures
            r.data@ == data@,
    {
        StaticDataSource { data }
    }
}

impl DataSource for StaticDataSource {
    open spec fn spec_retrieve(&self) -> Result<Seq<char>, ErrorView> {
        Ok(self.data@)
    }

    fn retrieve_data(&self) -> (r: Result<String, Error>) {
        Ok(self.data.clone())
    }
}

/// A source with nothing to retrieve: every retrieval fails with
/// `DataSourceNoMatch`. It also stands in for "no source registered" in a
/// pipeline's type when none was ever added.
pub struct NoDataSource;

impl NoDataSource {
    /// A source that never has a match.
    pub fn new() -> (r: NoDataSource) {
        NoDataSource
    }
}

impl DataSource for NoDataSource {
    open spec fn spec_retrieve(&self) -> Result<Seq<char>, ErrorView> {
        Err(ErrorView::DataSourceNoMatch)
    }

    fn retrieve_data(&self) -> (r: Result<String, Error>) {
        Err(Error::DataSourceNoMatch)
    }
}

/// Turns a similarity search's best hit into a retrieval result: a search
/// that matched nothing is a `DataSourceNoMatch` failure.
pub fn require_search_hit<T>(hit: Option<T>) -> (r: Result<T, Error>)
    ensures
        r == (match hit {
            Some(t) => Ok::<T, Error>(t),
            None => Err::<T, Error>(Error::DataSourceNoMatch),
        }),
{
    match hit {
        Some(t) => Ok(t),
        None => Err(Error::DataSourceNoMatch),
    }
}

/// Demands a field that a retrieved record must carry: an absent field is an
/// `OptionIsNone` failure.
pub fn require_present<T>(value: Option<T>) -> (r: Result<T, Error>)
    ensures
        r == (match value {
            Some(t) => Ok::<T, Error>(t),
            None => Err::<T, Error>(Error::OptionIsNone),
        }),
{
    match value {
        Some(t) => Ok(t),
        None => Err(Error::OptionIsNone),
    }
}

} // verus!
