//! What can go wrong in the history store.

use vstd::prelude::*;
use vstd::string::StringExecFns;

verus! {

/// A failure of the history store. Each variant but the first carries the
/// words of the failure underneath.
#[derive(Debug)]
pub enum RepositoryError {
    /// Data directory not found
    DataDirNotFound,
    /// Database open failed
    DatabaseOpen(String),
    /// Tree open failed
    TreeOpen(String),
    /// Serialization error
    Serialization(String),
    /// Deserialization error
    Deserialization(String),
    /// Insert error
    Insert(String),
    /// Query error
    Query(String),
    /// Delete error
    Delete(String),
    /// Flush error
    Flush(String),
}

impl RepositoryError {
    /// The words that introduce this kind of failure.
    pub open spec fn heading(self) -> Seq<char> {
        match self {
            RepositoryError::DataDirNotFound => "Data directory not found"@,
            RepositoryError::DatabaseOpen(_) => "Database open failed: "@,
            RepositoryError::TreeOpen(_) => "Tree open failed: "@,
            RepositoryError::Serialization(_) => "Serialization error: "@,
            RepositoryError::Deserialization(_) => "Deserialization error: "@,
            RepositoryError::Insert(_) => "Insert error: "@,
            RepositoryError::Query(_) => "Query error: "@,
            RepositoryError::Delete(_) => "Delete error: "@,
            RepositoryError::Flush(_) => "Flush error: "@,
        }
    }

    /// The words of the failure underneath; none where the data directory is missing.
    pub open spec fn detail(self) -> Seq<char> {
        match self {
            RepositoryError::DataDirNotFound => Seq::empty(),
            RepositoryError::DatabaseOpen(e) => e@,
            RepositoryError::TreeOpen(e) => e@,
            RepositoryError::Serialization(e) => e@,
            RepositoryError::Deserialization(e) => e@,
            RepositoryError::Insert(e) => e@,
            RepositoryError::Query(e) => e@,
            RepositoryError::Delete(e) => e@,
            RepositoryError::Flush(e) => e@,
        }
    }

    /// The failure in words: its heading, then its detail.
    pub fn message(&self) -> (text: String)
        ensures
            text@ == self.heading() + self.detail(),
    {
        match self {
            RepositoryError::DataDirNotFound => {
                let text = String::from_str("Data directory not found");
                assert(text@ =~= self.heading() + self.detail());
                text
            },
            RepositoryError::DatabaseOpen(e) => String::from_str("Database open failed: ").concat(
                e.as_str(),
            ),
            RepositoryError::TreeOpen(e) => String::from_str("Tree open failed: ").concat(
                e.as_str(),
            ),
            RepositoryError::Serialization(e) => String::from_str("Serialization error: ").concat(
                e.as_str(),
            ),
            RepositoryError::Deserialization(e) => String::from_str(
                "Deserialization error: ",
            ).concat(e.as_str()),
            RepositoryError::Insert(e) => String::from_str("Insert error: ").concat(e.as_str()),
            RepositoryError::Query(e) => String::from_str("Query error: ").concat(e.as_str()),
            RepositoryError::Delete(e) => String::from_str("Delete error: ").concat(e.as_str()),
            RepositoryError::Flush(e) => String::from_str("Flush error: ").concat(e.as_str()),
        }
    }
}

} // verus!
