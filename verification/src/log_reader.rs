//! The journal files of a directory, oldest first.
//!
//! Finding the files and reading their lines is the caller's work. The
//! catalog puts what was found in the order of creation, so that the index of
//! a file says how many files are older, and answers for an index with the
//! file to open.

use vstd::prelude::*;
use crate::ordering::{ascending, is_stable_sort, stable_sort, SortKey};

verus! {

/// A journal file as it was found: its name, and the time of its creation in
/// seconds since the start of 1970.
#[derive(Clone, Debug, PartialEq, Eq)]
pub struct LogFile {
    pub name: String,
    pub created: u64,
}

/// The order of journal files: by the time of their creation.
pub struct ByCreation;

impl SortKey<LogFile> for ByCreation {
    open spec fn key(item: &LogFile) -> int {
        item.created as int
    }

    fn of(item: &LogFile) -> (key: i128) {
        item.created as i128
    }
}

/// Why no file could be given.
#[derive(Clone, Copy, Debug, PartialEq, Eq, Structural)]
pub enum LogError {
    /// There is no file with the index `index`: there are only `count` files.
    IndexOutOfRange { index: usize, count: usize },
}

/// The journal files of a directory in the order of their creation.
pub struct LogCatalog {
    files: Vec<LogFile>,
}

impl View for LogCatalog {
    type V = Seq<LogFile>;

    closed spec fn view(&self) -> Seq<LogFile> {
        self.files@
    }
}

impl LogCatalog {
    #[verifier::type_invariant]
    spec fn oldest_first(&self) -> bool {
        ascending::<LogFile, ByCreation>(self.files@)
    }

    /// Puts the files that were found in the order of their creation; files
    /// created in the same second stay in the order in which they were found.
    pub fn new(found: Vec<LogFile>) -> (catalog: LogCatalog)
        ensures
            is_stable_sort::<LogFile, ByCreation>(catalog@, found@),
            catalog@.len() == found@.len(),
    {
        LogCatalog { files: stable_sort::<LogFile, ByCreation>(found) }
    }

    /// The number of files.
    pub fn len(&self) -> (count: usize)
        ensures
            count == self@.len(),
    {
        self.files.len()
    }

    /// The file with the index `index`, index `0` being the oldest file.
    /// Fails exactly when there are not more than `index` files.
    pub fn get(&self, index: usize) -> (file: Result<&LogFile, LogError>)
        ensures
            ascending::<LogFile, ByCreation>(self@),
            match file {
                Ok(file) => index < self@.len() && *file == self@[index as int],
                Err(error) => index >= self@.len() && error == (LogError::IndexOutOfRange {
                    index,
                    count: self@.len() as usize,
                }),
            },
    {
        proof {
            use_type_invariant(self);
        }
        if index < self.files.len() {
            Ok(&self.files[index])
        } else {
            Err(LogError::IndexOutOfRange { index, count: self.files.len() })
        }
    }
}

} // verus!
