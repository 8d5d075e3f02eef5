//! The start of a run over a file of transaction records.

use vstd::prelude::*;

verus! {

/// Why a run cannot start.
#[derive(Clone, Debug, PartialEq, Eq)]
pub enum ApplicationError {
    /// Nothing exists at the given path.
    FileNotFound(String),
    /// Something exists at the given path, but it is not a file.
    NotAFile(String),
}

/// A run over the transaction records of one file.
pub struct Application {
    /// The path of the file of records.
    pub csv_file: String,
}

impl Application {
    /// A run over the file at `csv_file`, given whether something `exists`
    /// there and whether that is a file; refused where nothing exists there,
    /// or where it is not a file.
    pub fn new(csv_file: String, exists: bool, is_file: bool) -> (r: Result<
        Application,
        ApplicationError,
    >)
        ensures
            !exists ==> (r matches Err(ApplicationError::FileNotFound(p)) && p@ == csv_file@),
            exists && !is_file ==> (r matches Err(ApplicationError::NotAFile(p)) && p@
                == csv_file@),
            exists && is_file ==> (r matches Ok(a) && a.csv_file@ == csv_file@),
    {
        if !exists {
            return Err(ApplicationError::FileNotFound(csv_file));
        }
        if !is_file {
            return Err(ApplicationError::NotAFile(csv_file));
        }
        Ok(Application { csv_file })
    }
}

} // verus!
