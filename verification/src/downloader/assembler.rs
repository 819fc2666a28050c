//! Putting a downloaded file in place and checking it against the MAC in
//! its key.

use vstd::prelude::*;

use crate::core_types::Download;
use crate::crypto::CryptoError;

verus! {

/// Why a downloaded file was not accepted.
#[derive(Debug, Clone, Copy, PartialEq, Eq, Structural)]
pub enum AssembleError {
    /// The file's MAC differs from the one in its key.
    IntegrityMismatch,
    /// The check itself could not be made.
    Crypto(CryptoError),
}

/// A finished transfer waiting to be moved from its temporary path to its
/// final one and checked.
pub struct FileAssembler {
    pub download: Download,
    pub temp_file_path: String,
    pub final_file_path: String,
}

impl FileAssembler {
    pub fn new(download: Download, temp_file_path: String, final_file_path: String) -> (result: Self)
        ensures
            result.download == download,
            result.temp_file_path == temp_file_path,
            result.final_file_path == final_file_path,
    {
        FileAssembler { download, temp_file_path, final_file_path }
    }

    /// The key to check the file against: the file key, when the download
    /// has metadata and its key is not empty; no check otherwise.
    pub fn integrity_key(&self) -> (result: Option<String>)
        ensures
            match self.download.file_metadata {
                Some(m) => if m.key@.len() > 0 {
                    result == Some(m.key)
                } else {
                    result is None
                },
                None => result is None,
            },
    {
        match &self.download.file_metadata {
            Some(m) => {
                if m.key.as_str().is_empty() {
                    None
                } else {
                    Some(m.key.clone())
                }
            },
            None => None,
        }
    }

    /// The verdict on a check: accepted when the MACs match, refused when
    /// they differ, and the check's own error when it could not be made.
    pub fn integrity_verdict(check: Result<bool, CryptoError>) -> (result: Result<(), AssembleError>)
        ensures
            match check {
                Ok(true) => result is Ok,
                Ok(false) => result == Err::<(), AssembleError>(AssembleError::IntegrityMismatch),
                Err(e) => result == Err::<(), AssembleError>(AssembleError::Crypto(e)),
            },
    {
        match check {
            Ok(true) => Ok(()),
            Ok(false) => Err(AssembleError::IntegrityMismatch),
            Err(e) => Err(AssembleError::Crypto(e)),
        }
    }
}

} // verus!
