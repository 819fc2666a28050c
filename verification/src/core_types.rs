//! The data a download carries through the queue and the downloader.

use vstd::prelude::*;

use crate::crypto::copy_bytes;

verus! {

/// What is known of the file behind a download.
#[derive(Debug)]
pub struct FileMetadata {
    pub name: String,
    pub size: u64,
    pub key: String,
}

/// Where a download stands.
#[derive(Debug)]
pub enum DownloadStatus {
    Pending,
    Downloading,
    Paused,
    Completed,
    Failed(String),
}

/// A download: the link, what is known of its file, and its state.
#[derive(Debug)]
pub struct Download {
    pub url: String,
    pub file_metadata: Option<FileMetadata>,
    pub progress: u64,
    pub status: DownloadStatus,
    pub download_path: String,
}

/// A byte range `start..=end` of a file, with its data once fetched.
#[derive(Debug)]
pub struct Chunk {
    pub id: u64,
    pub start: u64,
    pub end: u64,
    pub data: Option<Vec<u8>>,
}

impl Clone for FileMetadata {
    fn clone(&self) -> (result: Self)
        ensures
            result == *self,
    {
        FileMetadata { name: self.name.clone(), size: self.size, key: self.key.clone() }
    }
}

impl Clone for DownloadStatus {
    fn clone(&self) -> (result: Self)
        ensures
            result == *self,
    {
        match self {
            DownloadStatus::Pending => DownloadStatus::Pending,
            DownloadStatus::Downloading => DownloadStatus::Downloading,
            DownloadStatus::Paused => DownloadStatus::Paused,
            DownloadStatus::Completed => DownloadStatus::Completed,
            DownloadStatus::Failed(message) => DownloadStatus::Failed(message.clone()),
        }
    }
}

impl Clone for Download {
    fn clone(&self) -> (result: Self)
        ensures
            result == *self,
    {
        let file_metadata = match &self.file_metadata {
            Some(m) => Some(m.clone()),
            None => None,
        };
        Download {
            url: self.url.clone(),
            file_metadata,
            progress: self.progress,
            status: self.status.clone(),
            download_path: self.download_path.clone(),
        }
    }
}

impl Clone for Chunk {
    fn clone(&self) -> (result: Self)
        ensures
            result.id == self.id,
            result.start == self.start,
            result.end == self.end,
            result.data is Some <==> self.data is Some,
            result.data matches Some(d) ==> d@ == self.data->0@,
    {
        let data = match &self.data {
            Some(d) => Some(copy_bytes(d.as_slice())),
            None => None,
        };
        Chunk { id: self.id, start: self.start, end: self.end, data }
    }
}

impl Download {
    /// `self` with its status replaced by `status`.
    pub open spec fn with_status(self, status: DownloadStatus) -> Download {
        Download { status, ..self }
    }

    /// `self` with its file metadata replaced by `file_metadata`.
    pub open spec fn with_file_metadata(self, file_metadata: Option<FileMetadata>) -> Download {
        Download { file_metadata, ..self }
    }
}

} // verus!
