//! MegaCore: the core of a MEGA downloader, with the byte, cipher, parsing
//! and queue logic verified by Verus.

pub mod core_types;
pub mod crypto;
pub mod downloader;
pub mod mega_api;
pub mod text;

use std::collections::VecDeque;
use vstd::prelude::*;

use crate::core_types::{Download, DownloadStatus};
use crate::downloader::manager::{set_status_of_first, without_url, DownloadManager};

verus! {

/// Why a request to the downloader could not be served.
#[derive(Debug, Clone, Copy, PartialEq, Eq, Structural)]
pub enum MegaError {
    /// The queue could not be reached: a thread that held it panicked.
    QueueUnavailable,
}

/// The front door of the library: a queue of downloads that can be added,
/// listed, paused, resumed and cancelled.
pub struct MegaDownloader {
    download_manager: DownloadManager,
}

impl MegaDownloader {
    /// The downloads waiting in the queue, front first.
    pub closed spec fn queue(&self) -> Seq<Download> {
        self.download_manager.queue@
    }

    /// A downloader with an empty queue.
    pub fn new() -> (result: Self)
        ensures
            result.queue() == Seq::<Download>::empty(),
    {
        MegaDownloader { download_manager: DownloadManager::new() }
    }

    /// Queues a pending download of `url` into `download_path`.
    pub fn add_download(&mut self, url: &str, download_path: &str) -> (result: Result<(), MegaError>)
        ensures
            result is Ok,
            final(self).queue().len() == old(self).queue().len() + 1,
            final(self).queue().drop_last() == old(self).queue(),
            ({
                let d = final(self).queue().last();
                &&& d.url@ == url@
                &&& d.download_path@ == download_path@
                &&& d.file_metadata is None
                &&& d.progress == 0
                &&& d.status is Pending
            }),
    {
        let download = Download {
            url: url.to_owned(),
            download_path: download_path.to_owned(),
            file_metadata: None,
            progress: 0,
            status: DownloadStatus::Pending,
        };
        self.download_manager.add_download(download);
        assert(self.download_manager.queue@.drop_last() =~= old(self).download_manager.queue@);
        Ok(())
    }

    /// The downloads in the queue, front first.
    pub fn get_downloads(&self) -> (result: Result<Vec<Download>, MegaError>)
        ensures
            result matches Ok(v) && v@ == self.queue(),
    {
        let q: &VecDeque<Download> = &self.download_manager.queue;
        let len = q.len();
        let mut result: Vec<Download> = Vec::with_capacity(len);
        let mut i: usize = 0;
        while i < len
            invariant
                len == q@.len(),
                i <= len,
                result@ == q@.take(i as int),
            decreases len - i,
        {
            result.push(q[i].clone());
            i = i + 1;
            assert(result@ =~= q@.take(i as int));
        }
        assert(q@.take(len as int) =~= q@);
        Ok(result)
    }

    /// Pauses the first queued download of `url`, if any.
    pub fn pause_download(&mut self, url: &str) -> (result: Result<(), MegaError>)
        ensures
            result is Ok,
            final(self).queue() == set_status_of_first(old(self).queue(), url@, DownloadStatus::Paused),
    {
        self.download_manager.pause_download(url);
        Ok(())
    }

    /// Puts the first queued download of `url` back to pending, if any.
    pub fn resume_download(&mut self, url: &str) -> (result: Result<(), MegaError>)
        ensures
            result is Ok,
            final(self).queue() == set_status_of_first(old(self).queue(), url@, DownloadStatus::Pending),
    {
        self.download_manager.resume_download(url);
        Ok(())
    }

    /// Removes every queued download of `url`.
    pub fn cancel_download(&mut self, url: &str) -> (result: Result<(), MegaError>)
        ensures
            result is Ok,
            final(self).queue() == without_url(old(self).queue(), url@),
    {
        self.download_manager.cancel_download(url);
        Ok(())
    }
}

} // verus!
