//! Downloading a MEGA file: the queue, reading links, splitting the file
//! into ranges, and the decisions taken while a download runs.

pub mod chunks;
pub mod links;
pub mod manager;
pub mod assembler;

use vstd::prelude::*;
use vstd::string::StringExecFns;

use crate::core_types::{Chunk, Download, DownloadStatus, FileMetadata};
use crate::text::{chars_of, decimal, push_chars, push_decimal, string_from_chars};
use chunks::{chunk_end, chunk_plan_fits, chunk_start, plan_chunks};
use links::{
    file_id_chars, file_id_for, parse_link_chars, parse_mega_link, provisional_name,
    provisional_name_chars,
};

verus! {

/// Ranges per worker that a download may be split into.
pub const CHUNK_SIZE_MULTI: usize = 20;

/// Parallel connections used when none is asked for.
pub const WORKERS_DEFAULT: usize = 6;

/// Why a download could not go on.
#[derive(Debug, Clone, Copy, PartialEq, Eq, Structural)]
pub enum DownloadError {
    /// The link is not a MEGA link of a known format.
    UnsupportedUrl,
}

/// The message that goes with `e`.
pub open spec fn download_error_text(e: DownloadError) -> Seq<char> {
    match e {
        DownloadError::UnsupportedUrl => "URL de MEGA no válida o no soportada"@,
    }
}

impl DownloadError {
    /// The message that goes with this error.
    pub fn message(&self) -> (result: String)
        ensures
            result@ == download_error_text(*self),
    {
        match self {
            DownloadError::UnsupportedUrl => string_from_chars(
                &chars_of("URL de MEGA no válida o no soportada"),
            ),
        }
    }
}

/// Where a running download stands.
#[derive(Debug, Clone, Copy, PartialEq, Eq, Structural)]
pub enum DownloadPhase {
    Idle,
    AwaitingFileInfo,
    AwaitingDownloadUrl,
    Transferring,
    Assembling,
    Completed,
    Failed,
}

/// What the caller must do next for a running download.
#[derive(Debug)]
pub enum DownloadAction {
    /// Ask the API for the name and size of file `file_id`, whose attributes
    /// are encrypted under `file_key`; answer with `on_file_info`.
    FetchFileInfo { file_id: String, file_key: String },
    /// Ask the API where file `file_id` can be fetched; answer with
    /// `on_download_url`.
    FetchDownloadUrl { file_id: String },
    /// Create the temporary file and fetch `chunks` from `url` in parallel;
    /// answer each arrival with `on_chunk`, and the end of the arrivals with
    /// `on_transfer_ended`.
    Transfer { url: String, chunks: Vec<Chunk> },
    /// Wait for the next range.
    AwaitChunk,
    /// Every range arrived: move the file in place and check it; answer
    /// with `on_assembled`.
    Assemble,
    /// The download is complete.
    Finished,
    /// The download failed with this message.
    Fail(String),
}

/// The message of a link that is not understood.
pub open spec fn unsupported_url_message() -> Seq<char> {
    "URL de MEGA no válida o no soportada"@
}

/// The message of a transfer that ended with `received` of `total` ranges.
pub open spec fn incomplete_message(received: nat, total: nat) -> Seq<char> {
    "Descarga incompleta: solo se recibieron "@ + decimal(received) + seq!['/'] + decimal(total)
        + " chunks"@
}

/// A download being run: the decisions taken between the calls to the MEGA
/// API and the transfers, which the caller makes.
pub struct Downloader {
    pub download: Download,
    pub slots: usize,
    pub phase: DownloadPhase,
    pub received_chunks: usize,
    pub bytes_received: u64,
}

impl Downloader {
    /// The phase is one in which the download runs.
    pub open spec fn is_running(&self) -> bool {
        self.phase is AwaitingFileInfo || self.phase is AwaitingDownloadUrl || self.phase
            is Transferring || self.phase is Assembling
    }

    /// The state is consistent: the download's status mirrors the phase
    /// (downloading while running, failed or completed at the end), the
    /// file's metadata is present while running, and a transfer never counts
    /// more ranges than it started.
    pub open spec fn wf(&self) -> bool {
        &&& self.is_running() ==> self.download.file_metadata is Some
        &&& self.is_running() ==> self.download.status is Downloading
        &&& self.phase is Failed ==> self.download.status is Failed
        &&& self.phase is Completed ==> self.download.status is Completed
        &&& self.phase is Transferring ==> self.received_chunks < self.slots
    }

    /// A downloader for `download` with the default number of workers.
    pub fn new(download: Download) -> (result: Self)
        ensures
            result.download == download,
            result.slots == WORKERS_DEFAULT,
            result.phase is Idle,
            result.received_chunks == 0,
            result.bytes_received == 0,
            result.wf(),
    {
        Downloader {
            download,
            slots: WORKERS_DEFAULT,
            phase: DownloadPhase::Idle,
            received_chunks: 0,
            bytes_received: 0,
        }
    }

    /// The same downloader with `slots` workers.
    pub fn with_slots(self, slots: usize) -> (result: Self)
        ensures
            result == (Downloader { slots, ..self }),
    {
        Downloader { slots, ..self }
    }

    /// Reads the file id and key out of the download's link and records a
    /// provisional file name `downloaded_file_ID`, size 0 and the key. Fails,
    /// leaving everything as it was, when the link is not understood.
    pub fn parse_url(&mut self) -> (result: Result<(), DownloadError>)
        ensures
            match parse_mega_link(old(self).download.url@) {
                Some(parts) => {
                    &&& result is Ok
                    &&& final(self).download.file_metadata matches Some(m) && m.name@
                        == provisional_name(parts.0) && m.size == 0 && m.key@ == parts.1
                    &&& final(self).download == old(self).download.with_file_metadata(
                        final(self).download.file_metadata,
                    )
                    &&& final(self).slots == old(self).slots
                    &&& final(self).phase == old(self).phase
                    &&& final(self).received_chunks == old(self).received_chunks
                    &&& final(self).bytes_received == old(self).bytes_received
                },
                None => {
                    &&& result == Err::<(), DownloadError>(DownloadError::UnsupportedUrl)
                    &&& *final(self) == *old(self)
                },
            },
    {
        let url = chars_of(self.download.url.as_str());
        match parse_link_chars(&url) {
            Some(parts) => {
                let name = provisional_name_chars(&parts.0);
                self.download.file_metadata = Some(
                    FileMetadata {
                        name: string_from_chars(&name),
                        size: 0,
                        key: string_from_chars(&parts.1),
                    },
                );
                Ok(())
            },
            None => Err(DownloadError::UnsupportedUrl),
        }
    }

    /// The file id to ask the API about: the one in the provisional name,
    /// else the one in the link, else empty.
    pub fn file_id(&self) -> (result: String)
        requires
            self.download.file_metadata is Some,
        ensures
            result@ == file_id_for(self.download.file_metadata->0.name@, self.download.url@),
    {
        let name = match &self.download.file_metadata {
            Some(m) => chars_of(m.name.as_str()),
            None => Vec::new(),
        };
        let url = chars_of(self.download.url.as_str());
        string_from_chars(&file_id_chars(&name, &url))
    }

    /// The name of the temporary file the ranges are written to while the
    /// download runs: the file's name followed by `.mctemp`.
    pub fn temp_file_name(&self) -> (result: String)
        requires
            self.download.file_metadata is Some,
        ensures
            result@ == self.download.file_metadata->0.name@ + ".mctemp"@,
    {
        let mut text = match &self.download.file_metadata {
            Some(m) => chars_of(m.name.as_str()),
            None => Vec::new(),
        };
        let suffix = chars_of(".mctemp");
        push_chars(&mut text, &suffix);
        string_from_chars(&text)
    }

    /// Marks the download as failed with `message` and says so.
    fn fail(&mut self, message: String) -> (result: DownloadAction)
        ensures
            final(self).download == old(self).download.with_status(DownloadStatus::Failed(message)),
            final(self).phase is Failed,
            final(self).slots == old(self).slots,
            final(self).received_chunks == old(self).received_chunks,
            final(self).bytes_received == old(self).bytes_received,
            result == DownloadAction::Fail(message),
            final(self).wf(),
    {
        self.download.status = DownloadStatus::Failed(message.clone());
        self.phase = DownloadPhase::Failed;
        DownloadAction::Fail(message)
    }

    /// Starts the download: marks it as downloading and, when its file is
    /// not known yet, reads the link (failing when it is not understood)
    /// and asks for the file's details; otherwise asks where to fetch it.
    pub fn start(&mut self) -> (result: DownloadAction)
        requires
            old(self).phase is Idle,
        ensures
            final(self).wf(),
            final(self).slots == old(self).slots,
            final(self).received_chunks == old(self).received_chunks,
            final(self).bytes_received == old(self).bytes_received,
            final(self).download == old(self).download.with_status(
                final(self).download.status,
            ).with_file_metadata(final(self).download.file_metadata),
            match old(self).download.file_metadata {
                Some(m) => {
                    &&& final(self).download == old(self).download.with_status(
                        DownloadStatus::Downloading,
                    )
                    &&& final(self).phase is AwaitingDownloadUrl
                    &&& result matches DownloadAction::FetchDownloadUrl { file_id } && file_id@
                        == file_id_for(m.name@, old(self).download.url@)
                },
                None => match parse_mega_link(old(self).download.url@) {
                    Some(parts) => {
                        &&& final(self).download.status is Downloading
                        &&& final(self).download.file_metadata matches Some(m) && m.name@
                            == provisional_name(parts.0) && m.size == 0 && m.key@ == parts.1
                        &&& final(self).phase is AwaitingFileInfo
                        &&& result matches DownloadAction::FetchFileInfo { file_id, file_key }
                            && file_id@ == parts.0 && file_key@ == parts.1
                    },
                    None => {
                        &&& final(self).download.file_metadata is None
                        &&& final(self).download.status matches DownloadStatus::Failed(m) && m@
                            == unsupported_url_message()
                        &&& final(self).phase is Failed
                        &&& result matches DownloadAction::Fail(m) && m@ == unsupported_url_message()
                    },
                },
            },
    {
        self.download.status = DownloadStatus::Downloading;
        if self.download.file_metadata.is_none() {
            match self.parse_url() {
                Ok(()) => {},
                Err(_) => {
                    return self.fail(String::from_str("URL de MEGA no válida o no soportada"));
                },
            }
            let ghost parts = parse_mega_link(old(self).download.url@)->0;
            let file_id = self.file_id();
            let file_key = match &self.download.file_metadata {
                Some(m) => m.key.clone(),
                None => String::new(),
            };
            proof {
                let name = provisional_name(parts.0);
                assert(name.take(16) =~= links::provisional_prefix());
                assert(name.skip(16) =~= parts.0);
            }
            self.phase = DownloadPhase::AwaitingFileInfo;
            DownloadAction::FetchFileInfo { file_id, file_key }
        } else {
            let file_id = self.file_id();
            self.phase = DownloadPhase::AwaitingDownloadUrl;
            DownloadAction::FetchDownloadUrl { file_id }
        }
    }

    /// Takes the API's answer about the file: its name and size replace the
    /// provisional ones and the next step is to ask where to fetch it; an
    /// error fails the download with its message.
    pub fn on_file_info(&mut self, info: Result<(String, u64), String>) -> (result: DownloadAction)
        requires
            old(self).phase is AwaitingFileInfo,
            old(self).wf(),
        ensures
            final(self).wf(),
            final(self).slots == old(self).slots,
            match info {
                Ok(details) => {
                    &&& final(self).download == old(self).download.with_file_metadata(
                        Some(
                            FileMetadata {
                                name: details.0,
                                size: details.1,
                                ..old(self).download.file_metadata->0
                            },
                        ),
                    )
                    &&& final(self).phase is AwaitingDownloadUrl
                    &&& result matches DownloadAction::FetchDownloadUrl { file_id } && file_id@
                        == file_id_for(details.0@, old(self).download.url@)
                },
                Err(message) => {
                    &&& final(self).download == old(self).download.with_status(
                        DownloadStatus::Failed(message),
                    )
                    &&& final(self).phase is Failed
                    &&& result == DownloadAction::Fail(message)
                },
            },
    {
        match info {
            Ok(details) => {
                let (name, size) = details;
                let key = match &self.download.file_metadata {
                    Some(m) => m.key.clone(),
                    None => String::new(),
                };
                self.download.file_metadata = Some(FileMetadata { name, size, key });
                let file_id = self.file_id();
                self.phase = DownloadPhase::AwaitingDownloadUrl;
                DownloadAction::FetchDownloadUrl { file_id }
            },
            Err(message) => self.fail(message),
        }
    }

    /// Takes the API's answer about where to fetch the file: the file is
    /// split into one range per worker and the transfer begins; an error
    /// fails the download with its message.
    pub fn on_download_url(&mut self, url: Result<String, String>) -> (result: DownloadAction)
        requires
            old(self).phase is AwaitingDownloadUrl,
            old(self).wf(),
            url is Ok ==> chunk_plan_fits(old(self).download.file_metadata->0.size, old(self).slots),
        ensures
            final(self).wf(),
            final(self).slots == old(self).slots,
            match url {
                Ok(u) => {
                    let size = old(self).download.file_metadata->0.size;
                    &&& final(self).download == old(self).download
                    &&& final(self).phase is Transferring
                    &&& final(self).received_chunks == 0
                    &&& final(self).bytes_received == 0
                    &&& result matches DownloadAction::Transfer { url: to, chunks } && to == u
                        && chunks@.len() == old(self).slots && forall|i: int|
                        0 <= i < old(self).slots ==> {
                            &&& (#[trigger] chunks@[i]).id == i
                            &&& chunks@[i].start == chunk_start(size, old(self).slots, i)
                            &&& chunks@[i].end == chunk_end(size, old(self).slots, i)
                            &&& chunks@[i].data is None
                        }
                },
                Err(message) => {
                    &&& final(self).download == old(self).download.with_status(
                        DownloadStatus::Failed(message),
                    )
                    &&& final(self).phase is Failed
                    &&& result == DownloadAction::Fail(message)
                },
            },
    {
        match url {
            Ok(u) => {
                let size = match &self.download.file_metadata {
                    Some(m) => m.size,
                    None => 0,
                };
                let chunks = plan_chunks(size, self.slots);
                self.phase = DownloadPhase::Transferring;
                self.received_chunks = 0;
                self.bytes_received = 0;
                DownloadAction::Transfer { url: u, chunks }
            },
            Err(message) => self.fail(message),
        }
    }

    /// Counts a range that arrived (with `data_len` bytes, or none): once
    /// every range has arrived the file is assembled.
    pub fn on_chunk(&mut self, data_len: Option<u64>) -> (result: DownloadAction)
        requires
            old(self).phase is Transferring,
            old(self).wf(),
            data_len matches Some(n) ==> old(self).bytes_received + n <= u64::MAX,
        ensures
            final(self).wf(),
            final(self).download == old(self).download,
            final(self).slots == old(self).slots,
            final(self).received_chunks == old(self).received_chunks + 1,
            final(self).bytes_received == old(self).bytes_received + match data_len {
                Some(n) => n as int,
                None => 0,
            },
            if old(self).received_chunks + 1 == old(self).slots {
                final(self).phase is Assembling && result is Assemble
            } else {
                final(self).phase is Transferring && result is AwaitChunk
            },
    {
        match data_len {
            Some(n) => {
                self.bytes_received = self.bytes_received + n;
            },
            None => {},
        }
        self.received_chunks = self.received_chunks + 1;
        if self.received_chunks == self.slots {
            self.phase = DownloadPhase::Assembling;
            DownloadAction::Assemble
        } else {
            DownloadAction::AwaitChunk
        }
    }

    /// The transfer stopped before every range arrived: the download fails
    /// with a message giving how many did.
    pub fn on_transfer_ended(&mut self) -> (result: DownloadAction)
        requires
            old(self).phase is Transferring,
            old(self).wf(),
        ensures
            final(self).wf(),
            final(self).slots == old(self).slots,
            final(self).phase is Failed,
            final(self).download.status matches DownloadStatus::Failed(m) && m@ == incomplete_message(
                old(self).received_chunks as nat,
                old(self).slots as nat,
            ),
            final(self).download == old(self).download.with_status(final(self).download.status),
            result matches DownloadAction::Fail(m) && m@ == incomplete_message(
                old(self).received_chunks as nat,
                old(self).slots as nat,
            ),
    {
        let mut text = chars_of("Descarga incompleta: solo se recibieron ");
        push_decimal(&mut text, self.received_chunks as u64);
        text.push('/');
        push_decimal(&mut text, self.slots as u64);
        let tail = chars_of(" chunks");
        push_chars(&mut text, &tail);
        assert(text@ =~= incomplete_message(self.received_chunks as nat, self.slots as nat));
        self.fail(string_from_chars(&text))
    }

    /// Takes the outcome of assembling the file: the download completes, or
    /// fails with the error's message.
    pub fn on_assembled(&mut self, outcome: Result<(), String>) -> (result: DownloadAction)
        requires
            old(self).phase is Assembling,
            old(self).wf(),
        ensures
            final(self).wf(),
            final(self).slots == old(self).slots,
            match outcome {
                Ok(()) => {
                    &&& final(self).download == old(self).download.with_status(
                        DownloadStatus::Completed,
                    )
                    &&& final(self).phase is Completed
                    &&& result is Finished
                },
                Err(message) => {
                    &&& final(self).download == old(self).download.with_status(
                        DownloadStatus::Failed(message),
                    )
                    &&& final(self).phase is Failed
                    &&& result == DownloadAction::Fail(message)
                },
            },
    {
        match outcome {
            Ok(()) => {
                self.download.status = DownloadStatus::Completed;
                self.phase = DownloadPhase::Completed;
                DownloadAction::Finished
            },
            Err(message) => self.fail(message),
        }
    }
}

} // verus!
