use megacore::core_types::{Chunk, Download, DownloadStatus, FileMetadata};
use megacore::crypto::CryptoError;
use megacore::downloader::assembler::{AssembleError, FileAssembler};
use megacore::downloader::chunks::{backoff_after, plan_chunks, ChunkAction, ChunkEvent, ChunkFailure, ChunkRetry, MAX_RETRIES, MIN_CHUNK_SIZE};
use megacore::downloader::{DownloadAction, DownloadError, DownloadPhase, Downloader, WORKERS_DEFAULT};

fn dl(url: &str) -> Download {
    Download {
        url: url.to_string(),
        file_metadata: None,
        progress: 0,
        status: DownloadStatus::Pending,
        download_path: "/tmp".to_string(),
    }
}

fn meta(d: &Downloader) -> (String, u64, String) {
    let m = d.download.file_metadata.as_ref().unwrap();
    (m.name.clone(), m.size, m.key.clone())
}

#[test]
fn parse_current_link_format() {
    let mut d = Downloader::new(dl("https://mega.nz/file/AbCd1234#KeyPart_-x"));
    assert_eq!(d.parse_url(), Ok(()));
    assert_eq!(meta(&d), ("downloaded_file_AbCd1234".to_string(), 0, "KeyPart_-x".to_string()));
}

#[test]
fn parse_current_format_splits_at_first_hash() {
    let mut d = Downloader::new(dl("https://mega.nz/file/ID#K1#K2"));
    assert_eq!(d.parse_url(), Ok(()));
    assert_eq!(meta(&d).2, "K1#K2");
}

#[test]
fn parse_legacy_link_format() {
    let mut d = Downloader::new(dl("https://mega.nz/#!FileId!TheKey"));
    assert_eq!(d.parse_url(), Ok(()));
    assert_eq!(meta(&d), ("downloaded_file_FileId".to_string(), 0, "TheKey".to_string()));
    let mut d = Downloader::new(dl("https://mega.nz/#!A!B!C"));
    assert_eq!(d.parse_url(), Ok(()));
    assert_eq!(meta(&d).2, "B");
}

#[test]
fn parse_rejects_other_links() {
    for url in ["https://example.com/file", "https://mega.nz/file/NoHash", "https://mega.nz/#!OnlyId", ""] {
        let mut d = Downloader::new(dl(url));
        assert_eq!(d.parse_url(), Err(DownloadError::UnsupportedUrl));
        assert!(d.download.file_metadata.is_none());
    }
}

#[test]
fn file_id_prefers_provisional_name() {
    let mut d = Downloader::new(dl("https://mega.nz/file/ID1#K"));
    d.download.file_metadata = Some(FileMetadata { name: "downloaded_file_ZZ".to_string(), size: 0, key: "K".to_string() });
    assert_eq!(d.file_id(), "ZZ");
    d.download.file_metadata = Some(FileMetadata { name: "real.bin".to_string(), size: 0, key: "K".to_string() });
    assert_eq!(d.file_id(), "ID1");
    let mut e = Downloader::new(dl("https://nowhere"));
    e.download.file_metadata = Some(FileMetadata { name: "real.bin".to_string(), size: 0, key: "K".to_string() });
    assert_eq!(e.file_id(), "");
}

#[test]
fn chunks_cover_large_file() {
    let size: u64 = 6 * MIN_CHUNK_SIZE + 5;
    let chunks = plan_chunks(size, 6);
    assert_eq!(chunks.len(), 6);
    let share = size / 6;
    assert_eq!(chunks[0].start, 0);
    for i in 0..5 {
        assert_eq!(chunks[i].end + 1, chunks[i + 1].start);
        assert_eq!(chunks[i].end - chunks[i].start + 1, share);
        assert_eq!(chunks[i].id, i as u64);
    }
    assert_eq!(chunks[5].end, size - 1);
    assert!(chunks.iter().all(|c| c.data.is_none()));
}

#[test]
fn chunks_of_small_file_use_minimum_size() {
    let chunks = plan_chunks(100, 3);
    let ranges: Vec<(u64, u64)> = chunks.iter().map(|c| (c.start, c.end)).collect();
    assert_eq!(ranges, vec![(0, MIN_CHUNK_SIZE - 1), (MIN_CHUNK_SIZE, 2 * MIN_CHUNK_SIZE - 1), (2 * MIN_CHUNK_SIZE, 99)]);
}

fn chunk() -> Chunk {
    Chunk { id: 4, start: 10, end: 1234567, data: None }
}

#[test]
fn range_header_text() {
    assert_eq!(ChunkRetry::new(chunk()).range_header(), "bytes=10-1234567");
    assert_eq!(ChunkRetry::new(Chunk { id: 0, start: 0, end: 0, data: None }).range_header(), "bytes=0-0");
}

#[test]
fn retry_gives_up_after_three_attempts() {
    let r = ChunkRetry::new(chunk());
    assert_eq!(r.attempt, 1);
    let (r, a) = r.step(ChunkEvent::Failed(ChunkFailure::Connection));
    assert!(matches!(a, ChunkAction::RetryAfterPause { seconds: 1 }));
    assert_eq!(r.attempt, 2);
    let (r, a) = r.step(ChunkEvent::Failed(ChunkFailure::HttpStatus(503)));
    assert!(matches!(a, ChunkAction::RetryAfterPause { seconds: 2 }));
    assert_eq!(r.attempt, MAX_RETRIES);
    let (r, a) = r.step(ChunkEvent::Failed(ChunkFailure::Body));
    assert!(matches!(a, ChunkAction::GiveUp(ChunkFailure::Body)));
    assert_eq!(r.last_error, Some(ChunkFailure::Body));
}

#[test]
fn retry_delivers_received_data() {
    let r = ChunkRetry::new(chunk());
    let (r, _) = r.step(ChunkEvent::Failed(ChunkFailure::Connection));
    let (_, a) = r.step(ChunkEvent::Received(vec![1, 2, 3]));
    match a {
        ChunkAction::Deliver(c) => {
            assert_eq!((c.id, c.start, c.end), (4, 10, 1234567));
            assert_eq!(c.data, Some(vec![1, 2, 3]));
        }
        _ => panic!("expected delivery"),
    }
}

#[test]
fn run_from_link_to_completion() {
    let mut d = Downloader::new(dl("https://mega.nz/file/XYZ#SECRET")).with_slots(2);
    assert_eq!(d.slots, 2);
    match d.start() {
        DownloadAction::FetchFileInfo { file_id, file_key } => {
            assert_eq!(file_id, "XYZ");
            assert_eq!(file_key, "SECRET");
        }
        other => panic!("unexpected {:?}", other),
    }
    assert!(matches!(d.download.status, DownloadStatus::Downloading));
    match d.on_file_info(Ok(("movie.mkv".to_string(), 3 * MIN_CHUNK_SIZE))) {
        DownloadAction::FetchDownloadUrl { file_id } => assert_eq!(file_id, "XYZ"),
        other => panic!("unexpected {:?}", other),
    }
    assert_eq!(meta(&d), ("movie.mkv".to_string(), 3 * MIN_CHUNK_SIZE, "SECRET".to_string()));
    match d.on_download_url(Ok("https://dl/x".to_string())) {
        DownloadAction::Transfer { url, chunks } => {
            assert_eq!(url, "https://dl/x");
            assert_eq!(chunks.len(), 2);
            assert_eq!(chunks[1].end, 3 * MIN_CHUNK_SIZE - 1);
        }
        other => panic!("unexpected {:?}", other),
    }
    assert!(matches!(d.on_chunk(Some(10)), DownloadAction::AwaitChunk));
    assert!(matches!(d.on_chunk(None), DownloadAction::Assemble));
    assert_eq!(d.bytes_received, 10);
    assert_eq!(d.phase, DownloadPhase::Assembling);
    assert!(matches!(d.on_assembled(Ok(())), DownloadAction::Finished));
    assert!(matches!(d.download.status, DownloadStatus::Completed));
    assert_eq!(d.phase, DownloadPhase::Completed);
}

#[test]
fn run_with_known_file_skips_info() {
    let mut download = dl("https://mega.nz/#!OLD!KEY");
    download.file_metadata = Some(FileMetadata { name: "known.bin".to_string(), size: 5, key: "KEY".to_string() });
    let mut d = Downloader::new(download);
    assert_eq!(d.slots, WORKERS_DEFAULT);
    match d.start() {
        DownloadAction::FetchDownloadUrl { file_id } => assert_eq!(file_id, "OLD"),
        other => panic!("unexpected {:?}", other),
    }
}

#[test]
fn run_fails_on_bad_link() {
    let mut d = Downloader::new(dl("ftp://x"));
    match d.start() {
        DownloadAction::Fail(m) => assert_eq!(m, "URL de MEGA no válida o no soportada"),
        other => panic!("unexpected {:?}", other),
    }
    assert!(matches!(d.download.status, DownloadStatus::Failed(ref m) if m == "URL de MEGA no válida o no soportada"));
    assert_eq!(d.phase, DownloadPhase::Failed);
}

#[test]
fn run_fails_on_api_errors() {
    let mut d = Downloader::new(dl("https://mega.nz/file/A#B"));
    d.start();
    assert!(matches!(d.on_file_info(Err("api down".to_string())), DownloadAction::Fail(ref m) if m == "api down"));
    assert!(matches!(d.download.status, DownloadStatus::Failed(ref m) if m == "api down"));

    let mut d = Downloader::new(dl("https://mega.nz/file/A#B"));
    d.start();
    d.on_file_info(Ok(("f".to_string(), 10)));
    assert!(matches!(d.on_download_url(Err("no url".to_string())), DownloadAction::Fail(ref m) if m == "no url"));
}

#[test]
fn run_fails_when_transfer_incomplete() {
    let mut d = Downloader::new(dl("https://mega.nz/file/A#B")).with_slots(4);
    d.start();
    d.on_file_info(Ok(("f".to_string(), 4 * MIN_CHUNK_SIZE)));
    d.on_download_url(Ok("u".to_string()));
    d.on_chunk(Some(1));
    match d.on_transfer_ended() {
        DownloadAction::Fail(m) => assert_eq!(m, "Descarga incompleta: solo se recibieron 1/4 chunks"),
        other => panic!("unexpected {:?}", other),
    }
    assert_eq!(d.phase, DownloadPhase::Failed);
}

#[test]
fn run_fails_when_assembly_fails() {
    let mut d = Downloader::new(dl("https://mega.nz/file/A#B")).with_slots(1);
    d.start();
    d.on_file_info(Ok(("f".to_string(), 10)));
    d.on_download_url(Ok("u".to_string()));
    assert!(matches!(d.on_chunk(Some(10)), DownloadAction::Assemble));
    assert!(matches!(d.on_assembled(Err("bad mac".to_string())), DownloadAction::Fail(ref m) if m == "bad mac"));
}

#[test]
fn assembler_integrity_decisions() {
    let mut download = dl("u");
    let a = FileAssembler::new(download.clone(), "t".to_string(), "f".to_string());
    assert_eq!(a.integrity_key(), None);
    download.file_metadata = Some(FileMetadata { name: "n".to_string(), size: 1, key: String::new() });
    let a = FileAssembler::new(download.clone(), "t".to_string(), "f".to_string());
    assert_eq!(a.integrity_key(), None);
    download.file_metadata = Some(FileMetadata { name: "n".to_string(), size: 1, key: "KEY".to_string() });
    let a = FileAssembler::new(download, "t".to_string(), "f".to_string());
    assert_eq!(a.integrity_key(), Some("KEY".to_string()));
    assert_eq!(a.temp_file_path, "t");
    assert_eq!(FileAssembler::integrity_verdict(Ok(true)), Ok(()));
    assert_eq!(FileAssembler::integrity_verdict(Ok(false)), Err(AssembleError::IntegrityMismatch));
    assert_eq!(FileAssembler::integrity_verdict(Err(CryptoError::KeyTooShort)), Err(AssembleError::Crypto(CryptoError::KeyTooShort)));
}

#[test]
fn backoff_doubles() {
    assert_eq!(backoff_after(1), 1);
    assert_eq!(backoff_after(2), 2);
    assert_eq!(backoff_after(3), 4);
}

#[test]
fn temp_file_name_appends_mctemp() {
    let mut d = Downloader::new(dl("https://mega.nz/file/ID1#K"));
    d.download.file_metadata = Some(FileMetadata { name: "report.pdf".to_string(), size: 10, key: "K".to_string() });
    assert_eq!(d.temp_file_name(), "report.pdf.mctemp");
}

#[test]
fn download_error_message() {
    assert_eq!(DownloadError::UnsupportedUrl.message(), "URL de MEGA no válida o no soportada");
}
