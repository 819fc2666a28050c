use megacore::core_types::{Download, DownloadStatus};
use megacore::downloader::manager::DownloadManager;
use megacore::MegaDownloader;

fn dl(url: &str) -> Download {
    Download {
        url: url.to_string(),
        file_metadata: None,
        progress: 0,
        status: DownloadStatus::Pending,
        download_path: ".".to_string(),
    }
}

fn status_name(s: &DownloadStatus) -> &'static str {
    match s {
        DownloadStatus::Pending => "pending",
        DownloadStatus::Downloading => "downloading",
        DownloadStatus::Paused => "paused",
        DownloadStatus::Completed => "completed",
        DownloadStatus::Failed(_) => "failed",
    }
}

#[test]
fn queue_is_first_in_first_out() {
    let mut m = DownloadManager::new();
    assert!(!m.has_downloads());
    m.add_download(dl("a"));
    m.add_download(dl("b"));
    assert!(m.has_downloads());
    assert_eq!(m.get_next_download().unwrap().url, "a");
    assert_eq!(m.get_next_download().unwrap().url, "b");
    assert!(m.get_next_download().is_none());
    assert!(!m.has_downloads());
}

#[test]
fn pause_and_resume_first_match_only() {
    let mut m = DownloadManager::new();
    m.add_download(dl("x"));
    m.add_download(dl("y"));
    m.add_download(dl("y"));
    m.pause_download("y");
    let s: Vec<&str> = m.queue.iter().map(|d| status_name(&d.status)).collect();
    assert_eq!(s, vec!["pending", "paused", "pending"]);
    m.pause_download("missing");
    let s: Vec<&str> = m.queue.iter().map(|d| status_name(&d.status)).collect();
    assert_eq!(s, vec!["pending", "paused", "pending"]);
    m.resume_download("y");
    assert!(m.queue.iter().all(|d| status_name(&d.status) == "pending"));
}

#[test]
fn cancel_removes_every_match() {
    let mut m = DownloadManager::new();
    for u in ["a", "b", "a", "c", "a"] {
        m.add_download(dl(u));
    }
    m.cancel_download("a");
    let urls: Vec<&str> = m.queue.iter().map(|d| d.url.as_str()).collect();
    assert_eq!(urls, vec!["b", "c"]);
    m.cancel_download("a");
    assert_eq!(m.queue.len(), 2);
    m.pause_download("a");
    assert!(m.queue.iter().all(|d| status_name(&d.status) == "pending"));
}

#[test]
fn resume_after_pause_is_pending() {
    let mut m = DownloadManager::new();
    m.add_download(dl("z"));
    m.pause_download("z");
    m.resume_download("z");
    assert_eq!(status_name(&m.queue[0].status), "pending");
    assert_eq!(m.queue.len(), 1);
}

#[test]
fn mega_downloader_front_door() {
    let mut md = MegaDownloader::new();
    assert!(md.get_downloads().unwrap().is_empty());
    md.add_download("https://mega.nz/file/ID#KEY", "/tmp").unwrap();
    md.add_download("other", "/data").unwrap();
    let all = md.get_downloads().unwrap();
    assert_eq!(all.len(), 2);
    assert_eq!(all[0].url, "https://mega.nz/file/ID#KEY");
    assert_eq!(all[0].download_path, "/tmp");
    assert_eq!(all[0].progress, 0);
    assert!(all[0].file_metadata.is_none());
    md.pause_download("other").unwrap();
    assert_eq!(status_name(&md.get_downloads().unwrap()[1].status), "paused");
    md.resume_download("other").unwrap();
    assert_eq!(status_name(&md.get_downloads().unwrap()[1].status), "pending");
    md.cancel_download("https://mega.nz/file/ID#KEY").unwrap();
    let all = md.get_downloads().unwrap();
    assert_eq!(all.len(), 1);
    assert_eq!(all[0].url, "other");
}

#[test]
fn download_clone_is_equal() {
    let mut d = dl("u");
    d.status = DownloadStatus::Failed("boom".to_string());
    let c = d.clone();
    assert_eq!(c.url, "u");
    assert!(matches!(c.status, DownloadStatus::Failed(ref m) if m == "boom"));
}
