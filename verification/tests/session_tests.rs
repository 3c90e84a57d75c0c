use yt_dlp_gui::downloader::DownloadEvent;
use yt_dlp_gui::session::{log_file_name, seconds_or_zero, setup_error_message, timestamp, AnalyzeStatus, Session, Status};

#[test]
fn new_session_is_idle() {
    let s = Session::new();
    assert_eq!(s.status, Status::Idle);
    assert_eq!(s.analyze_status, AnalyzeStatus::Idle);
    assert!(!s.tracking_process);
    assert!(!s.is_busy());
    assert!(!s.shows_progress());
}

#[test]
fn start_requires_tools_and_link() {
    let mut s = Session::new();
    assert!(!s.start_download(false, "https://x"));
    assert_eq!(s.status, Status::Error("yt-dlp/ffmpeg не готовы".to_string()));
    assert!(!s.start_download(true, "   "));
    assert_eq!(s.status, Status::Error("Укажите ссылку".to_string()));
}

#[test]
fn start_resets_progress() {
    let mut s = Session::new();
    s.percent_tenths = 500;
    s.speed = "1MiB/s".to_string();
    s.eta = "00:10".to_string();
    assert!(s.start_download(true, " https://x "));
    assert_eq!(s.status, Status::Running);
    assert_eq!(s.percent_tenths, 0);
    assert!(s.speed.is_empty() && s.eta.is_empty());
    assert!(s.is_busy());
    assert!(s.shows_progress());
}

#[test]
fn download_runs_to_done() {
    let mut s = Session::new();
    assert!(s.start_download(true, "https://x"));
    s.launched();
    assert!(s.tracking_process);
    let log = s.apply_event(DownloadEvent::Log("line".to_string()));
    assert_eq!(log, Some("line".to_string()));
    assert_eq!(s.status, Status::Running);
    let none = s.apply_event(DownloadEvent::Progress {
        percent_tenths: 453,
        speed: "1MiB/s".to_string(),
        eta: "00:05".to_string(),
        item: "1/2".to_string(),
    });
    assert!(none.is_none());
    assert_eq!(s.percent_tenths, 453);
    assert_eq!(s.playlist_item, "1/2");
    s.apply_event(DownloadEvent::Finished(Ok(())));
    assert_eq!(s.status, Status::Done);
    assert!(!s.tracking_process);
    assert!(s.shows_progress());
}

#[test]
fn failed_download_reports_error() {
    let mut s = Session::new();
    s.start_download(true, "https://x");
    s.launched();
    s.apply_event(DownloadEvent::Finished(Err("bad".to_string())));
    assert_eq!(s.status, Status::Error("bad".to_string()));
    assert!(!s.tracking_process);
}

#[test]
fn launch_failure_and_cancel() {
    let mut s = Session::new();
    s.start_download(true, "https://x");
    s.launch_failed("no such file");
    assert_eq!(s.status, Status::Error("Не удалось запустить yt-dlp: no such file".to_string()));
    s.start_download(true, "https://x");
    s.launched();
    assert_eq!(s.cancel_download(), "⏹ Загрузка отменена пользователем");
    assert_eq!(s.status, Status::Idle);
    assert!(!s.tracking_process);
}

#[test]
fn analysis_flow() {
    let mut s = Session::new();
    assert_eq!(s.start_analyze(false, "https://x"), None);
    assert_eq!(s.analyze_status, AnalyzeStatus::Error("yt-dlp не готов".to_string()));
    assert_eq!(s.start_analyze(true, " \t"), None);
    assert_eq!(s.analyze_status, AnalyzeStatus::Error("Укажите ссылку".to_string()));
    assert_eq!(s.start_analyze(true, "  https://x  "), Some("https://x".to_string()));
    assert_eq!(s.analyze_status, AnalyzeStatus::Loading);
    assert!(s.is_busy());
    s.finish_analyze(Ok(()));
    assert_eq!(s.analyze_status, AnalyzeStatus::Loaded);
    s.finish_analyze(Err("oops".to_string()));
    assert_eq!(s.analyze_status, AnalyzeStatus::Error("oops".to_string()));
}

#[test]
fn messages_and_names() {
    assert_eq!(setup_error_message("io"), "Не удалось подготовить yt-dlp/ffmpeg: io");
    assert_eq!(log_file_name(1700000000), "yt-dlp-gui_1700000000.log");
    assert_eq!(log_file_name(0), "yt-dlp-gui_0.log");
}

#[test]
fn clock_reading_to_timestamp() {
    assert_eq!(seconds_or_zero(Some(1_700_000_000)), 1_700_000_000);
    assert_eq!(seconds_or_zero(None), 0);
    let _ = timestamp();
}
