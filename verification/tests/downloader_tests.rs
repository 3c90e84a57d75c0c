use yt_dlp_gui::downloader::{
    needs_write, parse_count_text, parse_link_info, parse_percent_tenths, split_first_line, poll_finished, progress_from_captures, item_from_captures,
    DownloadEvent, OutputReader, WaitOutcome,
};

fn progress(ev: &DownloadEvent) -> Option<(u32, String, String, String)> {
    match ev {
        DownloadEvent::Progress { percent_tenths, speed, eta, item } => {
            Some((*percent_tenths, speed.clone(), eta.clone(), item.clone()))
        }
        _ => None,
    }
}

#[test]
fn unchanged_binary_is_not_rewritten() {
    let data = b"binary contents".to_vec();
    assert!(!needs_write(Some(data.as_slice()), &data));
}

#[test]
fn missing_or_changed_binary_is_written() {
    let data = b"binary contents".to_vec();
    assert!(needs_write(None, &data));
    assert!(needs_write(Some(&b"other contents"[..]), &data));
    assert!(needs_write(Some(&b""[..]), &data));
}

#[test]
fn percent_text() {
    assert_eq!(parse_percent_tenths("45.3"), 453);
    assert_eq!(parse_percent_tenths("100.0"), 1000);
    assert_eq!(parse_percent_tenths("0.5"), 5);
    assert_eq!(parse_percent_tenths("045.3"), 453);
    assert_eq!(parse_percent_tenths("4x.3"), 0);
    assert_eq!(parse_percent_tenths("45"), 0);
    assert_eq!(parse_percent_tenths("\u{664}\u{665}.\u{663}"), 0);
}

#[test]
fn progress_line_gives_progress_and_log() {
    let mut r = OutputReader::new();
    let line = "[download]  45.3% of   10.00MiB at    1.23MiB/s ETA 00:05".to_string();
    let evs = r.read_line(line.clone());
    assert_eq!(evs.len(), 2);
    assert_eq!(
        progress(&evs[0]),
        Some((453, "1.23MiB/s".to_string(), "00:05".to_string(), String::new()))
    );
    match &evs[1] {
        DownloadEvent::Log(l) => assert_eq!(l, &line),
        _ => panic!("expected a log line"),
    }
}

#[test]
fn item_line_sets_current_item() {
    let mut r = OutputReader::new();
    let evs = r.read_line("[download] Downloading item 3 of 12".to_string());
    assert_eq!(evs.len(), 1);
    assert_eq!(r.current_item, "3/12");
    let evs = r.read_line("[download] 100.0% of 2.00MiB at 3.00MiB/s ETA 00:00".to_string());
    assert_eq!(progress(&evs[0]).unwrap().3, "3/12");
}

#[test]
fn blank_line_gives_nothing() {
    let mut r = OutputReader::new();
    r.current_item = "1/2".to_string();
    assert!(r.read_line(" \t ".to_string()).is_empty());
    assert!(r.read_line(String::new()).is_empty());
    assert_eq!(r.current_item, "1/2");
}

#[test]
fn other_line_is_only_logged() {
    let mut r = OutputReader::new();
    let evs = r.read_line("[youtube] abc: Downloading webpage".to_string());
    assert_eq!(evs.len(), 1);
    assert!(matches!(&evs[0], DownloadEvent::Log(l) if l == "[youtube] abc: Downloading webpage"));
}

#[test]
fn captures_to_events() {
    let caps = Some(vec![
        Some("whole".to_string()),
        Some("12.5".to_string()),
        Some("1KiB/s".to_string()),
        Some("01:00".to_string()),
    ]);
    assert_eq!(
        progress(&progress_from_captures(&caps, "2/5").unwrap()),
        Some((125, "1KiB/s".to_string(), "01:00".to_string(), "2/5".to_string()))
    );
    assert!(progress_from_captures(&None, "").is_none());
    assert!(progress_from_captures(&Some(vec![Some("w".to_string())]), "").is_none());
    let item = Some(vec![Some("w".to_string()), Some("4".to_string()), Some("9".to_string())]);
    assert_eq!(item_from_captures(&item), Some("4/9".to_string()));
    assert_eq!(item_from_captures(&None), None);
}

#[test]
fn finished_process() {
    assert!(poll_finished(WaitOutcome::Running).is_none());
    assert!(matches!(
        poll_finished(WaitOutcome::Exited { success: true, status: "exit status: 0".to_string() }),
        Some(DownloadEvent::Finished(Ok(())))
    ));
    match poll_finished(WaitOutcome::Exited { success: false, status: "exit status: 1".to_string() }) {
        Some(DownloadEvent::Finished(Err(e))) => assert_eq!(e, "yt-dlp завершился с кодом exit status: 1"),
        _ => panic!("expected a failure"),
    }
    match poll_finished(WaitOutcome::Failed("boom".to_string())) {
        Some(DownloadEvent::Finished(Err(e))) => assert_eq!(e, "Ошибка ожидания процесса: boom"),
        _ => panic!("expected a failure"),
    }
}

#[test]
fn event_clone_keeps_content() {
    let e = DownloadEvent::Finished(Err("x".to_string()));
    assert!(matches!(e.clone(), DownloadEvent::Finished(Err(m)) if m == "x"));
}

#[test]
fn link_info_from_output() {
    assert_eq!(parse_link_info("  My video \nNA\n"), ("My video".to_string(), None));
    assert_eq!(parse_link_info("List\r\n 12 \r\n"), ("List".to_string(), Some(12)));
    assert_eq!(parse_link_info(""), (String::new(), None));
    assert_eq!(parse_link_info("only title"), ("only title".to_string(), None));
    assert_eq!(split_first_line("a\nb\nc"), ("a", "b\nc"));
    assert_eq!(split_first_line("abc"), ("abc", ""));
    assert_eq!(parse_count_text("18446744073709551615"), Some(u64::MAX));
    assert_eq!(parse_count_text("18446744073709551616"), None);
    assert_eq!(parse_count_text("+5"), None);
    assert_eq!(parse_count_text("007"), Some(7));
}
