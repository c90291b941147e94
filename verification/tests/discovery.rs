use thasia::discovery::{
    archive_file_name, client_access, command_error, download_output_dir, is_recoverable_exit,
    manga_download_dir, monitor_step, now_string, restart_outcome, runtime_status,
    sanitize_file_name, server_conf_content, signed_decimal_string, timestamp_string,
    update_available, DownloadTracker, DownloadUpdate, MonitorAction, RuntimeState,
};
use thasia::events::ChapterDownloadPhase;

#[test]
fn sanitize_replaces_reserved_and_control_characters() {
    assert_eq!(sanitize_file_name("Re:Zero / Part?1*"), "Re_Zero _ Part_1_");
    assert_eq!(sanitize_file_name("a\tb\u{7f}c"), "a_b_c");
    assert_eq!(sanitize_file_name("  ..Title..  "), "Title");
    assert_eq!(sanitize_file_name(" . "), "download");
    assert_eq!(sanitize_file_name(""), "download");
    assert_eq!(sanitize_file_name("\u{3000}Name\u{2003}"), "Name");
    assert_eq!(sanitize_file_name(". Name"), " Name");
}

#[test]
fn recoverable_exits() {
    assert!(is_recoverable_exit("process exited unexpectedly with code 1"));
    assert!(is_recoverable_exit("killed by SIGSEGV"));
    assert!(is_recoverable_exit("exit status: signal: 6 (core dumped)"));
    assert!(is_recoverable_exit("signal: 11"));
    assert!(is_recoverable_exit("SIGABRT"));
    assert!(!is_recoverable_exit("port already in use"));
    assert!(!is_recoverable_exit(""));
}

#[test]
fn command_error_strips_prefix_once() {
    assert_eq!(command_error("Discovery Error: boom"), "boom");
    assert_eq!(command_error("Discovery Error: Discovery Error: x"), "Discovery Error: x");
    assert_eq!(command_error("other"), "other");
    assert_eq!(command_error("Discovery Error:"), "Discovery Error:");
}

#[test]
fn timestamps() {
    assert_eq!(timestamp_string(Some(1_700_000_000)), "1700000000");
    assert_eq!(timestamp_string(None), "0");
    let now = now_string();
    assert!(!now.is_empty());
    assert!(now.chars().all(|c| c.is_ascii_digit()));
}

#[test]
fn status_and_client_access() {
    assert!(matches!(runtime_status(RuntimeState::NotRunning, false), RuntimeState::NotInstalled));
    assert!(matches!(runtime_status(RuntimeState::NotRunning, true), RuntimeState::NotRunning));
    assert!(matches!(runtime_status(RuntimeState::Starting, false), RuntimeState::Starting));
    assert_eq!(client_access(&RuntimeState::NotInstalled, true), Err("Suwayomi-Server is not installed".into()));
    assert_eq!(client_access(&RuntimeState::NotRunning, true), Err("Suwayomi-Server is not running".into()));
    assert_eq!(client_access(&RuntimeState::Starting, true), Err("Suwayomi-Server is still starting".into()));
    assert_eq!(
        client_access(&RuntimeState::Error { message: "boom".into() }, true),
        Err("Suwayomi-Server is not running: boom".into())
    );
    assert_eq!(client_access(&RuntimeState::Ready { port: 4567 }, false), Err("Suwayomi-Server is not ready".into()));
    assert_eq!(client_access(&RuntimeState::Ready { port: 4567 }, true), Ok(()));
}

#[test]
fn updates() {
    assert!(update_available(&None, &"v1".to_string()));
    assert!(update_available(&Some("v1".into()), &"v2".to_string()));
    assert!(!update_available(&Some("v2".into()), &"v2".to_string()));
}

#[test]
fn monitor_restarts_three_times_then_gives_up() {
    let crash = RuntimeState::Error { message: "exited unexpectedly".into() };
    let mut restarts = 0;
    for expected in 1..=3u64 {
        let (next, action) = monitor_step(restarts, &crash);
        match action {
            MonitorAction::Restart { delay_secs } => assert_eq!(delay_secs, expected),
            other => panic!("unexpected {other:?}"),
        }
        restarts = next;
    }
    assert_eq!(restarts, 3);
    match monitor_step(restarts, &crash).1 {
        MonitorAction::GiveUp { message } => assert_eq!(
            message,
            "Suwayomi-Server keeps crashing after automatic restarts: exited unexpectedly"
        ),
        other => panic!("unexpected {other:?}"),
    }
    assert_eq!(monitor_step(3, &RuntimeState::Ready { port: 1 }).0, 0);
    assert!(matches!(monitor_step(2, &RuntimeState::NotRunning), (2, MonitorAction::Stop)));
    assert!(matches!(monitor_step(2, &RuntimeState::NotInstalled), (2, MonitorAction::Stop)));
    assert!(matches!(
        monitor_step(1, &RuntimeState::Error { message: "config invalid".into() }),
        (1, MonitorAction::Watch)
    ));
    assert!(matches!(restart_outcome(Ok(4567)), RuntimeState::Ready { port: 4567 }));
    assert!(matches!(restart_outcome(Err("x".into())), RuntimeState::Error { .. }));
}

#[test]
fn archive_names() {
    assert_eq!(archive_file_name(0, 42), "0001-42.cbz");
    assert_eq!(archive_file_name(9998, -7), "9999--7.cbz");
    assert_eq!(archive_file_name(12344, 1), "12345-1.cbz");
    assert_eq!(signed_decimal_string(i64::MIN), i64::MIN.to_string());
    assert_eq!(signed_decimal_string(0), "0");
}

#[test]
fn download_directories() {
    assert_eq!(
        manga_download_dir(&Some("/dl".into()), "/data", "One: Piece"),
        "/dl/One_ Piece"
    );
    assert_eq!(
        manga_download_dir(&None, "/data/", "Title."),
        "/data/manga-downloads/Title"
    );
    assert_eq!(download_output_dir(true, "/dl/x".into()), None);
    assert_eq!(download_output_dir(false, "/dl/x".into()), Some("/dl/x".into()));
}

#[test]
fn download_tracker_reports_progress_and_results() {
    let mut tracker = DownloadTracker::new(2);
    assert!(tracker.is_waiting());
    match tracker.on_tick(false) {
        DownloadUpdate::Progress(event) => {
            assert_eq!(event.current_chapter, "Downloading chapters\u{2026} 1s");
            assert_eq!((event.current, event.total, event.tick), (0, 2, 1));
            assert_eq!(event.phase, ChapterDownloadPhase::Downloading);
        }
        other => panic!("unexpected {other:?}"),
    }
    match tracker.on_chapter(false, 1, 77, "/tmp/0002-77.cbz".into()) {
        DownloadUpdate::Progress(event) => {
            assert_eq!(event.current_chapter, "77");
            assert_eq!((event.current, event.total, event.tick), (1, 2, 1));
            assert_eq!(event.phase, ChapterDownloadPhase::Complete);
        }
        other => panic!("unexpected {other:?}"),
    }
    tracker.on_chapter(false, 0, 76, "/tmp/0001-76.cbz".into());
    assert!(!tracker.is_waiting());
    assert_eq!(
        tracker.finish(),
        Ok(vec!["/tmp/0001-76.cbz".to_string(), "/tmp/0002-77.cbz".to_string()])
    );
}

#[test]
fn download_tracker_cancel_and_shortfall() {
    let mut tracker = DownloadTracker::new(3);
    match tracker.on_tick(true) {
        DownloadUpdate::Cancelled(event) => {
            assert!(!event.success);
            assert_eq!(event.error.as_deref(), Some("Cancelled"));
            assert!(event.output_dir.is_none());
        }
        other => panic!("unexpected {other:?}"),
    }
    assert!(matches!(tracker.on_chapter(true, 0, 1, "x".into()), DownloadUpdate::Cancelled(_)));
    tracker.on_chapter(false, 2, 5, "/a".into());
    assert_eq!(
        tracker.finish(),
        Err("Download stopped before all chapters completed (1/3).".to_string())
    );
}

#[test]
fn server_configuration_lists_trimmed_escaped_repos() {
    let repos = vec![
        "  https://a.example/index.json ".to_string(),
        "   ".to_string(),
        "https://b.example/\"q\"\\x".to_string(),
    ];
    let conf = server_conf_content(&repos);
    assert!(conf.starts_with("server {\n  ip = \"127.0.0.1\"\n"));
    assert!(conf.contains(
        "  extensionRepos = [\"https://a.example/index.json\", \"https://b.example/\\\"q\\\"\\\\x\"]\n}\n"
    ));
    assert!(conf.ends_with("suwayomi {\n  server {\n    kcefEnabled = true\n    downloadKcefAtStartup = true\n  }\n}\n"));
    assert!(server_conf_content(&vec![]).contains("extensionRepos = []"));
}
