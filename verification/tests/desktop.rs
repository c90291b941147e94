use std::collections::HashSet;
use thasia::discovery::RuntimeState;
use thasia::ui::{
    chapters_to_download, client_not_ready, convert_step_index, download_destination,
    download_started_message, search_query, desktop_conf_content, review_blocker, runtime_label,
    sanitize_file_name, volume_failure_message, ConvertStep, Page,
};
use thasia::ui::{apply_conversion_event, ConversionProgress, ProgressEvent};

#[test]
fn page_labels_and_steps() {
    assert_eq!(Page::default(), Page::Home);
    assert_eq!(Page::Home.label(), "Home");
    assert_eq!(Page::Convert.label(), "Convert");
    assert_eq!(Page::Discover.label(), "Discover");
    assert_eq!(Page::Settings.label(), "Settings");
    assert_eq!(convert_step_index(ConvertStep::Source), 0);
    assert_eq!(convert_step_index(ConvertStep::Review), 4);
    assert_eq!(convert_step_index(ConvertStep::Converting), 5);
    assert_eq!(convert_step_index(ConvertStep::Complete), 5);
}

#[test]
fn runtime_labels() {
    assert_eq!(runtime_label(&RuntimeState::NotInstalled), "Setup needed");
    assert_eq!(runtime_label(&RuntimeState::NotRunning), "Stopped");
    assert_eq!(runtime_label(&RuntimeState::Starting), "Starting");
    assert_eq!(runtime_label(&RuntimeState::Ready { port: 4567 }), "Ready:4567");
    assert_eq!(runtime_label(&RuntimeState::Error { message: "x".into() }), "Error: x");
}

#[test]
fn wizard_messages() {
    assert_eq!(review_blocker(""), Some("Select an output directory first.".to_string()));
    assert_eq!(review_blocker("/out"), None);
    assert_eq!(volume_failure_message(3, None), "Volume 3 failed");
    assert_eq!(volume_failure_message(3, Some("disk full".into())), "disk full");
    assert_eq!(client_not_ready(), "Suwayomi is not ready.");
}

#[test]
fn desktop_sanitize_keeps_leading_dots() {
    assert_eq!(sanitize_file_name("  My: Title. . "), "My_ Title");
    assert_eq!(sanitize_file_name(".hidden"), ".hidden");
    assert_eq!(sanitize_file_name("a\tb"), "a\tb");
    assert_eq!(sanitize_file_name("..."), "download");
}

#[test]
fn desktop_configuration() {
    let conf = desktop_conf_content(&vec!["a\"b".to_string(), " c ".to_string()]);
    assert_eq!(
        conf,
        "server {\n  ip = \"127.0.0.1\"\n  webUIEnabled = false\n  systemTrayEnabled = false\n  extensionRepos = [\"a\\\"b\", \" c \"]\n}\n"
    );
}

#[test]
fn desktop_download_destination() {
    assert_eq!(download_destination(&None, "/data", "A/B."), "/data/manga-downloads/A_B");
    assert_eq!(download_destination(&Some("/dl/".into()), "/data", "  "), "/dl/download");
}

#[test]
fn search_and_chapter_selection() {
    assert_eq!(search_query("  one piece \n"), Some("one piece".to_string()));
    assert_eq!(search_query(" \t "), None);
    assert_eq!(chapters_to_download(&vec![10, 11, 12, 13], &HashSet::from([13, 11])), vec![1, 3]);
    assert!(chapters_to_download(&vec![1, 2], &HashSet::new()).is_empty());
    assert_eq!(download_started_message(2), "Downloading 2 chapters...");
}

#[test]
fn conversion_events_update_the_progress_screen() {
    let mut progress = ConversionProgress::new();
    let mut error: Option<String> = None;
    apply_conversion_event(
        &mut progress,
        &mut error,
        ProgressEvent::ImageProgress {
            volume_num: 1,
            current: 3,
            total: 9,
            input_bytes: 100,
            output_bytes: 40,
            passthrough_pages: 1,
            encoded_pages: 2,
        },
    );
    assert_eq!((progress.current, progress.total, progress.input_bytes, progress.encoded_pages), (3, 9, 100, 2));
    apply_conversion_event(
        &mut progress,
        &mut error,
        ProgressEvent::VolumeStarted { volume_num: 2, volume_name: "Vol 2".into(), total_volumes: 4 },
    );
    assert_eq!((progress.volume_num, progress.total_volumes, progress.current, progress.total), (2, 4, 0, 0));
    assert_eq!(progress.volume_name, "Vol 2");
    assert_eq!(progress.input_bytes, 100);
    apply_conversion_event(
        &mut progress,
        &mut error,
        ProgressEvent::VolumeCompleted { volume_num: 2, success: true, error: None, output_path: Some("/out/2.cbz".into()) },
    );
    assert_eq!(progress.completed_outputs, vec!["/out/2.cbz".to_string()]);
    assert_eq!(error, None);
    apply_conversion_event(
        &mut progress,
        &mut error,
        ProgressEvent::VolumeCompleted { volume_num: 3, success: false, error: None, output_path: None },
    );
    assert_eq!(error.as_deref(), Some("Volume 3 failed"));
    apply_conversion_event(
        &mut progress,
        &mut error,
        ProgressEvent::VolumeCompleted { volume_num: 4, success: false, error: Some("disk full".into()), output_path: Some("/out/4.cbz".into()) },
    );
    assert_eq!(error.as_deref(), Some("disk full"));
    assert_eq!(progress.completed_outputs.len(), 2);
}
