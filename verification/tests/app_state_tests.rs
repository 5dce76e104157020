use rusttube::app_model::{
    DownloadMode, FormatEntry, MediaPreview, QualityPreset, ToolPaths, WorkerEvent,
};
use rusttube::app_state::{
    command_args, download_outcome, formats_args, formats_outcome, preview_outcome, AppState,
};

fn tools() -> ToolPaths {
    ToolPaths { lib_dir: "C:\\t".to_string(), yt_dlp_path: "C:\\t\\yt-dlp.exe".to_string() }
}

fn ready_state() -> AppState {
    let mut s = AppState::new(Some("D:\\Down".to_string()), Some(tools()));
    s.url = "  https://x/v  ".to_string();
    s
}

fn preview(title: &str) -> MediaPreview {
    MediaPreview {
        title: title.to_string(),
        uploader: "u".to_string(),
        duration: None,
        webpage_url: "w".to_string(),
        thumbnail_url: None,
        thumbnail_rgba: None,
    }
}

#[test]
fn initial_status_messages() {
    let s = AppState::new(Some("D:\\Down".to_string()), Some(tools()));
    assert_eq!(s.status, "Ready. Tools folder: C:\\t | Downloads folder: D:\\Down");
    assert_eq!(s.download_path, "D:\\Down");
    assert_eq!(s.mode, DownloadMode::Video);
    assert_eq!(s.quality, QualityPreset::Best);
    assert!(s.log_auto_scroll);
    let s = AppState::new(Some("D:\\Down".to_string()), None);
    assert_eq!(s.status, "Error: lib/yt-dlp.exe was not found.");
    let s = AppState::new(None, None);
    assert_eq!(s.status, "Error: lib/yt-dlp.exe was not found.");
    assert_eq!(s.download_path, "");
    let s = AppState::new(None, Some(tools()));
    assert_eq!(s.status, "Error: Could not determine the Windows Downloads folder.");
}

#[test]
fn command_availability() {
    let mut s = ready_state();
    assert!(s.can_run_commands());
    assert!(s.can_start_download());
    assert_eq!(s.target_download_dir().as_deref(), Some("D:\\Down"));
    s.mode = DownloadMode::Manual;
    assert!(!s.can_start_download());
    s.download_path = "   ".to_string();
    assert!(!s.can_run_commands());
    assert_eq!(s.target_download_dir(), None);
}

#[test]
fn preview_fetch_flow() {
    let mut s = ready_state();
    let req = s.maybe_start_preview_fetch().unwrap();
    assert_eq!(req.url, "https://x/v");
    assert_eq!(req.tool_paths.lib_dir, "C:\\t");
    assert!(s.preview_loading);
    assert!(s.maybe_start_preview_fetch().is_none());
    // A result for another URL is ignored.
    let changed = s.handle_worker_event(preview_outcome("https://other".to_string(), Ok(preview("x"))));
    assert!(!changed);
    assert!(s.preview_loading);
    let changed = s.handle_worker_event(preview_outcome("https://x/v".to_string(), Ok(preview("Title"))));
    assert!(changed);
    assert!(!s.preview_loading);
    assert_eq!(s.preview.as_ref().unwrap().title, "Title");
    // Same URL again: no new fetch.
    assert!(s.maybe_start_preview_fetch().is_none());
    // Errors show a placeholder.
    s.url = "https://y".to_string();
    assert!(s.maybe_start_preview_fetch().is_some());
    s.handle_worker_event(preview_outcome("https://y".to_string(), Err("boom".to_string())));
    let p = s.preview.as_ref().unwrap();
    assert_eq!(p.title, "Preview unavailable");
    assert_eq!(p.uploader, "boom");
    assert_eq!(p.webpage_url, "https://y");
    // Blank URL clears.
    s.url = "   ".to_string();
    assert!(s.maybe_start_preview_fetch().is_none());
    assert!(s.preview.is_none());
    assert_eq!(s.preview_requested_url, "");
}

#[test]
fn no_preview_without_tools() {
    let mut s = AppState::new(None, None);
    s.url = "https://x".to_string();
    assert!(s.maybe_start_preview_fetch().is_none());
    assert!(!s.preview_loading);
}

#[test]
fn preview_event_without_preview_or_error_clears() {
    let mut s = ready_state();
    s.preview = Some(preview("old"));
    let changed = s.handle_worker_event(WorkerEvent::PreviewLoaded {
        url: "https://x/v".to_string(),
        preview: None,
        error: None,
    });
    assert!(changed);
    assert!(s.preview.is_none());
}

#[test]
fn format_loading_flow() {
    let mut s = ready_state();
    s.logs = "old".to_string();
    let req = s.load_formats().unwrap();
    assert_eq!(req.url, "https://x/v");
    assert!(s.loading_formats);
    assert_eq!(s.status, "Loading available formats...");
    assert_eq!(s.logs, "");
    let (log, ev) = formats_outcome(Ok((true, "18 mp4 640x360\n22 mp4 1280x720\n".to_string())));
    assert!(log.is_none());
    s.selected_format = 5;
    s.handle_worker_event(ev);
    assert!(!s.loading_formats);
    assert_eq!(s.status, "Loaded 2 formats.");
    assert_eq!(s.selected_format, 0);
    assert_eq!(s.formats.len(), 2);
    let (log, ev) = formats_outcome(Err("not found".to_string()));
    assert_eq!(log.as_deref(), Some("Failed to start yt-dlp: not found\n"));
    s.handle_worker_event(ev);
    assert_eq!(s.status, "No formats detected. Some sites expose only a few or unusual streams.");
    assert!(s.formats.is_empty());
}

#[test]
fn load_formats_refusals() {
    let mut s = AppState::new(None, None);
    assert!(s.load_formats().is_none());
    assert_eq!(s.status, "yt-dlp.exe is missing in lib/.");
    let mut s = AppState::new(None, Some(tools()));
    assert!(s.load_formats().is_none());
    assert_eq!(s.status, "Please enter a URL first.");
}

#[test]
fn download_arguments_per_mode() {
    let mut s = ready_state();
    s.quality = QualityPreset::P720;
    let req = s.start_download().unwrap();
    assert_eq!(
        req.args,
        vec![
            "--ffmpeg-location", "C:\\t", "--no-playlist", "-P", "D:\\Down", "-o", "%(title)s.%(ext)s",
            "-f",
            "bestvideo[height<=720][ext=mp4]+bestaudio[ext=m4a]/best[height<=720][ext=mp4]/bestvideo[height<=720]+bestaudio/best[height<=720]",
            "--merge-output-format", "mp4", "https://x/v",
        ]
    );
    assert!(s.downloading);
    assert_eq!(s.status, "Download in progress...");

    let mut s = ready_state();
    s.mode = DownloadMode::AudioMp3;
    s.quality = QualityPreset::Worst;
    let req = s.start_download().unwrap();
    assert_eq!(
        req.args[7..].to_vec(),
        vec!["-x", "--audio-format", "mp3", "--audio-quality", "9", "--add-metadata", "--embed-thumbnail", "https://x/v"]
    );

    let mut s = ready_state();
    s.mode = DownloadMode::Manual;
    assert!(s.start_download().is_none());
    assert_eq!(s.status, "Please select a format first.");
    assert!(!s.downloading);
    s.formats = vec![
        FormatEntry { id: "18".to_string(), description: "18 mp4".to_string() },
        FormatEntry { id: "22".to_string(), description: "22 mp4".to_string() },
    ];
    s.selected_format = 1;
    let req = s.start_download().unwrap();
    assert_eq!(req.args[7..].to_vec(), vec!["-f", "22", "https://x/v"]);
}

#[test]
fn download_refusals_and_finish() {
    let mut s = AppState::new(None, None);
    assert!(s.start_download().is_none());
    assert_eq!(s.status, "yt-dlp.exe is missing in lib/.");
    let mut s = AppState::new(None, Some(tools()));
    s.url = "https://x".to_string();
    assert!(s.start_download().is_none());
    assert_eq!(s.status, "Please enter a valid target folder.");
    let mut s = AppState::new(Some("D:\\Down".to_string()), Some(tools()));
    assert!(s.start_download().is_none());
    assert_eq!(s.status, "Please enter a URL first.");

    let mut s = ready_state();
    s.start_download().unwrap();
    let (log, ev) = download_outcome(Ok((true, String::new())));
    assert!(log.is_none());
    s.handle_worker_event(ev);
    assert!(!s.downloading);
    assert_eq!(s.status, "Download finished.");
    let (log, ev) = download_outcome(Err("denied".to_string()));
    assert_eq!(log.as_deref(), Some("Failed to start yt-dlp: denied\n"));
    s.handle_worker_event(ev);
    assert_eq!(s.status, "Download failed. See the log for details.");
}

#[test]
fn logs_and_other_events() {
    let mut s = ready_state();
    s.handle_worker_event(WorkerEvent::LogChunk("a".to_string()));
    s.handle_worker_event(WorkerEvent::LogChunk("b\n".to_string()));
    assert_eq!(s.logs, "ab\n");
    let before = s.status.clone();
    s.handle_worker_event(WorkerEvent::ToolsReady { result: Err("x".to_string()) });
    assert_eq!(s.status, before);
}

#[test]
fn worker_arguments() {
    assert_eq!(formats_args("https://x"), vec!["-F".to_string(), "https://x".to_string()]);
    let all = command_args("/nonexistent/tools", vec!["-F".to_string(), "u".to_string()]);
    assert_eq!(all, vec!["--ffmpeg-location", "/nonexistent/tools", "-F", "u"]);
}

#[test]
fn repaint_while_work_runs() {
    let mut s = AppState::new(Some("C:\\Downloads".to_string()), None);
    assert!(!s.needs_repaint());
    s.downloading = true;
    assert!(s.needs_repaint());
    s.downloading = false;
    s.preview_loading = true;
    assert!(s.needs_repaint());
}

#[test]
fn preview_arguments() {
    assert_eq!(
        rusttube::app_state::preview_args("https://youtu.be/x"),
        vec!["--dump-single-json", "--skip-download", "--no-playlist", "https://youtu.be/x"]
    );
}
