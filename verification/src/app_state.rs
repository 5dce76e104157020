//! The frontend's state and its decisions: what a user action or a report
//! from background work changes, and which background work to start.
//! The window itself draws this state and carries out the work.
use vstd::prelude::*;
use crate::app_model::{
    audio_quality, audio_quality_spec, command_prefix_spec, deno_choice, entries_view, opt_string_view, parse_formats, format_entries, strings_view, tool_command_prefix,
    video_selector, video_selector_spec, DownloadMode, FormatEntry, MediaPreview, PreviewModel,
    QualityPreset, ToolPaths, WorkerEvent,
};
use crate::decimal::{decimal, push_decimal};
use crate::text::{lines, string_of, to_chars, trim, trim_range};

verus! {

broadcast use vstd::string::group_string_axioms;

pub struct AppState {
    pub url: String,
    pub mode: DownloadMode,
    pub quality: QualityPreset,
    pub formats: Vec<FormatEntry>,
    pub selected_format: usize,
    pub status: String,
    pub logs: String,
    pub default_downloads_dir: Option<String>,
    pub download_path: String,
    pub tool_paths: Option<ToolPaths>,
    pub loading_formats: bool,
    pub downloading: bool,
    pub log_auto_scroll: bool,
    pub preview_loading: bool,
    pub preview_requested_url: String,
    /// The preview shown; the thumbnail is drawn exactly when it has pixels.
    pub preview: Option<MediaPreview>,
}

/// The abstract content of an `AppState`.
#[verifier::ext_equal]
pub struct AppModel {
    pub url: Seq<char>,
    pub mode: DownloadMode,
    pub quality: QualityPreset,
    pub formats: Seq<(Seq<char>, Seq<char>)>,
    pub selected_format: nat,
    pub status: Seq<char>,
    pub logs: Seq<char>,
    pub default_downloads_dir: Option<Seq<char>>,
    pub download_path: Seq<char>,
    pub tool_paths: Option<(Seq<char>, Seq<char>)>,
    pub loading_formats: bool,
    pub downloading: bool,
    pub log_auto_scroll: bool,
    pub preview_loading: bool,
    pub preview_requested_url: Seq<char>,
    pub preview: Option<PreviewModel>,
}

pub open spec fn tool_paths_view(t: Option<ToolPaths>) -> Option<(Seq<char>, Seq<char>)> {
    match t {
        Some(p) => Some(p@),
        None => None,
    }
}

pub open spec fn preview_view(p: Option<MediaPreview>) -> Option<PreviewModel> {
    match p {
        Some(x) => Some(x@),
        None => None,
    }
}

impl View for AppState {
    type V = AppModel;

    open spec fn view(&self) -> AppModel {
        AppModel {
            url: self.url@,
            mode: self.mode,
            quality: self.quality,
            formats: entries_view(self.formats@),
            selected_format: self.selected_format as nat,
            status: self.status@,
            logs: self.logs@,
            default_downloads_dir: opt_string_view(self.default_downloads_dir),
            download_path: self.download_path@,
            tool_paths: tool_paths_view(self.tool_paths),
            loading_formats: self.loading_formats,
            downloading: self.downloading,
            log_auto_scroll: self.log_auto_scroll,
            preview_loading: self.preview_loading,
            preview_requested_url: self.preview_requested_url@,
            preview: preview_view(self.preview),
        }
    }
}

/// A preview to fetch in the background.
pub struct PreviewRequest {
    pub tool_paths: ToolPaths,
    pub url: String,
}

/// A format list to fetch in the background.
pub struct FormatsRequest {
    pub tool_paths: ToolPaths,
    pub url: String,
}

/// A download to run in the background: yt-dlp with the helper-tool
/// prefix followed by `args`.
pub struct DownloadRequest {
    pub tool_paths: ToolPaths,
    pub args: Vec<String>,
}

pub open spec fn msg_tools_missing() -> Seq<char> {
    "Error: lib/yt-dlp.exe was not found."@
}

pub open spec fn msg_no_downloads_dir() -> Seq<char> {
    "Error: Could not determine the Windows Downloads folder."@
}

pub open spec fn msg_yt_dlp_missing() -> Seq<char> {
    "yt-dlp.exe is missing in lib/."@
}

pub open spec fn msg_enter_url() -> Seq<char> {
    "Please enter a URL first."@
}

pub open spec fn msg_enter_target() -> Seq<char> {
    "Please enter a valid target folder."@
}

pub open spec fn msg_select_format() -> Seq<char> {
    "Please select a format first."@
}

pub open spec fn msg_loading_formats() -> Seq<char> {
    "Loading available formats..."@
}

pub open spec fn msg_download_running() -> Seq<char> {
    "Download in progress..."@
}

pub open spec fn msg_no_formats() -> Seq<char> {
    "No formats detected. Some sites expose only a few or unusual streams."@
}

pub open spec fn msg_download_finished() -> Seq<char> {
    "Download finished."@
}

pub open spec fn msg_download_failed() -> Seq<char> {
    "Download failed. See the log for details."@
}

pub open spec fn msg_loaded_formats(n: nat) -> Seq<char> {
    "Loaded "@ + decimal(n) + " formats."@
}

pub open spec fn msg_ready(lib_dir: Seq<char>, downloads: Seq<char>) -> Seq<char> {
    "Ready. Tools folder: "@ + lib_dir + " | Downloads folder: "@ + downloads
}

pub open spec fn initial_status(
    tool_paths: Option<(Seq<char>, Seq<char>)>,
    downloads: Option<Seq<char>>,
) -> Seq<char> {
    match (tool_paths, downloads) {
        (Some(p), Some(d)) => msg_ready(p.0, d),
        (None, _) => msg_tools_missing(),
        (_, None) => msg_no_downloads_dir(),
    }
}

/// The state when the window opens.
pub open spec fn initial_model(
    downloads: Option<Seq<char>>,
    tool_paths: Option<(Seq<char>, Seq<char>)>,
) -> AppModel {
    AppModel {
        url: seq![],
        mode: DownloadMode::Video,
        quality: QualityPreset::Best,
        formats: seq![],
        selected_format: 0,
        status: initial_status(tool_paths, downloads),
        logs: seq![],
        default_downloads_dir: downloads,
        download_path: match downloads {
            Some(d) => d,
            None => seq![],
        },
        tool_paths,
        loading_formats: false,
        downloading: false,
        log_auto_scroll: true,
        preview_loading: false,
        preview_requested_url: seq![],
        preview: None,
    }
}

/// The placeholder preview shown when a preview could not be loaded.
pub open spec fn unavailable_preview(url: Seq<char>, error: Seq<char>) -> PreviewModel {
    PreviewModel {
        title: "Preview unavailable"@,
        uploader: error,
        duration: None,
        webpage_url: url,
        thumbnail_url: None,
        thumbnail: None,
    }
}

/// The effect of a report from background work.
pub open spec fn event_effect(m: AppModel, e: WorkerEvent) -> AppModel {
    match e {
        WorkerEvent::LogChunk(c) => AppModel { logs: m.logs + c@, ..m },
        WorkerEvent::PreviewLoaded { url, preview, error } => {
            if url@ != trim(m.url) {
                m
            } else {
                let shown = match (preview, error) {
                    (Some(p), None) => Some(p@),
                    (_, Some(err)) => Some(unavailable_preview(url@, err@)),
                    _ => None,
                };
                AppModel { preview_loading: false, preview: shown, ..m }
            }
        },
        WorkerEvent::FormatsLoaded { entries } => {
            if entries@.len() == 0 {
                AppModel {
                    loading_formats: false,
                    status: msg_no_formats(),
                    formats: entries_view(entries@),
                    ..m
                }
            } else {
                AppModel {
                    loading_formats: false,
                    selected_format: 0,
                    status: msg_loaded_formats(entries@.len()),
                    formats: entries_view(entries@),
                    ..m
                }
            }
        },
        WorkerEvent::DownloadFinished { success, canceled } => AppModel {
            downloading: false,
            status: if success {
                msg_download_finished()
            } else {
                msg_download_failed()
            },
            ..m
        },
        WorkerEvent::ToolsReady { .. } => m,
        WorkerEvent::ToolDownloadProgress { .. } => m,
    }
}

/// The yt-dlp arguments of a download (before the helper-tool prefix).
pub open spec fn download_args_spec(
    lib_dir: Seq<char>,
    target: Seq<char>,
    mode: DownloadMode,
    quality: QualityPreset,
    format_id: Seq<char>,
    url: Seq<char>,
) -> Seq<Seq<char>> {
    let base = seq![
        "--ffmpeg-location"@,
        lib_dir,
        "--no-playlist"@,
        "-P"@,
        target,
        "-o"@,
        "%(title)s.%(ext)s"@,
    ];
    let choice = match mode {
        DownloadMode::Video => seq![
            "-f"@,
            video_selector_spec(quality),
            "--merge-output-format"@,
            "mp4"@,
        ],
        DownloadMode::AudioMp3 => seq![
            "-x"@,
            "--audio-format"@,
            "mp3"@,
            "--audio-quality"@,
            audio_quality_spec(quality),
            "--add-metadata"@,
            "--embed-thumbnail"@,
        ],
        DownloadMode::Manual => seq!["-f"@, format_id],
    };
    base + choice + seq![url]
}

/// The tools folder (when tools were found).
pub open spec fn lib_dir_of(m: AppModel) -> Seq<char> {
    match m.tool_paths {
        Some(p) => p.0,
        None => seq![],
    }
}

/// The id of the selected format (empty when there is none).
pub open spec fn selected_format_id(m: AppModel) -> Seq<char> {
    if m.selected_format < m.formats.len() {
        m.formats[m.selected_format as int].0
    } else {
        seq![]
    }
}

/// Commands can run when tools were found and the URL and the target
/// folder are not blank.
pub open spec fn can_run_commands_spec(m: AppModel) -> bool {
    m.tool_paths is Some && trim(m.url).len() > 0 && trim(m.download_path).len() > 0
}

/// A download can be offered when commands can run and, for a manual
/// download, a format list was loaded.
pub open spec fn can_start_download_spec(m: AppModel) -> bool {
    can_run_commands_spec(m) && (m.mode != DownloadMode::Manual || m.formats.len() > 0)
}

/// Whether a preview fetch starts: the trimmed URL is not blank, differs
/// from the last one requested, no fetch is running and tools were found.
pub open spec fn preview_fetch_starts(m: AppModel) -> bool {
    let url = trim(m.url);
    url.len() > 0 && !m.preview_loading && m.preview_requested_url != url && m.tool_paths is Some
}

/// The state after looking at whether to fetch a preview.
pub open spec fn preview_fetch_next(m: AppModel) -> AppModel {
    let url = trim(m.url);
    if url.len() == 0 {
        AppModel { preview_requested_url: seq![], preview_loading: false, preview: None, ..m }
    } else if preview_fetch_starts(m) {
        AppModel { preview_loading: true, preview_requested_url: url, preview: None, ..m }
    } else {
        m
    }
}

/// The status that refuses a download, if it is refused.
pub open spec fn download_refusal(m: AppModel) -> Option<Seq<char>> {
    if m.tool_paths is None {
        Some(msg_yt_dlp_missing())
    } else if trim(m.download_path).len() == 0 {
        Some(msg_enter_target())
    } else if trim(m.url).len() == 0 {
        Some(msg_enter_url())
    } else if m.mode == DownloadMode::Manual && m.selected_format >= m.formats.len() {
        Some(msg_select_format())
    } else {
        None
    }
}

/// The yt-dlp arguments of the download that the state asks for.
pub open spec fn download_args_of(m: AppModel) -> Seq<Seq<char>> {
    download_args_spec(
        lib_dir_of(m),
        trim(m.download_path),
        m.mode,
        m.quality,
        selected_format_id(m),
        trim(m.url),
    )
}

/// The state once a download has started.
pub open spec fn download_started(m: AppModel) -> AppModel {
    AppModel {
        downloading: true,
        status: msg_download_running(),
        logs: seq![],
        log_auto_scroll: true,
        ..m
    }
}

/// A new string holding the trimmed text of `s`.
pub fn trim_string(s: &String) -> (r: String)
    ensures
        r@ == trim(s@),
{
    let v = to_chars(s.as_str());
    let (a, b) = trim_range(&v, 0, v.len());
    assert(v@.subrange(0, v@.len() as int) =~= v@);
    string_of(&v, a, b)
}

impl AppState {
    /// The state when the window opens, given the downloads folder and the
    /// tools that were found.
    pub fn new(default_downloads_dir: Option<String>, tool_paths: Option<ToolPaths>) -> (r: Self)
        ensures
            r@ == initial_model(opt_string_view(default_downloads_dir), tool_paths_view(tool_paths)),
    {
        let download_path = match &default_downloads_dir {
            Some(d) => d.clone(),
            None => String::new(),
        };
        let status = match (&tool_paths, &default_downloads_dir) {
            (Some(paths), Some(downloads)) => {
                let mut s = "Ready. Tools folder: ".to_owned();
                s.append(paths.lib_dir.as_str());
                s.append(" | Downloads folder: ");
                s.append(downloads.as_str());
                s
            },
            (None, _) => "Error: lib/yt-dlp.exe was not found.".to_owned(),
            (_, None) => "Error: Could not determine the Windows Downloads folder.".to_owned(),
        };
        let r = AppState {
            url: String::new(),
            mode: DownloadMode::Video,
            quality: QualityPreset::Best,
            formats: Vec::new(),
            selected_format: 0,
            status,
            logs: String::new(),
            default_downloads_dir,
            download_path,
            tool_paths,
            loading_formats: false,
            downloading: false,
            log_auto_scroll: true,
            preview_loading: false,
            preview_requested_url: String::new(),
            preview: None,
        };
        proof {
            assert(entries_view(r.formats@) =~= Seq::<(Seq<char>, Seq<char>)>::empty());
            assert(r@ =~= initial_model(opt_string_view(r.default_downloads_dir), tool_paths_view(r.tool_paths)));
        }
        r
    }

    /// Puts the default downloads folder back as the target, if there is one.
    pub fn use_default_download_path(&mut self)
        ensures
            final(self)@ == match old(self)@.default_downloads_dir {
                Some(d) => AppModel { download_path: d, ..old(self)@ },
                None => old(self)@,
            },
    {
        match &self.default_downloads_dir {
            Some(d) => {
                self.download_path = d.clone();
            },
            None => {},
        }
    }

    /// The chosen target folder: the trimmed download path, if not blank.
    pub fn target_download_dir(&self) -> (r: Option<String>)
        ensures
            opt_string_view(r) == (if trim(self.download_path@).len() == 0 {
                None
            } else {
                Some(trim(self.download_path@))
            }),
    {
        let t = trim_string(&self.download_path);
        if t.as_str().is_empty() {
            None
        } else {
            Some(t)
        }
    }

    /// Whether background work is under way, so the window should redraw
    /// soon to show its progress.
    pub fn needs_repaint(&self) -> (r: bool)
        ensures
            r == (self.loading_formats || self.downloading || self.preview_loading),
    {
        self.loading_formats || self.downloading || self.preview_loading
    }

    pub fn can_run_commands(&self) -> (r: bool)
        ensures
            r == can_run_commands_spec(self@),
    {
        let url = trim_string(&self.url);
        self.tool_paths.is_some() && !url.as_str().is_empty() && self.target_download_dir().is_some()
    }

    pub fn can_start_download(&self) -> (r: bool)
        ensures
            r == can_start_download_spec(self@),
    {
        if !self.can_run_commands() {
            return false;
        }
        self.mode != DownloadMode::Manual || self.formats.len() > 0
    }

    /// Starts a preview fetch when the trimmed URL is new and none is
    /// running; clears the preview when the URL is blank.
    pub fn maybe_start_preview_fetch(&mut self) -> (r: Option<PreviewRequest>)
        ensures
            final(self)@ == preview_fetch_next(old(self)@),
            r is Some <==> preview_fetch_starts(old(self)@),
            r matches Some(req) ==> req.url@ == trim(old(self)@.url) && Some(req.tool_paths@)
                == old(self)@.tool_paths,
    {
        let url = trim_string(&self.url);
        if url.as_str().is_empty() {
            self.preview_requested_url = String::new();
            self.preview_loading = false;
            self.preview = None;
            return None;
        }
        if self.preview_loading || self.preview_requested_url == url {
            return None;
        }
        let tool_paths = match &self.tool_paths {
            Some(t) => t.duplicate(),
            None => {
                return None;
            },
        };
        self.preview_loading = true;
        self.preview_requested_url = url.clone();
        self.preview = None;
        Some(PreviewRequest { tool_paths, url })
    }

    /// Applies a report from background work; tells whether the preview
    /// (and so the thumbnail to draw) may have changed.
    pub fn handle_worker_event(&mut self, event: WorkerEvent) -> (preview_changed: bool)
        ensures
            final(self)@ == event_effect(old(self)@, event),
            !preview_changed ==> final(self)@.preview == old(self)@.preview,
    {
        match event {
            WorkerEvent::LogChunk(chunk) => {
                self.logs.append(chunk.as_str());
                false
            },
            WorkerEvent::PreviewLoaded { url, preview, error } => {
                let current = trim_string(&self.url);
                if url != current {
                    return false;
                }
                self.preview_loading = false;
                match (preview, error) {
                    (Some(p), None) => {
                        self.preview = Some(p);
                    },
                    (_, Some(err)) => {
                        self.preview = Some(
                            MediaPreview {
                                title: "Preview unavailable".to_owned(),
                                uploader: err,
                                duration: None,
                                webpage_url: url,
                                thumbnail_url: None,
                                thumbnail_rgba: None,
                            },
                        );
                    },
                    _ => {
                        self.preview = None;
                    },
                }
                true
            },
            WorkerEvent::FormatsLoaded { entries } => {
                self.loading_formats = false;
                if entries.len() == 0 {
                    self.status = "No formats detected. Some sites expose only a few or unusual streams.".to_owned();
                } else {
                    self.selected_format = 0;
                    let mut s = "Loaded ".to_owned();
                    push_decimal(&mut s, entries.len() as u64);
                    s.append(" formats.");
                    self.status = s;
                }
                self.formats = entries;
                false
            },
            WorkerEvent::DownloadFinished { success, canceled } => {
                self.downloading = false;
                self.status = if success {
                    "Download finished.".to_owned()
                } else {
                    "Download failed. See the log for details.".to_owned()
                };
                false
            },
            WorkerEvent::ToolsReady { .. } => false,
            WorkerEvent::ToolDownloadProgress { .. } => false,
        }
    }

    /// Starts fetching the format list of the trimmed URL.
    pub fn load_formats(&mut self) -> (r: Option<FormatsRequest>)
        ensures
            ({
                let m = old(self)@;
                let url = trim(m.url);
                if m.tool_paths is None {
                    r is None && final(self)@ == AppModel { status: msg_yt_dlp_missing(), ..m }
                } else if url.len() == 0 {
                    r is None && final(self)@ == AppModel { status: msg_enter_url(), ..m }
                } else {
                    r matches Some(req) && req.url@ == url && Some(req.tool_paths@) == m.tool_paths
                        && final(self)@ == AppModel {
                        loading_formats: true,
                        status: msg_loading_formats(),
                        logs: seq![],
                        log_auto_scroll: true,
                        ..m
                    }
                }
            }),
    {
        let tool_paths = match &self.tool_paths {
            Some(t) => t.duplicate(),
            None => {
                self.status = "yt-dlp.exe is missing in lib/.".to_owned();
                return None;
            },
        };
        let url = trim_string(&self.url);
        if url.as_str().is_empty() {
            self.status = "Please enter a URL first.".to_owned();
            return None;
        }
        self.loading_formats = true;
        self.status = "Loading available formats...".to_owned();
        self.logs = String::new();
        self.log_auto_scroll = true;
        Some(FormatsRequest { tool_paths, url })
    }

    /// Starts a download of the trimmed URL into the target folder, with
    /// the arguments that the mode and quality (or the selected format) call for.
    pub fn start_download(&mut self) -> (r: Option<DownloadRequest>)
        ensures
            match download_refusal(old(self)@) {
                Some(msg) => r is None && final(self)@ == AppModel { status: msg, ..old(self)@ },
                None => r matches Some(req) && Some(req.tool_paths@) == old(self)@.tool_paths
                    && strings_view(req.args@) == download_args_of(old(self)@)
                    && final(self)@ == download_started(old(self)@),
            },
    {
        let tool_paths = match &self.tool_paths {
            Some(t) => t.duplicate(),
            None => {
                self.status = "yt-dlp.exe is missing in lib/.".to_owned();
                return None;
            },
        };
        let downloads_dir = match self.target_download_dir() {
            Some(d) => d,
            None => {
                self.status = "Please enter a valid target folder.".to_owned();
                return None;
            },
        };
        let url = trim_string(&self.url);
        if url.as_str().is_empty() {
            self.status = "Please enter a URL first.".to_owned();
            return None;
        }
        let mut args: Vec<String> = Vec::new();
        args.push("--ffmpeg-location".to_owned());
        args.push(tool_paths.lib_dir.clone());
        args.push("--no-playlist".to_owned());
        args.push("-P".to_owned());
        args.push(downloads_dir);
        args.push("-o".to_owned());
        args.push("%(title)s.%(ext)s".to_owned());
        match self.mode {
            DownloadMode::Video => {
                args.push("-f".to_owned());
                args.push(video_selector(&self.quality).to_owned());
                args.push("--merge-output-format".to_owned());
                args.push("mp4".to_owned());
            },
            DownloadMode::AudioMp3 => {
                args.push("-x".to_owned());
                args.push("--audio-format".to_owned());
                args.push("mp3".to_owned());
                args.push("--audio-quality".to_owned());
                args.push(audio_quality(&self.quality).to_owned());
                args.push("--add-metadata".to_owned());
                args.push("--embed-thumbnail".to_owned());
            },
            DownloadMode::Manual => {
                if self.selected_format >= self.formats.len() {
                    self.status = "Please select a format first.".to_owned();
                    return None;
                }
                args.push("-f".to_owned());
                args.push(self.formats[self.selected_format].id.clone());
            },
        }
        args.push(url);
        proof {
            assert(strings_view(args@) =~= download_args_of(old(self)@));
        }
        self.downloading = true;
        self.status = "Download in progress...".to_owned();
        self.logs = String::new();
        self.log_auto_scroll = true;
        Some(DownloadRequest { tool_paths, args })
    }
}

// ---------------------------------------------------------------------------
// Background work
/// The full yt-dlp argument list: the helper-tool prefix, then `args`.
pub fn command_args(lib_dir: &str, args: Vec<String>) -> (r: Vec<String>)
    ensures
        exists|f0: bool, f1: bool, f2: bool|
            strings_view(r@) == command_prefix_spec(
                lib_dir@,
                #[trigger] deno_choice(lib_dir@, f0, f1, f2),
            ) + strings_view(args@),
{
    let mut all = tool_command_prefix(lib_dir);
    let ghost prefix = all@;
    let mut rest = args;
    let ghost rest0 = rest@;
    all.append(&mut rest);
    assert(strings_view(all@) =~= strings_view(prefix) + strings_view(rest0));
    all
}

/// The arguments that list the formats of `url`.
pub fn formats_args(url: &str) -> (r: Vec<String>)
    ensures
        strings_view(r@) == seq!["-F"@, url@],
{
    let mut v: Vec<String> = Vec::new();
    v.push("-F".to_owned());
    v.push(url.to_owned());
    assert(strings_view(v@) =~= seq!["-F"@, url@]);
    v
}

/// The arguments that ask yt-dlp for the JSON description of `url`.
pub fn preview_args(url: &str) -> (r: Vec<String>)
    ensures
        strings_view(r@) == seq!["--dump-single-json"@, "--skip-download"@, "--no-playlist"@, url@],
{
    let mut v: Vec<String> = Vec::new();
    v.push("--dump-single-json".to_owned());
    v.push("--skip-download".to_owned());
    v.push("--no-playlist".to_owned());
    v.push(url.to_owned());
    assert(strings_view(v@) =~= seq!["--dump-single-json"@, "--skip-download"@, "--no-playlist"@, url@]);
    v
}

pub open spec fn start_failure_log(error: Seq<char>) -> Seq<char> {
    "Failed to start yt-dlp: "@ + error + seq!['\n']
}

fn failure_log(error: &str) -> (r: String)
    ensures
        r@ == start_failure_log(error@),
{
    let mut s = "Failed to start yt-dlp: ".to_owned();
    s.append(error);
    crate::text::push_char(&mut s, '\n');
    assert(s@ =~= start_failure_log(error@));
    s
}

/// What a finished format-list run reports: a log line when yt-dlp could
/// not be started, then the formats read from its output (none on failure).
pub fn formats_outcome(result: Result<(bool, String), String>) -> (r: (Option<String>, WorkerEvent))
    ensures
        match result {
            Ok((_, output)) => r.0 is None && (r.1 matches WorkerEvent::FormatsLoaded { entries }
                && entries_view(entries@) == format_entries(lines(output@))),
            Err(e) => opt_string_view(r.0) == Some(start_failure_log(e@)) && (r.1 matches
                WorkerEvent::FormatsLoaded { entries } && entries@.len() == 0),
        },
{
    match result {
        Ok((_success, output)) => (None, WorkerEvent::FormatsLoaded { entries: parse_formats(output.as_str()) }),
        Err(e) => (Some(failure_log(e.as_str())), WorkerEvent::FormatsLoaded { entries: Vec::new() }),
    }
}

/// What a finished download run reports: a log line when yt-dlp could not
/// be started, then whether it succeeded.
pub fn download_outcome(result: Result<(bool, String), String>) -> (r: (Option<String>, WorkerEvent))
    ensures
        match result {
            Ok((success, _)) => r.0 is None && r.1 == (WorkerEvent::DownloadFinished {
                success,
                canceled: false,
            }),
            Err(e) => opt_string_view(r.0) == Some(start_failure_log(e@)) && r.1 == (
            WorkerEvent::DownloadFinished { success: false, canceled: false }),
        },
{
    match result {
        Ok((success, _output)) => (None, WorkerEvent::DownloadFinished { success, canceled: false }),
        Err(e) => (Some(failure_log(e.as_str())), WorkerEvent::DownloadFinished { success: false, canceled: false }),
    }
}

/// What a finished preview fetch reports.
pub fn preview_outcome(url: String, result: Result<MediaPreview, String>) -> (r: WorkerEvent)
    ensures
        r matches WorkerEvent::PreviewLoaded { url: u, preview, error } && u == url && match result {
            Ok(p) => preview == Some(p) && error is None,
            Err(e) => preview is None && error == Some(e),
        },
{
    match result {
        Ok(preview) => WorkerEvent::PreviewLoaded { url, preview: Some(preview), error: None },
        Err(error) => WorkerEvent::PreviewLoaded { url, preview: None, error: Some(error) },
    }
}


// ---------------------------------------------------------------------------
// Laws
/// A download that the window offers (the start button is enabled) is
/// started, provided the selected format indexes the loaded list.
pub proof fn law_offered_download_starts(m: AppModel)
    requires
        can_start_download_spec(m),
        m.mode == DownloadMode::Manual ==> m.selected_format < m.formats.len(),
    ensures
        download_refusal(m) is None,
{
}

/// Once a preview fetch has started, looking again starts no second one
/// and changes nothing until its result arrives.
pub proof fn law_preview_fetch_once(m: AppModel)
    requires
        preview_fetch_starts(m),
    ensures
        !preview_fetch_starts(preview_fetch_next(m)),
        preview_fetch_next(preview_fetch_next(m)) == preview_fetch_next(m),
{
}

/// A preview for a URL other than the current (trimmed) one is ignored.
pub proof fn law_stale_preview_ignored(
    m: AppModel,
    url: String,
    preview: Option<MediaPreview>,
    error: Option<String>,
)
    requires
        url@ != trim(m.url),
    ensures
        event_effect(m, WorkerEvent::PreviewLoaded { url, preview, error }) == m,
{
}

/// A non-empty format list selects its first entry, which a manual
/// download can then use.
pub proof fn law_loaded_formats_enable_manual_download(m: AppModel, entries: Vec<FormatEntry>)
    requires
        can_run_commands_spec(m),
        entries@.len() > 0,
    ensures
        ({
            let n = event_effect(m, WorkerEvent::FormatsLoaded { entries });
            &&& n.selected_format == 0
            &&& can_start_download_spec(n)
            &&& download_refusal(n) is None
            &&& selected_format_id(n) == entries@[0].id@
        }),
{
}

/// Log chunks are appended in the order they arrive.
pub proof fn law_logs_append(m: AppModel, a: String, b: String)
    ensures
        event_effect(event_effect(m, WorkerEvent::LogChunk(a)), WorkerEvent::LogChunk(b)).logs
            == m.logs + a@ + b@,
{
}

/// A started download is over once its result arrives, whatever it is.
pub proof fn law_download_finishes(m: AppModel, success: bool, canceled: bool)
    ensures
        !event_effect(download_started(m), WorkerEvent::DownloadFinished { success, canceled }).downloading,
{
}

} // verus!
