use rusttube::app_model::{
    audio_quality, command_prefix_with, deno_given, find_deno_in_lib, join_path_str, parse_formats,
    tool_command_prefix, video_selector, DownloadMode, QualityPreset, RuntimeTool, ToolPaths,
};

const FORMAT_LIST: &str = "[youtube] Extracting URL: https://www.youtube.com/watch?v=abc\n\
[info] Available formats for abc:\n\
ID      EXT   RESOLUTION FPS CH |   FILESIZE   TBR PROTO | VCODEC\n\
---------------------------------------------------------------------\n\
sb2     mhtml 48x27        0    |                  mhtml | images\n\
139     m4a   audio only      2 |    1.01MiB   49k https | audio only\n\
  18    mp4   640x360     30  2 |    6.13MiB  297k https | avc1.42001E\r\n\
hls-720p mp4  1280x720 | m3u8\n\
weird_id mp4 whatever\n\
\n\
137+140 mp4 merged\n";

#[test]
fn format_list_is_read() {
    let entries = parse_formats(FORMAT_LIST);
    let ids: Vec<&str> = entries.iter().map(|e| e.id.as_str()).collect();
    assert_eq!(ids, vec!["sb2", "139", "18", "hls-720p"]);
    assert_eq!(entries[2].description, "18    mp4   640x360     30  2 |    6.13MiB  297k https | avc1.42001E");
    assert_eq!(entries[0].description, "sb2     mhtml 48x27        0    |                  mhtml | images");
}

#[test]
fn format_list_edge_cases() {
    assert!(parse_formats("").is_empty());
    assert!(parse_formats("\n\n   \n").is_empty());
    assert!(parse_formats("IDX 1").is_empty());
    assert!(parse_formats("-f best").is_empty());
    let one = parse_formats("a.b-c");
    assert_eq!(one.len(), 1);
    assert_eq!(one[0].id, "a.b-c");
    assert_eq!(one[0].description, "a.b-c");
    assert!(parse_formats("\u{e9}t\u{e9} mp4").is_empty());
}

#[test]
fn labels() {
    assert_eq!(DownloadMode::Video.label(), "Video");
    assert_eq!(DownloadMode::AudioMp3.label(), "Audio (MP3)");
    assert_eq!(DownloadMode::Manual.label(), "Manual yt-dlp format");
    assert_eq!(QualityPreset::Best.label(), "Best available quality");
    assert_eq!(QualityPreset::P1080.label(), "Up to 1080p");
    assert_eq!(QualityPreset::P720.label(), "Up to 720p");
    assert_eq!(QualityPreset::P480.label(), "Up to 480p");
    assert_eq!(QualityPreset::Worst.label(), "Lowest quality");
}

#[test]
fn selectors() {
    assert_eq!(
        video_selector(&QualityPreset::Best),
        "bestvideo[ext=mp4]+bestaudio[ext=m4a]/best[ext=mp4]/bestvideo+bestaudio/best"
    );
    assert_eq!(
        video_selector(&QualityPreset::P720),
        "bestvideo[height<=720][ext=mp4]+bestaudio[ext=m4a]/best[height<=720][ext=mp4]/bestvideo[height<=720]+bestaudio/best[height<=720]"
    );
    assert_eq!(video_selector(&QualityPreset::Worst), "worst[ext=mp4]/worstvideo+worstaudio/worst");
    let qs = [
        (QualityPreset::Best, "0"),
        (QualityPreset::P1080, "2"),
        (QualityPreset::P720, "4"),
        (QualityPreset::P480, "6"),
        (QualityPreset::Worst, "9"),
    ];
    for (q, v) in qs {
        assert_eq!(audio_quality(&q), v);
    }
}

#[test]
fn path_joining() {
    assert_eq!(join_path_str("C:\\tools", "deno.exe"), "C:\\tools\\deno.exe");
    assert_eq!(join_path_str("C:\\tools\\", "deno.exe"), "C:\\tools\\deno.exe");
    assert_eq!(join_path_str("lib/", "bin"), "lib/bin");
    assert_eq!(join_path_str("", "deno.exe"), "deno.exe");
    assert_eq!(join_path_str("C:", "lib"), "C:lib");
    assert_eq!(join_path_str("d:", "lib"), "d:lib");
    assert_eq!(join_path_str("1:", "lib"), "1:\\lib");
    assert_eq!(join_path_str("C:x", "lib"), "C:x\\lib");
}

#[test]
fn command_prefix() {
    let p = command_prefix_with("C:\\tools", None);
    assert_eq!(p, vec!["--ffmpeg-location".to_string(), "C:\\tools".to_string()]);
    let p = command_prefix_with("C:\\tools", Some("C:\\tools\\deno.exe".to_string()));
    assert_eq!(
        p,
        vec![
            "--ffmpeg-location".to_string(),
            "C:\\tools".to_string(),
            "--js-runtimes".to_string(),
            "deno:C:\\tools\\deno.exe".to_string(),
        ]
    );
}

#[test]
fn missing_deno_is_not_offered() {
    let dir = "/nonexistent/rusttube-test-dir";
    assert_eq!(find_deno_in_lib(dir), None);
    assert_eq!(
        tool_command_prefix(dir),
        vec!["--ffmpeg-location".to_string(), dir.to_string()]
    );
}

#[test]
fn tool_file_names_and_copies() {
    assert_eq!(RuntimeTool::YtDlp.file_name(), "yt-dlp.exe");
    assert_eq!(RuntimeTool::Ffmpeg.file_name(), "ffmpeg.exe");
    assert_eq!(RuntimeTool::Ffprobe.file_name(), "ffprobe.exe");
    assert_eq!(RuntimeTool::Deno.file_name(), "deno.exe");
    let t = ToolPaths { lib_dir: "a".to_string(), yt_dlp_path: "a\\yt-dlp.exe".to_string() };
    let c = t.duplicate();
    assert_eq!(c.lib_dir, "a");
    assert_eq!(c.yt_dlp_path, "a\\yt-dlp.exe");
}

#[test]
fn deno_choice_takes_first_present_candidate() {
    assert_eq!(deno_given("C:\\t", false, false, false), None);
    assert_eq!(deno_given("C:\\t", true, true, true).as_deref(), Some("C:\\t\\deno.exe"));
    assert_eq!(deno_given("C:\\t", false, true, true).as_deref(), Some("C:\\t\\bin\\deno.exe"));
    assert_eq!(
        deno_given("C:\\t", false, false, true).as_deref(),
        Some("C:\\t\\deno\\bin\\deno.exe")
    );
}

#[test]
fn format_listing_read_in_parts() {
    let a = "139     m4a   audio only\r";
    let b = "18    mp4   640x360\nID EXT\n";
    let joined = parse_formats(&format!("{a}\n{b}"));
    let mut parts = parse_formats(a);
    parts.extend(parse_formats(b));
    let ids = |v: &Vec<rusttube::app_model::FormatEntry>| -> Vec<(String, String)> {
        v.iter().map(|e| (e.id.clone(), e.description.clone())).collect()
    };
    assert_eq!(ids(&joined), ids(&parts));
    assert_eq!(joined.len(), 2);
}
