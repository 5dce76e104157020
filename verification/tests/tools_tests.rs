use rusttube::app_model::{RuntimeTool, ToolPackage};
use rusttube::runtime_tools::{
    entry_matches, find_tool_paths, find_zip_entry, lib_dir_from, missing_packages,
    missing_packages_given, package_for_tool, package_plan, tool_dir_candidates, tool_installed,
    tool_dir_given, tool_paths_given, tool_paths_if_ready,
};

#[test]
fn tools_folder_choice() {
    assert_eq!(
        lib_dir_from(Some("C:\\Users\\me\\AppData\\Roaming".to_string()), Some("C:\\cwd".to_string())),
        "C:\\Users\\me\\AppData\\Roaming\\jonasgrimm.de\\RustTube\\tools"
    );
    assert_eq!(lib_dir_from(None, Some("C:\\cwd".to_string())), "C:\\cwd\\lib");
    assert_eq!(lib_dir_from(None, None), "lib");
}

#[test]
fn packages_for_tools() {
    assert_eq!(package_for_tool(RuntimeTool::YtDlp), ToolPackage::YtDlp);
    assert_eq!(package_for_tool(RuntimeTool::Ffmpeg), ToolPackage::FfmpegBundle);
    assert_eq!(package_for_tool(RuntimeTool::Ffprobe), ToolPackage::FfmpegBundle);
    assert_eq!(package_for_tool(RuntimeTool::Deno), ToolPackage::Deno);
}

#[test]
fn missing_packages_in_order() {
    assert_eq!(missing_packages_given(true, true, true, true), vec![]);
    assert_eq!(
        missing_packages_given(false, true, false, false),
        vec![ToolPackage::YtDlp, ToolPackage::FfmpegBundle, ToolPackage::Deno]
    );
    assert_eq!(missing_packages_given(true, false, true, true), vec![ToolPackage::FfmpegBundle]);
    assert_eq!(
        missing_packages("/nonexistent/rusttube-tools"),
        vec![ToolPackage::YtDlp, ToolPackage::FfmpegBundle, ToolPackage::Deno]
    );
    assert!(!tool_installed("/nonexistent/rusttube-tools", RuntimeTool::Deno));
    assert!(tool_paths_if_ready("/nonexistent/rusttube-tools").is_none());
}

#[test]
fn plans() {
    let p = package_plan("C:\\t", ToolPackage::YtDlp);
    assert_eq!(p.url, "https://github.com/yt-dlp/yt-dlp/releases/latest/download/yt-dlp.exe");
    assert_eq!(p.download_to, "C:\\t\\yt-dlp.exe");
    assert!(p.extract.is_empty());
    assert!(!p.remove_download);
    let p = package_plan("C:\\t", ToolPackage::Deno);
    assert_eq!(p.download_to, "C:\\t\\deno.download.zip");
    assert_eq!(p.extract.len(), 1);
    assert_eq!(p.extract[0].entry_file_name, "deno.exe");
    assert_eq!(p.extract[0].destination, "C:\\t\\deno.exe");
    assert!(p.remove_download);
    let p = package_plan("C:\\t", ToolPackage::FfmpegBundle);
    assert_eq!(p.url, "https://www.gyan.dev/ffmpeg/builds/ffmpeg-release-essentials.zip");
    assert_eq!(p.download_to, "C:\\t\\ffmpeg.download.zip");
    assert_eq!(p.extract[0].entry_file_name, "ffmpeg.exe");
    assert_eq!(p.extract[1].entry_file_name, "ffprobe.exe");
    assert_eq!(p.extract[1].destination, "C:\\t\\ffprobe.exe");
}

#[test]
fn archive_entry_names() {
    assert!(entry_matches("ffmpeg-7.1-essentials_build/bin/ffmpeg.exe", "ffmpeg.exe"));
    assert!(entry_matches("build\\bin\\FFMPEG.EXE", "ffmpeg.exe"));
    assert!(entry_matches("deno.exe", "deno.exe"));
    assert!(entry_matches("a/deno.exe/", "deno.exe"));
    assert!(entry_matches("a/deno.exe/.", "deno.exe"));
    assert!(!entry_matches("a/deno.exe/..", "deno.exe"));
    assert!(!entry_matches("a/ffprobe.exe", "ffmpeg.exe"));
    assert!(!entry_matches("", "ffmpeg.exe"));
    assert!(!entry_matches("/", "ffmpeg.exe"));
    assert!(!entry_matches("bin/ffmpeg.exe.sig", "ffmpeg.exe"));
    let names = vec![
        "ffmpeg/".to_string(),
        "ffmpeg/bin/ffprobe.exe".to_string(),
        "ffmpeg/bin/ffmpeg.exe".to_string(),
        "other/ffmpeg.exe".to_string(),
    ];
    assert_eq!(find_zip_entry(&names, "ffmpeg.exe"), Some(2));
    assert_eq!(find_zip_entry(&names, "FFPROBE.exe"), Some(1));
    assert_eq!(find_zip_entry(&names, "deno.exe"), None);
}

#[test]
fn tool_folder_candidates() {
    let c = tool_dir_candidates(Some("C:\\cwd".to_string()), Some("C:\\app".to_string()));
    assert_eq!(
        c,
        vec![
            "C:\\cwd\\lib".to_string(),
            "C:\\app\\lib".to_string(),
            "C:\\app\\..\\lib".to_string(),
            "C:\\app\\..\\..\\lib".to_string(),
        ]
    );
    assert_eq!(tool_dir_candidates(None, None), Vec::<String>::new());
    assert!(find_tool_paths(&c).is_none());
}

#[test]
fn plans_install_where_tools_are_checked() {
    let lib = "C:\\Users\\me\\tools";
    for tool in [RuntimeTool::YtDlp, RuntimeTool::Ffmpeg, RuntimeTool::Ffprobe, RuntimeTool::Deno] {
        let plan = package_plan(lib, package_for_tool(tool));
        let target = rusttube::app_model::join_path_str(lib, tool.file_name());
        let installed = if plan.extract.is_empty() {
            plan.download_to == target
        } else {
            plan.extract
                .iter()
                .any(|e| e.destination == target && e.entry_file_name == tool.file_name())
        };
        assert!(installed, "{}", tool.file_name());
    }
}

#[test]
fn ready_tools_given_probes() {
    let ready = tool_paths_given("C:\\t", true, true, true, true).unwrap();
    assert_eq!(ready.lib_dir, "C:\\t");
    assert_eq!(ready.yt_dlp_path, "C:\\t\\yt-dlp.exe");
    assert!(tool_paths_given("C:\\t", true, true, true, false).is_none());
    assert!(tool_paths_given("C:\\t", false, true, true, true).is_none());
    assert!(tool_paths_given("C:\\t", true, false, true, true).is_none());
}

#[test]
fn tool_folder_given_probes() {
    let c = vec!["C:\\a".to_string(), "C:\\b".to_string(), "C:\\c".to_string()];
    assert!(tool_dir_given(&c, &vec![false, false, false]).is_none());
    let t = tool_dir_given(&c, &vec![false, true, true]).unwrap();
    assert_eq!(t.lib_dir, "C:\\b");
    assert_eq!(t.yt_dlp_path, "C:\\b\\yt-dlp.exe");
    assert_eq!(tool_dir_given(&c, &vec![true, false, true]).unwrap().lib_dir, "C:\\a");
}
