//! The helper tools (yt-dlp, ffmpeg, ffprobe, Deno): where they live, which
//! are missing, how each package is fetched and installed, and which entry
//! of a downloaded archive holds a wanted program.
use vstd::prelude::*;
use crate::app_model::{
    first_marked, join_path, join_path_str, opt_string_view, path_is_file, strings_view, RuntimeTool,
    ToolPackage, ToolPaths,
};
use crate::text::{eq_ignore_ascii_case, eq_ignore_case_range, rspan, rspan_from, to_chars, CharClass};

verus! {

broadcast use vstd::string::group_string_axioms;

pub open spec fn yt_dlp_url() -> Seq<char> {
    "https://github.com/yt-dlp/yt-dlp/releases/latest/download/yt-dlp.exe"@
}

pub open spec fn deno_url() -> Seq<char> {
    "https://github.com/denoland/deno/releases/latest/download/deno-x86_64-pc-windows-msvc.zip"@
}

pub open spec fn ffmpeg_url() -> Seq<char> {
    "https://www.gyan.dev/ffmpeg/builds/ffmpeg-release-essentials.zip"@
}

/// The tools folder: under `%APPDATA%` when that is set, else `lib` in the
/// current directory when that is known, else the relative `lib`.
pub open spec fn lib_dir_spec(appdata: Option<Seq<char>>, current_dir: Option<Seq<char>>) -> Seq<char> {
    match appdata {
        Some(a) => join_path(join_path(join_path(a, "jonasgrimm.de"@), "RustTube"@), "tools"@),
        None => match current_dir {
            Some(c) => join_path(c, "lib"@),
            None => "lib"@,
        },
    }
}

pub fn lib_dir_from(appdata: Option<String>, current_dir: Option<String>) -> (r: String)
    ensures
        r@ == lib_dir_spec(opt_string_view(appdata), opt_string_view(current_dir)),
{
    match appdata {
        Some(a) => {
            let p1 = join_path_str(a.as_str(), "jonasgrimm.de");
            let p2 = join_path_str(p1.as_str(), "RustTube");
            join_path_str(p2.as_str(), "tools")
        },
        None => match current_dir {
            Some(c) => join_path_str(c.as_str(), "lib"),
            None => "lib".to_owned(),
        },
    }
}

/// The ready tools, given which of yt-dlp, ffmpeg, ffprobe and Deno are
/// files in the tools folder: the folder and yt-dlp when all four are.
pub open spec fn ready_paths_spec(
    lib_dir: Seq<char>,
    yt_dlp: bool,
    ffmpeg: bool,
    ffprobe: bool,
    deno: bool,
) -> Option<(Seq<char>, Seq<char>)> {
    if yt_dlp && ffmpeg && ffprobe && deno {
        Some((lib_dir, join_path(lib_dir, "yt-dlp.exe"@)))
    } else {
        None
    }
}

pub fn tool_paths_given(lib_dir: &str, yt_dlp: bool, ffmpeg: bool, ffprobe: bool, deno: bool) -> (r:
    Option<ToolPaths>)
    ensures
        match ready_paths_spec(lib_dir@, yt_dlp, ffmpeg, ffprobe, deno) {
            Some(v) => r matches Some(t) && t@ == v,
            None => r is None,
        },
{
    if yt_dlp && ffmpeg && ffprobe && deno {
        Some(ToolPaths { lib_dir: lib_dir.to_owned(), yt_dlp_path: join_path_str(lib_dir, "yt-dlp.exe") })
    } else {
        None
    }
}

/// The tools are ready when yt-dlp, ffmpeg, ffprobe and Deno are all files
/// in the tools folder (probed in that order, stopping at the first that is
/// not); the result names the folder and yt-dlp. Which files exist is up to
/// the disk, so the result is stated for whatever the probes found.
pub fn tool_paths_if_ready(lib_dir: &str) -> (r: Option<ToolPaths>)
    ensures
        exists|y: bool, f: bool, p: bool, d: bool|
            match #[trigger] ready_paths_spec(lib_dir@, y, f, p, d) {
                Some(v) => r matches Some(t) && t@ == v,
                None => r is None,
            },
        r matches Some(p) ==> p.lib_dir@ == lib_dir@ && p.yt_dlp_path@ == join_path(
            lib_dir@,
            "yt-dlp.exe"@,
        ),
{
    let yt_dlp_path = join_path_str(lib_dir, "yt-dlp.exe");
    let ffmpeg_path = join_path_str(lib_dir, "ffmpeg.exe");
    let ffprobe_path = join_path_str(lib_dir, "ffprobe.exe");
    let deno_path = join_path_str(lib_dir, "deno.exe");
    let y = path_is_file(yt_dlp_path.as_str());
    let f = y && path_is_file(ffmpeg_path.as_str());
    let p = f && path_is_file(ffprobe_path.as_str());
    let d = p && path_is_file(deno_path.as_str());
    let r = tool_paths_given(lib_dir, y, f, p, d);
    assert(match ready_paths_spec(lib_dir@, y, f, p, d) {
        Some(v) => r matches Some(t) && t@ == v,
        None => r is None,
    });
    r
}

/// Whether the tool's executable is a file in the tools folder.
pub fn tool_installed(lib_dir: &str, tool: RuntimeTool) -> bool {
    let path = join_path_str(lib_dir, tool.file_name());
    path_is_file(path.as_str())
}

pub open spec fn package_for_tool_spec(tool: RuntimeTool) -> ToolPackage {
    match tool {
        RuntimeTool::YtDlp => ToolPackage::YtDlp,
        RuntimeTool::Ffmpeg | RuntimeTool::Ffprobe => ToolPackage::FfmpegBundle,
        RuntimeTool::Deno => ToolPackage::Deno,
    }
}

/// The package that installs a tool.
pub fn package_for_tool(tool: RuntimeTool) -> (r: ToolPackage)
    ensures
        r == package_for_tool_spec(tool),
{
    match tool {
        RuntimeTool::YtDlp => ToolPackage::YtDlp,
        RuntimeTool::Ffmpeg | RuntimeTool::Ffprobe => ToolPackage::FfmpegBundle,
        RuntimeTool::Deno => ToolPackage::Deno,
    }
}

/// The packages to fetch, in order, given which tools are present.
pub open spec fn missing_packages_spec(
    yt_dlp: bool,
    ffmpeg: bool,
    ffprobe: bool,
    deno: bool,
) -> Seq<ToolPackage> {
    (if !yt_dlp {
        seq![ToolPackage::YtDlp]
    } else {
        seq![]
    }) + (if !ffmpeg || !ffprobe {
        seq![ToolPackage::FfmpegBundle]
    } else {
        seq![]
    }) + (if !deno {
        seq![ToolPackage::Deno]
    } else {
        seq![]
    })
}

pub fn missing_packages_given(yt_dlp: bool, ffmpeg: bool, ffprobe: bool, deno: bool) -> (r: Vec<
    ToolPackage,
>)
    ensures
        r@ == missing_packages_spec(yt_dlp, ffmpeg, ffprobe, deno),
{
    let mut packages: Vec<ToolPackage> = Vec::new();
    if !yt_dlp {
        packages.push(ToolPackage::YtDlp);
    }
    if !ffmpeg || !ffprobe {
        packages.push(ToolPackage::FfmpegBundle);
    }
    if !deno {
        packages.push(ToolPackage::Deno);
    }
    assert(packages@ =~= missing_packages_spec(yt_dlp, ffmpeg, ffprobe, deno));
    packages
}

/// The packages that must be fetched for the tools missing from the folder.
pub fn missing_packages(lib_dir: &str) -> (r: Vec<ToolPackage>)
    ensures
        exists|y: bool, f: bool, p: bool, d: bool| r@ == missing_packages_spec(y, f, p, d),
{
    let y = tool_installed(lib_dir, RuntimeTool::YtDlp);
    let f = tool_installed(lib_dir, RuntimeTool::Ffmpeg);
    let p = if f {
        tool_installed(lib_dir, RuntimeTool::Ffprobe)
    } else {
        true
    };
    let d = tool_installed(lib_dir, RuntimeTool::Deno);
    missing_packages_given(y, f, p, d)
}

/// One program to take out of a downloaded archive.
#[derive(Clone, Debug)]
pub struct ZipExtraction {
    /// The file name that the archive entry must have (ASCII case ignored).
    pub entry_file_name: String,
    pub destination: String,
}

/// How a package is fetched and installed.
#[derive(Clone, Debug)]
pub struct PackagePlan {
    pub url: String,
    /// Where the download is written.
    pub download_to: String,
    /// The programs to take out of the download, in order (none when the
    /// download is the program itself).
    pub extract: Vec<ZipExtraction>,
    /// Whether the download is deleted afterwards.
    pub remove_download: bool,
}

pub open spec fn extraction_view(e: ZipExtraction) -> (Seq<char>, Seq<char>) {
    (e.entry_file_name@, e.destination@)
}

pub open spec fn extractions_view(es: Seq<ZipExtraction>) -> Seq<(Seq<char>, Seq<char>)> {
    es.map_values(|e: ZipExtraction| extraction_view(e))
}

pub open spec fn plan_matches(
    p: PackagePlan,
    url: Seq<char>,
    to: Seq<char>,
    ex: Seq<(Seq<char>, Seq<char>)>,
    remove: bool,
) -> bool {
    &&& p.url@ == url
    &&& p.download_to@ == to
    &&& extractions_view(p.extract@) == ex
    &&& p.remove_download == remove
}

pub open spec fn package_plan_spec(p: PackagePlan, lib_dir: Seq<char>, package: ToolPackage) -> bool {
    match package {
        ToolPackage::YtDlp => plan_matches(
            p,
            yt_dlp_url(),
            join_path(lib_dir, "yt-dlp.exe"@),
            seq![],
            false,
        ),
        ToolPackage::Deno => plan_matches(
            p,
            deno_url(),
            join_path(lib_dir, "deno.download.zip"@),
            seq![("deno.exe"@, join_path(lib_dir, "deno.exe"@))],
            true,
        ),
        ToolPackage::FfmpegBundle => plan_matches(
            p,
            ffmpeg_url(),
            join_path(lib_dir, "ffmpeg.download.zip"@),
            seq![
                ("ffmpeg.exe"@, join_path(lib_dir, "ffmpeg.exe"@)),
                ("ffprobe.exe"@, join_path(lib_dir, "ffprobe.exe"@)),
            ],
            true,
        ),
    }
}

/// How to fetch and install a package into the tools folder.
pub fn package_plan(lib_dir: &str, package: ToolPackage) -> (r: PackagePlan)
    ensures
        package_plan_spec(r, lib_dir@, package),
{
    match package {
        ToolPackage::YtDlp => {
            let r = PackagePlan {
                url: "https://github.com/yt-dlp/yt-dlp/releases/latest/download/yt-dlp.exe".to_owned(),
                download_to: join_path_str(lib_dir, "yt-dlp.exe"),
                extract: Vec::new(),
                remove_download: false,
            };
            assert(extractions_view(r.extract@) =~= seq![]);
            r
        },
        ToolPackage::Deno => {
            let mut extract: Vec<ZipExtraction> = Vec::new();
            extract.push(
                ZipExtraction {
                    entry_file_name: "deno.exe".to_owned(),
                    destination: join_path_str(lib_dir, "deno.exe"),
                },
            );
            let r = PackagePlan {
                url: "https://github.com/denoland/deno/releases/latest/download/deno-x86_64-pc-windows-msvc.zip".to_owned(),
                download_to: join_path_str(lib_dir, "deno.download.zip"),
                extract,
                remove_download: true,
            };
            assert(extractions_view(r.extract@) =~= seq![
                ("deno.exe"@, join_path(lib_dir@, "deno.exe"@)),
            ]);
            r
        },
        ToolPackage::FfmpegBundle => {
            let mut extract: Vec<ZipExtraction> = Vec::new();
            extract.push(
                ZipExtraction {
                    entry_file_name: "ffmpeg.exe".to_owned(),
                    destination: join_path_str(lib_dir, "ffmpeg.exe"),
                },
            );
            extract.push(
                ZipExtraction {
                    entry_file_name: "ffprobe.exe".to_owned(),
                    destination: join_path_str(lib_dir, "ffprobe.exe"),
                },
            );
            let r = PackagePlan {
                url: "https://www.gyan.dev/ffmpeg/builds/ffmpeg-release-essentials.zip".to_owned(),
                download_to: join_path_str(lib_dir, "ffmpeg.download.zip"),
                extract,
                remove_download: true,
            };
            assert(extractions_view(r.extract@) =~= seq![
                ("ffmpeg.exe"@, join_path(lib_dir@, "ffmpeg.exe"@)),
                ("ffprobe.exe"@, join_path(lib_dir@, "ffprobe.exe"@)),
            ]);
            r
        },
    }
}

// ---------------------------------------------------------------------------
// Archive entries
/// The last component of a `/`- or `\`-separated path without a drive or
/// UNC prefix (as archive entry names are), as `Path::file_name` gives it on
/// Windows: empty and `.` components are skipped, and a path that ends in
/// `..` or has no component has none.
pub open spec fn file_name_of(s: Seq<char>) -> Option<Seq<char>>
    decreases s.len(),
{
    let t = s.take(s.len() - rspan(s, CharClass::PathSeparator));
    if t.len() == 0 {
        None
    } else {
        let k = rspan(t, CharClass::NotPathSeparator);
        let last = t.skip(t.len() - k);
        let before = t.take(t.len() - k);
        if last == seq!['.'] {
            proof {
                crate::text::lemma_rspan(s, CharClass::PathSeparator);
                crate::text::lemma_rspan(t, CharClass::NotPathSeparator);
            }
            file_name_of(before)
        } else if last == seq!['.', '.'] {
            None
        } else {
            Some(last)
        }
    }
}

/// Whether an archive entry name denotes a file with the wanted name.
pub open spec fn entry_matches_spec(name: Seq<char>, wanted: Seq<char>) -> bool {
    match file_name_of(name) {
        Some(f) => eq_ignore_ascii_case(f, wanted),
        None => false,
    }
}

/// The range of `file_name_of(v[..e])`, if there is one.
fn file_name_range(v: &Vec<char>, e: usize) -> (r: Option<(usize, usize)>)
    requires
        e <= v@.len(),
    ensures
        match file_name_of(v@.subrange(0, e as int)) {
            Some(f) => r matches Some(p) && p.0 <= p.1 <= e && v@.subrange(p.0 as int, p.1 as int) == f,
            None => r is None,
        },
    decreases e,
{
    let ghost s = v@.subrange(0, e as int);
    let t_end = rspan_from(v, 0, e, CharClass::PathSeparator);
    proof {
        assert(s.take(s.len() - rspan(s, CharClass::PathSeparator)) =~= v@.subrange(0, t_end as int));
    }
    if t_end == 0 {
        return None;
    }
    let last_start = rspan_from(v, 0, t_end, CharClass::NotPathSeparator);
    proof {
        let t = v@.subrange(0, t_end as int);
        let k = rspan(t, CharClass::NotPathSeparator);
        assert(t.skip(t.len() - k) =~= v@.subrange(last_start as int, t_end as int));
        assert(t.take(t.len() - k) =~= v@.subrange(0, last_start as int));
    }
    let len = t_end - last_start;
    if len == 1 && v[last_start] == '.' {
        proof {
            assert(v@.subrange(last_start as int, t_end as int) =~= seq!['.']);
        }
        return file_name_range(v, last_start);
    }
    if len == 2 && v[last_start] == '.' && v[last_start + 1] == '.' {
        proof {
            assert(v@.subrange(last_start as int, t_end as int) =~= seq!['.', '.']);
        }
        return None;
    }
    proof {
        if v@.subrange(last_start as int, t_end as int) == seq!['.'] {
            assert(v@.subrange(last_start as int, t_end as int)[0] == v@[last_start as int]);
        }
        if v@.subrange(last_start as int, t_end as int) == seq!['.', '.'] {
            assert(v@.subrange(last_start as int, t_end as int)[0] == v@[last_start as int]);
            assert(v@.subrange(last_start as int, t_end as int)[1] == v@[last_start + 1]);
        }
    }
    Some((last_start, t_end))
}

/// Whether the archive entry `name` is a file called `wanted`, ASCII case ignored.
pub fn entry_matches(name: &str, wanted: &str) -> (r: bool)
    ensures
        r == entry_matches_spec(name@, wanted@),
{
    let v = to_chars(name);
    let w = to_chars(wanted);
    assert(v@.subrange(0, v@.len() as int) =~= v@);
    match file_name_range(&v, v.len()) {
        Some((a, b)) => eq_ignore_case_range(&v, a, b, &w),
        None => false,
    }
}

/// The first archive entry whose file name is `wanted`, ASCII case ignored.
pub fn find_zip_entry(names: &Vec<String>, wanted: &str) -> (r: Option<usize>)
    ensures
        match r {
            Some(i) => i < names@.len() && entry_matches_spec(names@[i as int]@, wanted@) && forall|
                j: int,
            |
                0 <= j < i ==> !entry_matches_spec(#[trigger] names@[j]@, wanted@),
            None => forall|j: int|
                0 <= j < names@.len() ==> !entry_matches_spec(#[trigger] names@[j]@, wanted@),
        },
{
    let mut i: usize = 0;
    while i < names.len()
        invariant
            i <= names@.len(),
            forall|j: int| 0 <= j < i ==> !entry_matches_spec(#[trigger] names@[j]@, wanted@),
        decreases names.len() - i,
    {
        if entry_matches(names[i].as_str(), wanted) {
            return Some(i);
        }
        i += 1;
    }
    None
}

// ---------------------------------------------------------------------------
// Locating an existing tools folder
/// The folders that may hold the tools: `lib` under the current directory,
/// then `lib`, `../lib` and `../../lib` beside the executable.
pub open spec fn tool_dir_candidates_spec(
    current_dir: Option<Seq<char>>,
    exe_dir: Option<Seq<char>>,
) -> Seq<Seq<char>> {
    (match current_dir {
        Some(c) => seq![join_path(c, "lib"@)],
        None => seq![],
    }) + (match exe_dir {
        Some(e) => seq![
            join_path(e, "lib"@),
            join_path(join_path(e, ".."@), "lib"@),
            join_path(join_path(join_path(e, ".."@), ".."@), "lib"@),
        ],
        None => seq![],
    })
}

pub fn tool_dir_candidates(current_dir: Option<String>, exe_dir: Option<String>) -> (r: Vec<String>)
    ensures
        strings_view(r@) == tool_dir_candidates_spec(
            opt_string_view(current_dir),
            opt_string_view(exe_dir),
        ),
{
    let mut out: Vec<String> = Vec::new();
    match current_dir {
        Some(c) => {
            out.push(join_path_str(c.as_str(), "lib"));
        },
        None => {},
    }
    match exe_dir {
        Some(e) => {
            out.push(join_path_str(e.as_str(), "lib"));
            let up = join_path_str(e.as_str(), "..");
            out.push(join_path_str(up.as_str(), "lib"));
            let up2 = join_path_str(up.as_str(), "..");
            out.push(join_path_str(up2.as_str(), "lib"));
        },
        None => {},
    }
    assert(strings_view(out@) =~= tool_dir_candidates_spec(
        opt_string_view(current_dir),
        opt_string_view(exe_dir),
    ));
    out
}

/// The tools, given which candidate folders hold `yt-dlp.exe`: the first
/// folder that does, with its yt-dlp.
pub fn tool_dir_given(candidates: &Vec<String>, found: &Vec<bool>) -> (r: Option<ToolPaths>)
    requires
        found@.len() == candidates@.len(),
    ensures
        match first_marked(strings_view(candidates@), found@) {
            Some(x) => r matches Some(t) && t@ == (x, join_path(x, "yt-dlp.exe"@)),
            None => r is None,
        },
{
    let ghost cands = strings_view(candidates@);
    let mut i: usize = 0;
    while i < candidates.len()
        invariant
            i <= candidates@.len(),
            found@.len() == candidates@.len(),
            cands == strings_view(candidates@),
            forall|j: int| 0 <= j < i ==> !found@[j],
        decreases candidates.len() - i,
    {
        if found[i] {
            proof {
                lemma_first_marked_at(cands, found@, i as int);
            }
            let dir = candidates[i].clone();
            let yt = join_path_str(dir.as_str(), "yt-dlp.exe");
            return Some(ToolPaths { lib_dir: dir, yt_dlp_path: yt });
        }
        i += 1;
    }
    proof {
        lemma_first_marked_none(cands, found@);
    }
    None
}

/// The first candidate folder that holds `yt-dlp.exe`: the folders are
/// probed in order, stopping at the first that holds it. Which files exist
/// is up to the disk, so the result is stated for whatever the probes found.
pub fn find_tool_paths(candidates: &Vec<String>) -> (r: Option<ToolPaths>)
    ensures
        exists|flags: Seq<bool>|
            flags.len() == candidates@.len() && match #[trigger] first_marked(
                strings_view(candidates@),
                flags,
            ) {
                Some(d) => r matches Some(p) && p.lib_dir@ == d && p.yt_dlp_path@ == join_path(
                    d,
                    "yt-dlp.exe"@,
                ),
                None => r is None,
            },
{
    let mut found: Vec<bool> = Vec::new();
    let mut hit = false;
    let mut i: usize = 0;
    while i < candidates.len()
        invariant
            i <= candidates@.len(),
            found@.len() == i,
        decreases candidates.len() - i,
    {
        let here = if hit {
            false
        } else {
            let yt = join_path_str(candidates[i].as_str(), "yt-dlp.exe");
            path_is_file(yt.as_str())
        };
        hit = hit || here;
        found.push(here);
        i += 1;
    }
    let r = tool_dir_given(candidates, &found);
    assert(match first_marked(strings_view(candidates@), found@) {
        Some(d) => r matches Some(p) && p.lib_dir@ == d && p.yt_dlp_path@ == join_path(
            d,
            "yt-dlp.exe"@,
        ),
        None => r is None,
    });
    r
}

proof fn lemma_first_marked_at(cands: Seq<Seq<char>>, flags: Seq<bool>, i: int)
    requires
        0 <= i < cands.len(),
        flags.len() == cands.len(),
        flags[i],
        forall|j: int| 0 <= j < i ==> !flags[j],
    ensures
        first_marked(cands, flags) == Some(cands[i]),
    decreases i,
{
    if i > 0 {
        lemma_first_marked_at(cands.drop_first(), flags.drop_first(), i - 1);
    }
}

proof fn lemma_first_marked_none(cands: Seq<Seq<char>>, flags: Seq<bool>)
    requires
        flags.len() == cands.len(),
        forall|j: int| 0 <= j < flags.len() ==> !flags[j],
    ensures
        first_marked(cands, flags) is None,
    decreases cands.len(),
{
    if cands.len() > 0 {
        lemma_first_marked_none(cands.drop_first(), flags.drop_first());
    }
}


// ---------------------------------------------------------------------------
// Laws
pub open spec fn tool_present(t: RuntimeTool, yt_dlp: bool, ffmpeg: bool, ffprobe: bool, deno: bool) -> bool {
    match t {
        RuntimeTool::YtDlp => yt_dlp,
        RuntimeTool::Ffmpeg => ffmpeg,
        RuntimeTool::Ffprobe => ffprobe,
        RuntimeTool::Deno => deno,
    }
}

/// Every missing tool's package is among those fetched, only the packages
/// of missing tools are, none twice, and nothing is fetched when all tools
/// are present.
pub proof fn law_missing_packages(yt_dlp: bool, ffmpeg: bool, ffprobe: bool, deno: bool)
    ensures
        ({
            let ps = missing_packages_spec(yt_dlp, ffmpeg, ffprobe, deno);
            &&& !yt_dlp ==> ps.contains(package_for_tool_spec(RuntimeTool::YtDlp))
            &&& !ffmpeg ==> ps.contains(package_for_tool_spec(RuntimeTool::Ffmpeg))
            &&& !ffprobe ==> ps.contains(package_for_tool_spec(RuntimeTool::Ffprobe))
            &&& !deno ==> ps.contains(package_for_tool_spec(RuntimeTool::Deno))
            &&& forall|i: int|
                #![trigger ps[i]]
                0 <= i < ps.len() ==> exists|t: RuntimeTool|
                    #[trigger] package_for_tool_spec(t) == ps[i] && !tool_present(
                        t,
                        yt_dlp,
                        ffmpeg,
                        ffprobe,
                        deno,
                    )
            &&& forall|i: int, j: int| 0 <= i < j < ps.len() ==> ps[i] != ps[j]
            &&& (ps.len() == 0 <==> (yt_dlp && ffmpeg && ffprobe && deno))
        }),
{
    let ps = missing_packages_spec(yt_dlp, ffmpeg, ffprobe, deno);
    let a: Seq<ToolPackage> = if !yt_dlp { seq![ToolPackage::YtDlp] } else { seq![] };
    let b: Seq<ToolPackage> = if !ffmpeg || !ffprobe { seq![ToolPackage::FfmpegBundle] } else { seq![] };
    let c: Seq<ToolPackage> = if !deno { seq![ToolPackage::Deno] } else { seq![] };
    assert(ps == a + b + c);
    if !yt_dlp {
        assert(ps[0] == ToolPackage::YtDlp);
    }
    if !ffmpeg || !ffprobe {
        assert(ps[a.len() as int] == ToolPackage::FfmpegBundle);
    }
    if !deno {
        assert(ps[(a.len() + b.len()) as int] == ToolPackage::Deno);
    }
    assert forall|i: int| #![trigger ps[i]] 0 <= i < ps.len() implies exists|t: RuntimeTool|
        #[trigger] package_for_tool_spec(t) == ps[i] && !tool_present(t, yt_dlp, ffmpeg, ffprobe, deno) by {
        if ps[i] == ToolPackage::YtDlp {
            assert(package_for_tool_spec(RuntimeTool::YtDlp) == ps[i]);
        } else if ps[i] == ToolPackage::Deno {
            assert(package_for_tool_spec(RuntimeTool::Deno) == ps[i]);
        } else {
            if !ffmpeg {
                assert(package_for_tool_spec(RuntimeTool::Ffmpeg) == ps[i]);
            } else {
                assert(package_for_tool_spec(RuntimeTool::Ffprobe) == ps[i]);
            }
        }
    }
}

/// The ready tools name the same yt-dlp that `tool_installed` looks for.
pub proof fn law_ready_paths_name_yt_dlp(lib_dir: Seq<char>)
    ensures
        join_path(lib_dir, RuntimeTool::YtDlp.file_name_spec()) == join_path(lib_dir, "yt-dlp.exe"@),
{
}

/// Installing a package puts every tool that the package provides where the
/// tools folder is checked for it: the download itself is the tool, or one
/// of the extractions takes the entry of the tool's file name to that place.
pub proof fn law_plan_installs_its_tools(
    lib_dir: Seq<char>,
    p: PackagePlan,
    package: ToolPackage,
    t: RuntimeTool,
)
    requires
        package_plan_spec(p, lib_dir, package),
        package_for_tool_spec(t) == package,
    ensures
        ({
            let target = join_path(lib_dir, t.file_name_spec());
            ||| p.extract@.len() == 0 && p.download_to@ == target
            ||| exists|i: int|
                0 <= i < p.extract@.len() && #[trigger] extraction_view(p.extract@[i]) == (
                    t.file_name_spec(),
                    target,
                )
        }),
{
    let ex = extractions_view(p.extract@);
    assert(ex.len() == p.extract@.len());
    match t {
        RuntimeTool::YtDlp => {},
        RuntimeTool::Ffmpeg => {
            assert(ex[0] == extraction_view(p.extract@[0]));
        },
        RuntimeTool::Ffprobe => {
            assert(ex[1] == extraction_view(p.extract@[1]));
        },
        RuntimeTool::Deno => {
            assert(ex[0] == extraction_view(p.extract@[0]));
        },
    }
}

} // verus!
