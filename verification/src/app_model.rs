//! The data that the frontend passes around: download modes, quality
//! presets, yt-dlp format entries, tool locations, media previews and the
//! events that background work reports; with the yt-dlp format-list reader,
//! the yt-dlp format selectors and the command prefix for the helper tools.
use vstd::prelude::*;
use crate::decimal::decimal;
use crate::text::{
    lemma_lines_concat, lemma_lines_newline_end, lemma_trim_strip_cr, strip_cr,
    is_ws, lemma_rspan, lemma_span, span, trim_start, CharClass, push_char, line_ranges, lines, range_view, ranges_view, split_ws, starts_with, starts_with_at,
    string_of, to_chars, token_ranges, trim, trim_range,
};

verus! {

broadcast use vstd::string::group_string_axioms;

#[derive(Clone, Copy, Debug, PartialEq, Eq, Structural)]
pub enum DownloadMode {
    Video,
    AudioMp3,
    Manual,
}

impl DownloadMode {
    pub open spec fn label_spec(self) -> Seq<char> {
        match self {
            DownloadMode::Video => "Video"@,
            DownloadMode::AudioMp3 => "Audio (MP3)"@,
            DownloadMode::Manual => "Manual yt-dlp format"@,
        }
    }

    pub fn label(&self) -> (r: &'static str)
        ensures
            r@ == self.label_spec(),
    {
        match self {
            Self::Video => "Video",
            Self::AudioMp3 => "Audio (MP3)",
            Self::Manual => "Manual yt-dlp format",
        }
    }
}

#[derive(Clone, Copy, Debug, PartialEq, Eq, Structural)]
pub enum QualityPreset {
    Best,
    P1080,
    P720,
    P480,
    Worst,
}

impl QualityPreset {
    pub open spec fn label_spec(self) -> Seq<char> {
        match self {
            QualityPreset::Best => "Best available quality"@,
            QualityPreset::P1080 => "Up to 1080p"@,
            QualityPreset::P720 => "Up to 720p"@,
            QualityPreset::P480 => "Up to 480p"@,
            QualityPreset::Worst => "Lowest quality"@,
        }
    }

    pub fn label(&self) -> (r: &'static str)
        ensures
            r@ == self.label_spec(),
    {
        match self {
            Self::Best => "Best available quality",
            Self::P1080 => "Up to 1080p",
            Self::P720 => "Up to 720p",
            Self::P480 => "Up to 480p",
            Self::Worst => "Lowest quality",
        }
    }
}

/// One line of yt-dlp's `-F` format list: the format id and the whole line.
#[derive(Clone, Debug)]
pub struct FormatEntry {
    pub id: String,
    pub description: String,
}

impl View for FormatEntry {
    type V = (Seq<char>, Seq<char>);

    open spec fn view(&self) -> (Seq<char>, Seq<char>) {
        (self.id@, self.description@)
    }
}

/// Where the helper tools live. Paths are kept as text.
#[derive(Clone, Debug)]
pub struct ToolPaths {
    pub lib_dir: String,
    pub yt_dlp_path: String,
}

impl View for ToolPaths {
    type V = (Seq<char>, Seq<char>);

    open spec fn view(&self) -> (Seq<char>, Seq<char>) {
        (self.lib_dir@, self.yt_dlp_path@)
    }
}

impl ToolPaths {
    /// A copy with the same paths.
    pub fn duplicate(&self) -> (r: Self)
        ensures
            r@ == self@,
    {
        ToolPaths { lib_dir: self.lib_dir.clone(), yt_dlp_path: self.yt_dlp_path.clone() }
    }
}

/// What a preview shows of a piece of media.
#[derive(Clone, Debug)]
pub struct MediaPreview {
    pub title: String,
    pub uploader: String,
    pub duration: Option<String>,
    pub webpage_url: String,
    pub thumbnail_url: Option<String>,
    /// RGBA pixels with the image's width and height.
    pub thumbnail_rgba: Option<(Vec<u8>, [usize; 2])>,
}

/// The abstract content of a `MediaPreview`.
#[verifier::ext_equal]
pub struct PreviewModel {
    pub title: Seq<char>,
    pub uploader: Seq<char>,
    pub duration: Option<Seq<char>>,
    pub webpage_url: Seq<char>,
    pub thumbnail_url: Option<Seq<char>>,
    pub thumbnail: Option<(Seq<u8>, usize, usize)>,
}

impl View for MediaPreview {
    type V = PreviewModel;

    open spec fn view(&self) -> PreviewModel {
        PreviewModel {
            title: self.title@,
            uploader: self.uploader@,
            duration: opt_string_view(self.duration),
            webpage_url: self.webpage_url@,
            thumbnail_url: opt_string_view(self.thumbnail_url),
            thumbnail: match self.thumbnail_rgba {
                Some(t) => Some((t.0@, t.1[0], t.1[1])),
                None => None,
            },
        }
    }
}

impl MediaPreview {
    pub open spec fn cover_note_spec(self) -> Option<Seq<char>> {
        if self.thumbnail_rgba is Some {
            None
        } else if self.thumbnail_url is Some {
            Some("Thumbnail was found, but could not be rendered."@)
        } else {
            Some("No thumbnail was provided for this media."@)
        }
    }

    /// The note shown in place of a thumbnail that is not drawn.
    pub fn cover_note(&self) -> (r: Option<&'static str>)
        ensures
            match r {
                Some(t) => self.cover_note_spec() == Some(t@),
                None => self.cover_note_spec() is None,
            },
    {
        if self.thumbnail_rgba.is_some() {
            None
        } else if self.thumbnail_url.is_some() {
            Some("Thumbnail was found, but could not be rendered.")
        } else {
            Some("No thumbnail was provided for this media.")
        }
    }
}

/// The helper programs that the frontend runs.
#[derive(Clone, Copy, Debug, PartialEq, Eq, Structural)]
pub enum RuntimeTool {
    YtDlp,
    Ffmpeg,
    Ffprobe,
    Deno,
}

impl RuntimeTool {
    pub open spec fn file_name_spec(self) -> Seq<char> {
        match self {
            RuntimeTool::YtDlp => "yt-dlp.exe"@,
            RuntimeTool::Ffmpeg => "ffmpeg.exe"@,
            RuntimeTool::Ffprobe => "ffprobe.exe"@,
            RuntimeTool::Deno => "deno.exe"@,
        }
    }

    /// The executable's file name in the tools folder.
    pub fn file_name(&self) -> (r: &'static str)
        ensures
            r@ == self.file_name_spec(),
    {
        match self {
            RuntimeTool::YtDlp => "yt-dlp.exe",
            RuntimeTool::Ffmpeg => "ffmpeg.exe",
            RuntimeTool::Ffprobe => "ffprobe.exe",
            RuntimeTool::Deno => "deno.exe",
        }
    }
}

/// The downloads that install the helper programs.
#[derive(Clone, Copy, Debug, PartialEq, Eq, Structural)]
pub enum ToolPackage {
    YtDlp,
    FfmpegBundle,
    Deno,
}

/// What background work reports to the frontend.
pub enum WorkerEvent {
    LogChunk(String),
    ToolsReady { result: Result<ToolPaths, String> },
    ToolDownloadProgress { package: ToolPackage, downloaded_bytes: u64, total_bytes: Option<u64> },
    PreviewLoaded { url: String, preview: Option<MediaPreview>, error: Option<String> },
    FormatsLoaded { entries: Vec<FormatEntry> },
    DownloadFinished { success: bool, canceled: bool },
}

// ---------------------------------------------------------------------------
// The format list
pub open spec fn is_id_char(c: char) -> bool {
    ||| ('a' <= c && c <= 'z')
    ||| ('A' <= c && c <= 'Z')
    ||| ('0' <= c && c <= '9')
    ||| c == '.'
    ||| c == '-'
}

pub open spec fn all_id_chars(s: Seq<char>) -> bool {
    forall|i: int| 0 <= i < s.len() ==> is_id_char(#[trigger] s[i])
}

/// The entry that one line of the format list gives, if any: lines that
/// are blank or start (after trimming) with `[`, `ID` or `-` give none; else
/// the first word is the id, if it is made of ASCII letters, digits, `.`
/// and `-`, and the trimmed line is the description.
pub open spec fn format_entry_of(line: Seq<char>) -> Option<(Seq<char>, Seq<char>)> {
    let t = trim(line);
    if t.len() == 0 || starts_with(t, "["@) || starts_with(t, "ID"@) || starts_with(t, "-"@) {
        None
    } else if split_ws(t).len() == 0 {
        None
    } else if all_id_chars(split_ws(t)[0]) {
        Some((split_ws(t)[0], t))
    } else {
        None
    }
}

pub open spec fn format_entries(ls: Seq<Seq<char>>) -> Seq<(Seq<char>, Seq<char>)>
    decreases ls.len(),
{
    if ls.len() == 0 {
        seq![]
    } else {
        let init = format_entries(ls.drop_last());
        match format_entry_of(ls.last()) {
            Some(e) => init.push(e),
            None => init,
        }
    }
}

pub open spec fn entries_view(v: Seq<FormatEntry>) -> Seq<(Seq<char>, Seq<char>)> {
    v.map_values(|e: FormatEntry| e@)
}

fn id_chars_in(v: &Vec<char>, a: usize, b: usize) -> (r: bool)
    requires
        a <= b <= v@.len(),
    ensures
        r == all_id_chars(v@.subrange(a as int, b as int)),
{
    let mut i = a;
    while i < b
        invariant
            a <= i <= b <= v@.len(),
            forall|j: int| a <= j < i ==> is_id_char(#[trigger] v@[j]),
        decreases b - i,
    {
        let c = v[i];
        if !(('a' <= c && c <= 'z') || ('A' <= c && c <= 'Z') || ('0' <= c && c <= '9') || c == '.'
            || c == '-') {
            proof {
                assert(v@.subrange(a as int, b as int)[i - a] == c);
            }
            return false;
        }
        i += 1;
    }
    proof {
        assert forall|j: int| 0 <= j < b - a implies is_id_char(
            #[trigger] v@.subrange(a as int, b as int)[j],
        ) by {
            assert(v@.subrange(a as int, b as int)[j] == v@[a + j]);
        }
    }
    true
}

/// Reads the format list that `yt-dlp -F` prints.
pub fn parse_formats(raw: &str) -> (r: Vec<FormatEntry>)
    ensures
        entries_view(r@) == format_entries(lines(raw@)),
{
    let v = to_chars(raw);
    let open_bracket = to_chars("[");
    let id_header = to_chars("ID");
    let dash = to_chars("-");
    let rs = line_ranges(&v);
    let ghost ls = lines(v@);
    let mut out: Vec<FormatEntry> = Vec::new();
    let mut k: usize = 0;
    while k < rs.len()
        invariant
            v@ == raw@,
            open_bracket@ == "["@,
            id_header@ == "ID"@,
            dash@ == "-"@,
            ls == lines(v@),
            ranges_view(v@, rs@) == ls,
            forall|j: int| 0 <= j < rs@.len() ==> #[trigger] rs@[j].0 <= rs@[j].1 <= v@.len(),
            k <= rs@.len(),
            entries_view(out@) == format_entries(ls.take(k as int)),
        decreases rs.len() - k,
    {
        let (a, b) = rs[k];
        let ghost line = ls[k as int];
        proof {
            assert(line == range_view(v@, rs@[k as int]));
            assert(ls.take(k + 1).drop_last() =~= ls.take(k as int));
            assert(ls.take(k + 1).last() == line);
        }
        let (ta, tb) = trim_range(&v, a, b);
        if ta == tb || starts_with_at(&v, ta, tb, &open_bracket) || starts_with_at(
            &v,
            ta,
            tb,
            &id_header,
        ) || starts_with_at(&v, ta, tb, &dash) {
            k += 1;
            continue ;
        }
        let toks = token_ranges(&v, ta, tb);
        if toks.len() == 0 {
            k += 1;
            continue ;
        }
        let (x, y) = toks[0];
        proof {
            assert(split_ws(trim(line))[0] == v@.subrange(x as int, y as int));
        }
        if !id_chars_in(&v, x, y) {
            k += 1;
            continue ;
        }
        let entry = FormatEntry { id: string_of(&v, x, y), description: string_of(&v, ta, tb) };
        out.push(entry);
        proof {
            assert(entries_view(out@) =~= format_entries(ls.take(k as int)).push(
                (v@.subrange(x as int, y as int), v@.subrange(ta as int, tb as int)),
            ));
        }
        k += 1;
    }
    proof {
        assert(ls.take(rs@.len() as int) =~= ls);
    }
    out
}

// ---------------------------------------------------------------------------
// Format selectors
pub open spec fn video_selector_spec(q: QualityPreset) -> Seq<char> {
    match q {
        QualityPreset::Best => "bestvideo[ext=mp4]+bestaudio[ext=m4a]/best[ext=mp4]/bestvideo+bestaudio/best"@,
        QualityPreset::P1080 => "bestvideo[height<=1080][ext=mp4]+bestaudio[ext=m4a]/best[height<=1080][ext=mp4]/bestvideo[height<=1080]+bestaudio/best[height<=1080]"@,
        QualityPreset::P720 => "bestvideo[height<=720][ext=mp4]+bestaudio[ext=m4a]/best[height<=720][ext=mp4]/bestvideo[height<=720]+bestaudio/best[height<=720]"@,
        QualityPreset::P480 => "bestvideo[height<=480][ext=mp4]+bestaudio[ext=m4a]/best[height<=480][ext=mp4]/bestvideo[height<=480]+bestaudio/best[height<=480]"@,
        QualityPreset::Worst => "worst[ext=mp4]/worstvideo+worstaudio/worst"@,
    }
}

/// The yt-dlp `-f` selector for a video download of the given quality.
pub fn video_selector(quality: &QualityPreset) -> (r: &'static str)
    ensures
        r@ == video_selector_spec(*quality),
{
    match quality {
        QualityPreset::Best => {
            "bestvideo[ext=mp4]+bestaudio[ext=m4a]/best[ext=mp4]/bestvideo+bestaudio/best"
        },
        QualityPreset::P1080 => {
            "bestvideo[height<=1080][ext=mp4]+bestaudio[ext=m4a]/best[height<=1080][ext=mp4]/bestvideo[height<=1080]+bestaudio/best[height<=1080]"
        },
        QualityPreset::P720 => {
            "bestvideo[height<=720][ext=mp4]+bestaudio[ext=m4a]/best[height<=720][ext=mp4]/bestvideo[height<=720]+bestaudio/best[height<=720]"
        },
        QualityPreset::P480 => {
            "bestvideo[height<=480][ext=mp4]+bestaudio[ext=m4a]/best[height<=480][ext=mp4]/bestvideo[height<=480]+bestaudio/best[height<=480]"
        },
        QualityPreset::Worst => "worst[ext=mp4]/worstvideo+worstaudio/worst",
    }
}

pub open spec fn audio_quality_spec(q: QualityPreset) -> Seq<char> {
    match q {
        QualityPreset::Best => "0"@,
        QualityPreset::P1080 => "2"@,
        QualityPreset::P720 => "4"@,
        QualityPreset::P480 => "6"@,
        QualityPreset::Worst => "9"@,
    }
}

/// The yt-dlp `--audio-quality` value (0 best .. 9 worst) for a preset.
pub fn audio_quality(quality: &QualityPreset) -> (r: &'static str)
    ensures
        r@ == audio_quality_spec(*quality),
{
    match quality {
        QualityPreset::Best => "0",
        QualityPreset::P1080 => "2",
        QualityPreset::P720 => "4",
        QualityPreset::P480 => "6",
        QualityPreset::Worst => "9",
    }
}


// ---------------------------------------------------------------------------
// Paths and the helper-tool command prefix
pub open spec fn is_sep(c: char) -> bool {
    c == '\\' || c == '/'
}

pub open spec fn is_ascii_letter(c: char) -> bool {
    ('a' <= c && c <= 'z') || ('A' <= c && c <= 'Z')
}

/// A bare drive such as `C:`, which a component joins onto directly.
pub open spec fn is_bare_drive(base: Seq<char>) -> bool {
    base.len() == 2 && is_ascii_letter(base[0]) && base[1] == ':'
}

/// Joins a relative component onto a directory the way Windows paths join:
/// nothing is inserted after an empty base, a bare drive or a base that
/// ends in a separator, else a backslash is.
pub open spec fn join_path(base: Seq<char>, part: Seq<char>) -> Seq<char> {
    if base.len() == 0 || is_bare_drive(base) {
        base + part
    } else if is_sep(base.last()) {
        base + part
    } else {
        base + seq!['\\'] + part
    }
}

pub fn join_path_str(base: &str, part: &str) -> (r: String)
    ensures
        r@ == join_path(base@, part@),
{
    let bv = to_chars(base);
    let mut r = base.to_owned();
    let n = bv.len();
    let bare_drive = n == 2 && (('a' <= bv[0] && bv[0] <= 'z') || ('A' <= bv[0] && bv[0] <= 'Z'))
        && bv[1] == ':';
    if n > 0 && !bare_drive && bv[n - 1] != '\\' && bv[n - 1] != '/' {
        push_char(&mut r, '\\');
    }
    r.append(part);
    proof {
        if base@.len() > 0 && !is_bare_drive(base@) && !is_sep(base@.last()) {
            assert(r@ =~= base@ + seq!['\\'] + part@);
        } else {
            assert(r@ =~= base@ + part@);
        }
    }
    r
}

pub open spec fn strings_view(v: Seq<String>) -> Seq<Seq<char>> {
    v.map_values(|s: String| s@)
}

pub open spec fn opt_string_view(o: Option<String>) -> Option<Seq<char>> {
    match o {
        Some(s) => Some(s@),
        None => None,
    }
}

/// The places where a Deno runtime may sit inside the tools folder, in the
/// order they are tried.
pub open spec fn deno_candidates(lib_dir: Seq<char>) -> Seq<Seq<char>> {
    seq![
        join_path(lib_dir, "deno.exe"@),
        join_path(join_path(lib_dir, "bin"@), "deno.exe"@),
        join_path(join_path(join_path(lib_dir, "deno"@), "bin"@), "deno.exe"@),
    ]
}

/// The first candidate whose flag is set.
pub open spec fn first_marked(cands: Seq<Seq<char>>, flags: Seq<bool>) -> Option<Seq<char>>
    decreases cands.len(),
{
    if cands.len() == 0 || flags.len() == 0 {
        None
    } else if flags[0] {
        Some(cands[0])
    } else {
        first_marked(cands.drop_first(), flags.drop_first())
    }
}

/// `std::path::Path::is_file`: whether a regular file is found at `path`.
/// The answer depends on the disk, so nothing is stated of it.
#[verifier::external_body]
pub(crate) fn path_is_file(path: &str) -> bool {
    std::path::Path::new(path).is_file()
}

proof fn lemma_first_marked_of_three(c: Seq<Seq<char>>, f0: bool, f1: bool, f2: bool)
    requires
        c.len() == 3,
    ensures
        first_marked(c, seq![f0, f1, f2]) == (if f0 {
            Some(c[0])
        } else if f1 {
            Some(c[1])
        } else if f2 {
            Some(c[2])
        } else {
            None
        }),
{
    reveal_with_fuel(first_marked, 4);
    let f = seq![f0, f1, f2];
    assert(f[0] == f0 && f[1] == f1 && f[2] == f2);
    assert(f.drop_first() =~= seq![f1, f2]);
    assert(f.drop_first().drop_first() =~= seq![f2]);
    assert(f.drop_first().drop_first().drop_first() =~= Seq::<bool>::empty());
    assert(c.drop_first()[0] == c[1]);
    assert(c.drop_first().drop_first()[0] == c[2]);
    assert(first_marked(c.drop_first().drop_first().drop_first(), f.drop_first().drop_first().drop_first()) is None);
}

/// The first of `deno_candidates` whose flag is set.
pub open spec fn deno_choice(lib_dir: Seq<char>, f0: bool, f1: bool, f2: bool) -> Option<Seq<char>> {
    first_marked(deno_candidates(lib_dir), seq![f0, f1, f2])
}

/// The Deno runtime to use, given which of `deno_candidates` are files:
/// the first candidate that is.
pub fn deno_given(lib_dir: &str, f0: bool, f1: bool, f2: bool) -> (r: Option<String>)
    ensures
        opt_string_view(r) == first_marked(deno_candidates(lib_dir@), seq![f0, f1, f2]),
{
    let ghost cands = deno_candidates(lib_dir@);
    proof {
        lemma_first_marked_of_three(cands, f0, f1, f2);
    }
    if f0 {
        Some(join_path_str(lib_dir, "deno.exe"))
    } else if f1 {
        let bin = join_path_str(lib_dir, "bin");
        Some(join_path_str(bin.as_str(), "deno.exe"))
    } else if f2 {
        let deno = join_path_str(lib_dir, "deno");
        let deno_bin = join_path_str(deno.as_str(), "bin");
        Some(join_path_str(deno_bin.as_str(), "deno.exe"))
    } else {
        None
    }
}

/// Looks for a Deno runtime in the tools folder: probes `deno_candidates`
/// in order, stopping at the first that is a file, which is the result.
/// Which files exist is up to the disk, so the result is stated for
/// whatever the probes found.
pub fn find_deno_in_lib(lib_dir: &str) -> (r: Option<String>)
    ensures
        exists|f0: bool, f1: bool, f2: bool|
            opt_string_view(r) == #[trigger] deno_choice(lib_dir@, f0, f1, f2),
{
    let c0 = join_path_str(lib_dir, "deno.exe");
    let bin = join_path_str(lib_dir, "bin");
    let c1 = join_path_str(bin.as_str(), "deno.exe");
    let deno = join_path_str(lib_dir, "deno");
    let deno_bin = join_path_str(deno.as_str(), "bin");
    let c2 = join_path_str(deno_bin.as_str(), "deno.exe");
    let f0 = path_is_file(c0.as_str());
    let f1 = !f0 && path_is_file(c1.as_str());
    let f2 = !f0 && !f1 && path_is_file(c2.as_str());
    let r = deno_given(lib_dir, f0, f1, f2);
    assert(opt_string_view(r) == deno_choice(lib_dir@, f0, f1, f2));
    r
}

/// The arguments that tell yt-dlp where ffmpeg and (if present) Deno are.
pub open spec fn command_prefix_spec(lib_dir: Seq<char>, deno: Option<Seq<char>>) -> Seq<Seq<char>> {
    let base = seq!["--ffmpeg-location"@, lib_dir];
    match deno {
        Some(d) => base + seq!["--js-runtimes"@, "deno:"@ + d],
        None => base,
    }
}

/// The helper-tool arguments for a given Deno location.
pub fn command_prefix_with(lib_dir: &str, deno_path: Option<String>) -> (r: Vec<String>)
    ensures
        strings_view(r@) == command_prefix_spec(lib_dir@, opt_string_view(deno_path)),
{
    let mut args: Vec<String> = Vec::new();
    args.push("--ffmpeg-location".to_owned());
    args.push(lib_dir.to_owned());
    match deno_path {
        Some(d) => {
            args.push("--js-runtimes".to_owned());
            let mut runtime = "deno:".to_owned();
            runtime.append(d.as_str());
            args.push(runtime);
        },
        None => {},
    }
    assert(strings_view(args@) =~= command_prefix_spec(lib_dir@, opt_string_view(deno_path)));
    args
}

/// The helper-tool arguments that every yt-dlp run starts with.
pub fn tool_command_prefix(lib_dir: &str) -> (r: Vec<String>)
    ensures
        exists|f0: bool, f1: bool, f2: bool|
            strings_view(r@) == command_prefix_spec(
                lib_dir@,
                #[trigger] deno_choice(lib_dir@, f0, f1, f2),
            ),
{
    let deno = find_deno_in_lib(lib_dir);
    command_prefix_with(lib_dir, deno)
}


// ---------------------------------------------------------------------------
// Laws
/// What every format entry satisfies: a non-empty id of ASCII letters,
/// digits, `.` and `-`, that begins the description, which is a non-blank
/// line of the listing.
pub open spec fn entry_well_formed(e: (Seq<char>, Seq<char>)) -> bool {
    &&& e.0.len() > 0
    &&& all_id_chars(e.0)
    &&& e.1.len() > 0
    &&& starts_with(e.1, e.0)
}

proof fn lemma_entry_of_well_formed(line: Seq<char>)
    ensures
        format_entry_of(line) matches Some(e) ==> entry_well_formed(e),
{
    let t = trim(line);
    if let Some(e) = format_entry_of(line) {
        let ts = trim_start(line);
        lemma_span(line, CharClass::Whitespace);
        lemma_rspan(ts, CharClass::Whitespace);
        assert(t[0] == ts[0]);
        assert(ts[0] == line[span(line, CharClass::Whitespace) as int]);
        assert(!is_ws(t[0]));
        assert(span(t, CharClass::Whitespace) == 0);
        assert(trim_start(t) =~= t);
        lemma_span(t, CharClass::NotWhitespace);
        let k = span(t, CharClass::NotWhitespace);
        assert(k >= 1);
        assert(split_ws(t)[0] == t.take(k as int));
        assert(t.take(k as int).len() == k);
    }
}

proof fn lemma_entries_well_formed(ls: Seq<Seq<char>>)
    ensures
        forall|i: int|
            0 <= i < format_entries(ls).len() ==> entry_well_formed(#[trigger] format_entries(ls)[i]),
    decreases ls.len(),
{
    if ls.len() > 0 {
        lemma_entries_well_formed(ls.drop_last());
        lemma_entry_of_well_formed(ls.last());
        let init = format_entries(ls.drop_last());
        assert forall|i: int| 0 <= i < format_entries(ls).len() implies entry_well_formed(
            #[trigger] format_entries(ls)[i],
        ) by {
            if i < init.len() {
                assert(format_entries(ls)[i] == init[i]);
            }
        }
    }
}

/// Every entry that the format-list reader yields is well formed.
pub proof fn law_format_entries_well_formed(raw: Seq<char>)
    ensures
        forall|i: int|
            0 <= i < format_entries(lines(raw)).len() ==> entry_well_formed(
                #[trigger] format_entries(lines(raw))[i],
            ),
{
    lemma_entries_well_formed(lines(raw));
}

/// The reader yields at most one entry per line.
pub proof fn law_format_entries_at_most_one_per_line(ls: Seq<Seq<char>>)
    ensures
        format_entries(ls).len() <= ls.len(),
    decreases ls.len(),
{
    if ls.len() > 0 {
        law_format_entries_at_most_one_per_line(ls.drop_last());
    }
}

/// The helper-tool prefix always names the tools folder for ffmpeg first.
pub proof fn law_command_prefix_names_tools_folder(lib_dir: Seq<char>, deno: Option<Seq<char>>)
    ensures
        command_prefix_spec(lib_dir, deno).len() >= 2,
        command_prefix_spec(lib_dir, deno)[0] == "--ffmpeg-location"@,
        command_prefix_spec(lib_dir, deno)[1] == lib_dir,
{
}

proof fn lemma_format_entries_concat(x: Seq<Seq<char>>, y: Seq<Seq<char>>)
    ensures
        format_entries(x + y) == format_entries(x) + format_entries(y),
    decreases y.len(),
{
    if y.len() == 0 {
        assert(x + y =~= x);
        assert(format_entries(x) + format_entries(y) =~= format_entries(x));
    } else {
        assert((x + y).drop_last() =~= x + y.drop_last());
        assert((x + y).last() == y.last());
        lemma_format_entries_concat(x, y.drop_last());
        match format_entry_of(y.last()) {
            Some(e) => {
                assert(format_entries(x + y) =~= format_entries(x) + format_entries(y));
            },
            None => {},
        }
    }
}

/// Ending a listing with a line ending changes none of its entries.
proof fn lemma_format_entries_newline_end(a: Seq<char>)
    ensures
        format_entries(lines(a.push('\n'))) == format_entries(lines(a)),
{
    lemma_lines_newline_end(a);
    let ls = lines(a);
    let empty: Seq<char> = seq![];
    if lines(a.push('\n')) == ls.push(empty) {
        assert(ls.push(empty).drop_last() =~= ls);
        assert(trim(empty) =~= empty) by {
            lemma_span(empty, CharClass::Whitespace);
        }
    } else {
        let l = ls.last();
        let next = ls.drop_last().push(strip_cr(l));
        assert(next.drop_last() =~= ls.drop_last());
        lemma_trim_strip_cr(l);
        assert(format_entry_of(strip_cr(l)) == format_entry_of(l));
    }
}

/// Format listings may be read in parts: the entries of two texts joined by
/// a line ending are those of the first followed by those of the second.
pub proof fn law_format_entries_join(a: Seq<char>, b: Seq<char>)
    ensures
        format_entries(lines(a.push('\n') + b)) == format_entries(lines(a)) + format_entries(lines(b)),
{
    lemma_lines_concat(a, b);
    lemma_format_entries_concat(lines(a.push('\n')), lines(b));
    lemma_format_entries_newline_end(a);
}

/// The selector that caps the video height at `h` lines: every alternative
/// carries `[height<=h]`, and the MP4/M4A pair is preferred.
pub open spec fn height_capped_selector(h: Seq<char>) -> Seq<char> {
    "bestvideo[height<="@ + h + "][ext=mp4]+bestaudio[ext=m4a]/best[height<="@ + h
        + "][ext=mp4]/bestvideo[height<="@ + h + "]+bestaudio/best[height<="@ + h + "]"@
}

proof fn lemma_label_height(label: Seq<char>, x: Seq<char>, n: Seq<char>)
    requires
        label == "Up to "@ + n + "p"@,
        label == "Up to "@ + x + "p"@,
    ensures
        x == n,
{
    reveal_strlit("Up to ");
    reveal_strlit("p");
    let a = "Up to "@;
    let b = "p"@;
    assert(a.len() == 6);
    assert((a + n + b).len() == a.len() + n.len() + b.len());
    assert((a + x + b).len() == a.len() + x.len() + b.len());
    assert(x.len() == n.len());
    assert forall|i: int| 0 <= i < x.len() implies x[i] == n[i] by {
        assert((a + x + b)[6 + i] == (a + x)[6 + i]);
        assert((a + n + b)[6 + i] == (a + n)[6 + i]);
        assert(label[6 + i] == x[i]);
        assert(label[6 + i] == n[i]);
    }
    assert(x =~= n);
}

/// A preset labelled `Up to <h>p` selects video of at most `h` lines, in
/// every alternative of its selector.
pub proof fn law_selector_honours_label(q: QualityPreset, h: nat)
    requires
        q.label_spec() == "Up to "@ + decimal(h) + "p"@,
    ensures
        video_selector_spec(q) == height_capped_selector(decimal(h)),
{
    reveal_strlit("Up to ");
    reveal_strlit("p");
    reveal_strlit("Best available quality");
    reveal_strlit("Lowest quality");
    reveal_strlit("Up to 1080p");
    reveal_strlit("Up to 720p");
    reveal_strlit("Up to 480p");
    reveal_strlit("1080");
    reveal_strlit("720");
    reveal_strlit("480");
    let l = q.label_spec();
    match q {
        QualityPreset::Best => {
            assert(l[0] == 'B');
            assert(("Up to "@ + decimal(h) + "p"@)[0] == 'U');
        },
        QualityPreset::Worst => {
            assert(l[0] == 'L');
            assert(("Up to "@ + decimal(h) + "p"@)[0] == 'U');
        },
        QualityPreset::P1080 => {
            assert(l =~= "Up to "@ + "1080"@ + "p"@);
            lemma_label_height(l, decimal(h), "1080"@);
            reveal_strlit("bestvideo[height<=1080][ext=mp4]+bestaudio[ext=m4a]/best[height<=1080][ext=mp4]/bestvideo[height<=1080]+bestaudio/best[height<=1080]");
            reveal_strlit("bestvideo[height<=");
            reveal_strlit("][ext=mp4]+bestaudio[ext=m4a]/best[height<=");
            reveal_strlit("][ext=mp4]/bestvideo[height<=");
            reveal_strlit("]+bestaudio/best[height<=");
            reveal_strlit("]");
            assert(video_selector_spec(q) =~= height_capped_selector("1080"@));
        },
        QualityPreset::P720 => {
            assert(l =~= "Up to "@ + "720"@ + "p"@);
            lemma_label_height(l, decimal(h), "720"@);
            reveal_strlit("bestvideo[height<=720][ext=mp4]+bestaudio[ext=m4a]/best[height<=720][ext=mp4]/bestvideo[height<=720]+bestaudio/best[height<=720]");
            reveal_strlit("bestvideo[height<=");
            reveal_strlit("][ext=mp4]+bestaudio[ext=m4a]/best[height<=");
            reveal_strlit("][ext=mp4]/bestvideo[height<=");
            reveal_strlit("]+bestaudio/best[height<=");
            reveal_strlit("]");
            assert(video_selector_spec(q) =~= height_capped_selector("720"@));
        },
        QualityPreset::P480 => {
            assert(l =~= "Up to "@ + "480"@ + "p"@);
            lemma_label_height(l, decimal(h), "480"@);
            reveal_strlit("bestvideo[height<=480][ext=mp4]+bestaudio[ext=m4a]/best[height<=480][ext=mp4]/bestvideo[height<=480]+bestaudio/best[height<=480]");
            reveal_strlit("bestvideo[height<=");
            reveal_strlit("][ext=mp4]+bestaudio[ext=m4a]/best[height<=");
            reveal_strlit("][ext=mp4]/bestvideo[height<=");
            reveal_strlit("]+bestaudio/best[height<=");
            reveal_strlit("]");
            assert(video_selector_spec(q) =~= height_capped_selector("480"@));
        },
    }
}

/// The height-limited presets are labelled with their heights: 1080, 720
/// and 480 lines.
pub proof fn law_height_presets_labelled()
    ensures
        QualityPreset::P1080.label_spec() == "Up to "@ + decimal(1080) + "p"@,
        QualityPreset::P720.label_spec() == "Up to "@ + decimal(720) + "p"@,
        QualityPreset::P480.label_spec() == "Up to "@ + decimal(480) + "p"@,
{
    reveal_strlit("Up to ");
    reveal_strlit("p");
    reveal_strlit("Up to 1080p");
    reveal_strlit("Up to 720p");
    reveal_strlit("Up to 480p");
    reveal_with_fuel(decimal, 5);
    assert(decimal(1080) =~= seq!['1', '0', '8', '0']);
    assert(decimal(720) =~= seq!['7', '2', '0']);
    assert(decimal(480) =~= seq!['4', '8', '0']);
    assert(QualityPreset::P1080.label_spec() =~= "Up to "@ + decimal(1080) + "p"@);
    assert(QualityPreset::P720.label_spec() =~= "Up to "@ + decimal(720) + "p"@);
    assert(QualityPreset::P480.label_spec() =~= "Up to "@ + decimal(480) + "p"@);
}

} // verus!
