//! Download progress as read from yt-dlp's console output.
//!
//! The completed fraction is kept in ten-thousandths of the whole
//! (`0..=10000`, so `4530` is 45.30 %).
use vstd::prelude::*;
use crate::decimal::{parse_percent_basis_points, percent_basis_points};
use crate::text::{
    lemma_lines_concat, lemma_lines_newline_end, lemma_span, lemma_trim_strip_cr, strip_cr,
    CharClass, contains, find, find_in, lemma_find_from, line_ranges, occurs_at, lines, range_equals,
    range_view, ranges_view, split_ws, starts_with, starts_with_at, string_of, to_chars,
    token_ranges, trim, trim_range,
};

verus! {

broadcast use vstd::string::group_string_axioms;

#[derive(Clone, Copy, Debug, PartialEq, Eq, Structural)]
pub enum ProgressPhase {
    Idle,
    Preparing,
    Downloading,
    PostProcessing,
    Finished,
    Canceled,
    Failed,
}

impl Default for ProgressPhase {
    fn default() -> (r: Self)
        ensures
            r == ProgressPhase::Idle,
    {
        ProgressPhase::Idle
    }
}

#[derive(Clone, Debug)]
pub struct DownloadProgress {
    /// Completed fraction in ten-thousandths of the whole.
    pub percent: Option<u32>,
    pub speed: Option<String>,
    pub eta: Option<String>,
    pub current_file: Option<String>,
    pub phase: ProgressPhase,
}

/// The abstract state of a `DownloadProgress`.
pub struct ProgressModel {
    pub percent: Option<nat>,
    pub speed: Option<Seq<char>>,
    pub eta: Option<Seq<char>>,
    pub current_file: Option<Seq<char>>,
    pub phase: ProgressPhase,
}

pub open spec fn opt_view(o: Option<String>) -> Option<Seq<char>> {
    match o {
        Some(s) => Some(s@),
        None => None,
    }
}

impl View for DownloadProgress {
    type V = ProgressModel;

    open spec fn view(&self) -> ProgressModel {
        ProgressModel {
            percent: match self.percent {
                Some(p) => Some(p as nat),
                None => None,
            },
            speed: opt_view(self.speed),
            eta: opt_view(self.eta),
            current_file: opt_view(self.current_file),
            phase: self.phase,
        }
    }
}

pub open spec fn idle_model() -> ProgressModel {
    ProgressModel { percent: None, speed: None, eta: None, current_file: None, phase: ProgressPhase::Idle }
}

pub open spec fn pat_destination_line() -> Seq<char> {
    "[download] Destination:"@
}

pub open spec fn pat_download_space() -> Seq<char> {
    "[download] "@
}

pub open spec fn pat_destination() -> Seq<char> {
    "Destination:"@
}

pub open spec fn pat_download() -> Seq<char> {
    "[download]"@
}

pub open spec fn pat_merger() -> Seq<char> {
    "[Merger]"@
}

pub open spec fn pat_metadata() -> Seq<char> {
    "[Metadata]"@
}

pub open spec fn pat_embed_thumbnail() -> Seq<char> {
    "[EmbedThumbnail]"@
}

pub open spec fn pat_already() -> Seq<char> {
    "has already been downloaded"@
}

pub open spec fn pat_at() -> Seq<char> {
    "at"@
}

pub open spec fn pat_eta() -> Seq<char> {
    "ETA"@
}

/// The second piece of `line` split at `pat`: the text between the first
/// occurrence of `pat` and the next one (or the end).
pub open spec fn second_piece(line: Seq<char>, pat: Seq<char>) -> Seq<char> {
    let k = find(line, pat)->0;
    let rest = line.skip(k + pat.len());
    match find(rest, pat) {
        Some(j) => rest.take(j),
        None => rest,
    }
}

/// The percentage that the first token of a download line states, if it
/// is a number followed by `%`.
pub open spec fn percent_of_tokens(toks: Seq<Seq<char>>) -> Option<nat> {
    if toks.len() > 0 && toks[0].len() > 0 && toks[0].last() == '%' {
        percent_basis_points(toks[0].drop_last())
    } else {
        None
    }
}

/// One adjacent pair of tokens: `at <speed>` or `ETA <eta>`.
pub open spec fn apply_pair(m: ProgressModel, a: Seq<char>, b: Seq<char>) -> ProgressModel {
    if a == pat_at() {
        ProgressModel { speed: Some(b), ..m }
    } else if a == pat_eta() {
        ProgressModel { eta: Some(b), ..m }
    } else {
        m
    }
}

/// All adjacent pairs of `toks` from position `i` on, in order.
pub open spec fn apply_pairs(m: ProgressModel, toks: Seq<Seq<char>>, i: int) -> ProgressModel
    decreases toks.len() - i,
{
    if i < 0 || i + 1 >= toks.len() {
        m
    } else {
        apply_pairs(apply_pair(m, toks[i], toks[i + 1]), toks, i + 1)
    }
}

/// The effect of one (trimmed) output line on the progress.
pub open spec fn step(m: ProgressModel, line: Seq<char>) -> ProgressModel {
    if line.len() == 0 {
        m
    } else if contains(line, pat_destination_line()) || (contains(line, pat_download_space())
        && contains(line, pat_destination())) {
        ProgressModel {
            phase: ProgressPhase::Preparing,
            current_file: Some(trim(second_piece(line, pat_destination()))),
            ..m
        }
    } else if starts_with(line, pat_download()) {
        let toks = split_ws(trim(line.skip(pat_download().len() as int)));
        let m1 = match percent_of_tokens(toks) {
            Some(p) => ProgressModel { percent: Some(p), ..m },
            None => m,
        };
        apply_pairs(ProgressModel { phase: ProgressPhase::Downloading, ..m1 }, toks, 0)
    } else if starts_with(line, pat_merger()) || starts_with(line, pat_metadata()) || starts_with(
        line,
        pat_embed_thumbnail(),
    ) {
        ProgressModel { phase: ProgressPhase::PostProcessing, ..m }
    } else if contains(line, pat_already()) {
        ProgressModel { phase: ProgressPhase::Finished, percent: Some(10000), ..m }
    } else {
        m
    }
}

/// The effect of a sequence of lines, each trimmed first, in order.
pub open spec fn steps(m: ProgressModel, ls: Seq<Seq<char>>) -> ProgressModel
    decreases ls.len(),
{
    if ls.len() == 0 {
        m
    } else {
        steps(step(m, trim(ls[0])), ls.drop_first())
    }
}

/// The effect of a chunk of output on the progress.
pub open spec fn apply_chunk(m: ProgressModel, chunk: Seq<char>) -> ProgressModel {
    steps(m, lines(chunk))
}

pub open spec fn phase_label(p: ProgressPhase) -> Seq<char> {
    match p {
        ProgressPhase::Idle => "Idle"@,
        ProgressPhase::Preparing => "Preparing"@,
        ProgressPhase::Downloading => "Downloading"@,
        ProgressPhase::PostProcessing => "Post-processing"@,
        ProgressPhase::Finished => "Finished"@,
        ProgressPhase::Canceled => "Canceled"@,
        ProgressPhase::Failed => "Failed"@,
    }
}

/// The fixed texts that the line reader looks for, as characters.
struct Patterns {
    destination_line: Vec<char>,
    download_space: Vec<char>,
    destination: Vec<char>,
    download: Vec<char>,
    merger: Vec<char>,
    metadata: Vec<char>,
    embed_thumbnail: Vec<char>,
    already: Vec<char>,
    at: Vec<char>,
    eta: Vec<char>,
}

impl Patterns {
    spec fn wf(&self) -> bool {
        &&& self.destination_line@ == pat_destination_line()
        &&& self.download_space@ == pat_download_space()
        &&& self.destination@ == pat_destination()
        &&& self.download@ == pat_download()
        &&& self.merger@ == pat_merger()
        &&& self.metadata@ == pat_metadata()
        &&& self.embed_thumbnail@ == pat_embed_thumbnail()
        &&& self.already@ == pat_already()
        &&& self.at@ == pat_at()
        &&& self.eta@ == pat_eta()
    }

    fn new() -> (p: Self)
        ensures
            p.wf(),
    {
        Patterns {
            destination_line: to_chars("[download] Destination:"),
            download_space: to_chars("[download] "),
            destination: to_chars("Destination:"),
            download: to_chars("[download]"),
            merger: to_chars("[Merger]"),
            metadata: to_chars("[Metadata]"),
            embed_thumbnail: to_chars("[EmbedThumbnail]"),
            already: to_chars("has already been downloaded"),
            at: to_chars("at"),
            eta: to_chars("ETA"),
        }
    }
}

impl Default for DownloadProgress {
    fn default() -> (r: Self)
        ensures
            r@ == idle_model(),
    {
        DownloadProgress { percent: None, speed: None, eta: None, current_file: None, phase: ProgressPhase::Idle }
    }
}

impl DownloadProgress {
    /// Back to the idle state with nothing known.
    pub fn reset(&mut self)
        ensures
            final(self)@ == idle_model(),
    {
        *self = Self::default();
    }

    /// Reads a chunk of yt-dlp output: each of its lines, trimmed, in order.
    pub fn update_from_chunk(&mut self, chunk: &str)
        ensures
            final(self)@ == apply_chunk(old(self)@, chunk@),
    {
        let v = to_chars(chunk);
        let pats = Patterns::new();
        let rs = line_ranges(&v);
        let ghost ls = lines(v@);
        let ghost m0 = self@;
        let mut k: usize = 0;
        assert(ls.skip(0) =~= ls);
        while k < rs.len()
            invariant
                pats.wf(),
                v@ == chunk@,
                ls == lines(v@),
                ranges_view(v@, rs@) == ls,
                forall|j: int| 0 <= j < rs@.len() ==> #[trigger] rs@[j].0 <= rs@[j].1 <= v@.len(),
                k <= rs@.len(),
                steps(m0, ls) == steps(self@, ls.skip(k as int)),
            decreases rs.len() - k,
        {
            let (a, b) = rs[k];
            let (ta, tb) = trim_range(&v, a, b);
            proof {
                assert(ls[k as int] == range_view(v@, rs@[k as int]));
                lemma_steps_unfold(self@, ls, k as int);
            }
            self.update_from_line(&pats, &v, ta, tb);
            k += 1;
        }
        proof {
            assert(ls.skip(rs@.len() as int) =~= Seq::<Seq<char>>::empty());
        }
    }

    pub fn label(&self) -> (r: &'static str)
        ensures
            r@ == phase_label(self.phase),
    {
        match self.phase {
            ProgressPhase::Idle => "Idle",
            ProgressPhase::Preparing => "Preparing",
            ProgressPhase::Downloading => "Downloading",
            ProgressPhase::PostProcessing => "Post-processing",
            ProgressPhase::Finished => "Finished",
            ProgressPhase::Canceled => "Canceled",
            ProgressPhase::Failed => "Failed",
        }
    }

    /// Reads one line, the characters of `v` in `[a, b)`.
    fn update_from_line(&mut self, pats: &Patterns, v: &Vec<char>, a: usize, b: usize)
        requires
            pats.wf(),
            a <= b <= v@.len(),
        ensures
            final(self)@ == step(old(self)@, v@.subrange(a as int, b as int)),
    {
        let ghost line = v@.subrange(a as int, b as int);
        if a == b {
            return;
        }
        let has_full = find_in(v, a, b, &pats.destination_line).is_some();
        let has_tag = find_in(v, a, b, &pats.download_space).is_some();
        let dest = find_in(v, a, b, &pats.destination);
        if has_full || (has_tag && dest.is_some()) {
            proof {
                if has_full {
                    lemma_destination_in_full_line(line);
                }
                lemma_find_from(line, pat_destination(), 0);
            }
            let k = match dest {
                Some(k) => k,
                None => a,
            };
            let rest_start = k + pats.destination.len();
            let next = find_in(v, rest_start, b, &pats.destination);
            let piece_end = match next {
                Some(j) => j,
                None => b,
            };
            proof {
                let kk = find(line, pat_destination())->0;
                let rest = line.skip(kk + pat_destination().len());
                assert(rest =~= v@.subrange(rest_start as int, b as int));
                lemma_find_from(rest, pat_destination(), 0);
                assert(second_piece(line, pat_destination()) =~= v@.subrange(
                    rest_start as int,
                    piece_end as int,
                ));
            }
            let (fa, fb) = trim_range(v, rest_start, piece_end);
            self.phase = ProgressPhase::Preparing;
            self.current_file = Some(string_of(v, fa, fb));
            return;
        }
        if starts_with_at(v, a, b, &pats.download) {
            let after = a + pats.download.len();
            proof {
                assert(line.skip(pat_download().len() as int) =~= v@.subrange(after as int, b as int));
            }
            let (ra, rb) = trim_range(v, after, b);
            let toks = token_ranges(v, ra, rb);
            let ghost ts = split_ws(v@.subrange(ra as int, rb as int));
            let ghost m = self@;
            if toks.len() > 0 {
                let (x, y) = toks[0];
                proof {
                    assert(ts[0] == v@.subrange(x as int, y as int));
                }
                if y > x && v[y - 1] == '%' {
                    proof {
                        assert(ts[0].drop_last() =~= v@.subrange(x as int, y - 1));
                    }
                    match parse_percent_basis_points(v, x, y - 1) {
                        Some(p) => {
                            self.percent = Some(p);
                        },
                        None => {},
                    }
                }
            }
            self.phase = ProgressPhase::Downloading;
            let mut i: usize = 0;
            while toks.len() > 0 && i < toks.len() - 1
                invariant
                    pats.wf(),
                    a <= b <= v@.len(),
                    ranges_view(v@, toks@) == ts,
                    forall|j: int| 0 <= j < toks@.len() ==> #[trigger] toks@[j].0 <= toks@[j].1 <= v@.len(),
                    i < toks@.len() || toks@.len() == 0,
                    apply_pairs(
                        ProgressModel {
                            phase: ProgressPhase::Downloading,
                            ..match percent_of_tokens(ts) {
                                Some(p) => ProgressModel { percent: Some(p), ..m },
                                None => m,
                            }
                        },
                        ts,
                        0,
                    ) == apply_pairs(self@, ts, i as int),
                decreases toks.len() - i,
            {
                let (x0, y0) = toks[i];
                let (x1, y1) = toks[i + 1];
                proof {
                    assert(ts[i as int] == v@.subrange(x0 as int, y0 as int));
                    assert(ts[i + 1] == v@.subrange(x1 as int, y1 as int));
                }
                if range_equals(v, x0, y0, &pats.at) {
                    self.speed = Some(string_of(v, x1, y1));
                } else if range_equals(v, x0, y0, &pats.eta) {
                    self.eta = Some(string_of(v, x1, y1));
                }
                i += 1;
            }
            return;
        }
        if starts_with_at(v, a, b, &pats.merger) || starts_with_at(v, a, b, &pats.metadata)
            || starts_with_at(v, a, b, &pats.embed_thumbnail) {
            self.phase = ProgressPhase::PostProcessing;
            return;
        }
        if find_in(v, a, b, &pats.already).is_some() {
            self.phase = ProgressPhase::Finished;
            self.percent = Some(10000);
            return;
        }
    }
}

proof fn lemma_steps_unfold(m: ProgressModel, ls: Seq<Seq<char>>, k: int)
    requires
        0 <= k < ls.len(),
    ensures
        steps(m, ls.skip(k)) == steps(step(m, trim(ls[k])), ls.skip(k + 1)),
{
    assert(ls.skip(k).drop_first() =~= ls.skip(k + 1));
    assert(ls.skip(k)[0] == ls[k]);
}

/// A line that holds `[download] Destination:` holds `Destination:`.
proof fn lemma_destination_in_full_line(line: Seq<char>)
    requires
        contains(line, pat_destination_line()),
    ensures
        contains(line, pat_destination()),
{
    reveal_strlit("[download] Destination:");
    reveal_strlit("Destination:");
    lemma_find_from(line, pat_destination_line(), 0);
    let k = find(line, pat_destination_line())->0;
    let full = line.subrange(k, k + 23);
    assert(full == pat_destination_line());
    assert forall|j: int| 0 <= j < 12 implies #[trigger] line.subrange(k + 11, k + 23)[j]
        == pat_destination()[j] by {
        assert(line.subrange(k + 11, k + 23)[j] == full[11 + j]);
    }
    assert(line.subrange(k + 11, k + 23) =~= pat_destination());
    assert(occurs_at(line, pat_destination(), k + 11));
    lemma_find_from(line, pat_destination(), 0);
}


// ---------------------------------------------------------------------------
// Laws
proof fn lemma_steps_concat(m: ProgressModel, a: Seq<Seq<char>>, b: Seq<Seq<char>>)
    ensures
        steps(m, a + b) == steps(steps(m, a), b),
    decreases a.len(),
{
    if a.len() == 0 {
        assert(a + b =~= b);
    } else {
        assert((a + b)[0] == a[0]);
        assert((a + b).drop_first() =~= a.drop_first() + b);
        lemma_steps_concat(step(m, trim(a[0])), a.drop_first(), b);
    }
}

/// Output may arrive in chunks: reading a chunk that ends a line and then
/// the next chunk has the same effect as reading the two as one.
pub proof fn law_progress_chunks_compose(m: ProgressModel, first: Seq<char>, second: Seq<char>)
    ensures
        apply_chunk(apply_chunk(m, first.push('\n')), second) == apply_chunk(
            m,
            first.push('\n') + second,
        ),
{
    lemma_lines_concat(first, second);
    lemma_steps_concat(m, lines(first.push('\n')), lines(second));
}

proof fn lemma_steps_single(m: ProgressModel, l: Seq<char>)
    ensures
        steps(m, seq![l]) == step(m, trim(l)),
{
    let one = seq![l];
    assert(one.drop_first() =~= Seq::<Seq<char>>::empty());
    assert(one[0] == l);
    assert(steps(m, one) == steps(step(m, trim(one[0])), one.drop_first()));
    assert(steps(step(m, trim(l)), Seq::<Seq<char>>::empty()) == step(m, trim(l)));
}

/// Ending a chunk with a line ending changes nothing of its effect.
proof fn lemma_chunk_newline_end(m: ProgressModel, a: Seq<char>)
    ensures
        apply_chunk(m, a.push('\n')) == apply_chunk(m, a),
{
    lemma_lines_newline_end(a);
    let ls = lines(a);
    let empty: Seq<char> = seq![];
    if lines(a.push('\n')) == ls.push(empty) {
        assert(ls.push(empty) =~= ls + seq![empty]);
        lemma_steps_concat(m, ls, seq![empty]);
        lemma_steps_single(steps(m, ls), empty);
        lemma_span(empty, CharClass::Whitespace);
        assert(trim(empty) =~= empty);
    } else {
        let init = ls.drop_last();
        let l = ls.last();
        assert(ls =~= init + seq![l]);
        assert(lines(a.push('\n')) =~= init + seq![strip_cr(l)]);
        lemma_steps_concat(m, init, seq![l]);
        lemma_steps_concat(m, init, seq![strip_cr(l)]);
        lemma_steps_single(steps(m, init), l);
        lemma_steps_single(steps(m, init), strip_cr(l));
        lemma_trim_strip_cr(l);
    }
}

/// Output may arrive in chunks: reading one chunk and then the next has the
/// same effect as reading the two joined by a line ending, whether or not
/// the first ends its last line.
pub proof fn law_progress_chunks_split(m: ProgressModel, first: Seq<char>, second: Seq<char>)
    ensures
        apply_chunk(apply_chunk(m, first), second) == apply_chunk(m, first.push('\n') + second),
{
    law_progress_chunks_compose(m, first, second);
    lemma_chunk_newline_end(m, first);
}

pub open spec fn percent_in_range(m: ProgressModel) -> bool {
    m.percent matches Some(p) ==> p <= 10000
}

proof fn lemma_pairs_keep_percent(m: ProgressModel, toks: Seq<Seq<char>>, i: int)
    ensures
        apply_pairs(m, toks, i).percent == m.percent,
        apply_pairs(m, toks, i).phase == m.phase,
    decreases toks.len() - i,
{
    if i >= 0 && i + 1 < toks.len() {
        lemma_pairs_keep_percent(apply_pair(m, toks[i], toks[i + 1]), toks, i + 1);
    }
}

/// Reading one line never takes the completed fraction out of `0..=10000`.
pub proof fn law_line_percent_in_range(m: ProgressModel, line: Seq<char>)
    requires
        percent_in_range(m),
    ensures
        percent_in_range(step(m, line)),
{
    if line.len() > 0 && !(contains(line, pat_destination_line()) || (contains(
        line,
        pat_download_space(),
    ) && contains(line, pat_destination()))) && starts_with(line, pat_download()) {
        let toks = split_ws(trim(line.skip(pat_download().len() as int)));
        let m1 = match percent_of_tokens(toks) {
            Some(p) => ProgressModel { percent: Some(p), ..m },
            None => m,
        };
        lemma_pairs_keep_percent(ProgressModel { phase: ProgressPhase::Downloading, ..m1 }, toks, 0);
    }
}

/// The completed fraction never leaves `0..=10000`, whatever is read.
pub proof fn law_progress_percent_in_range(m: ProgressModel, chunk: Seq<char>)
    requires
        percent_in_range(m),
    ensures
        percent_in_range(apply_chunk(m, chunk)),
{
    lemma_steps_percent_in_range(m, lines(chunk));
}

proof fn lemma_steps_percent_in_range(m: ProgressModel, ls: Seq<Seq<char>>)
    requires
        percent_in_range(m),
    ensures
        percent_in_range(steps(m, ls)),
    decreases ls.len(),
{
    if ls.len() > 0 {
        law_line_percent_in_range(m, trim(ls[0]));
        lemma_steps_percent_in_range(step(m, trim(ls[0])), ls.drop_first());
    }
}

/// An empty chunk changes nothing.
pub proof fn law_progress_blank_chunk(m: ProgressModel)
    ensures
        apply_chunk(m, seq![]) == m,
{
}

/// A destination line names the file being written: the whole text after
/// `Destination:`, trimmed, spaces inside the name included.
pub proof fn law_destination_names_whole_file(m: ProgressModel, file: Seq<char>)
    requires
        !contains(file, "Destination:"@),
    ensures
        step(m, "[download] Destination:"@ + file) == (ProgressModel {
            phase: ProgressPhase::Preparing,
            current_file: Some(trim(file)),
            ..m
        }),
{
    reveal_strlit("[download] Destination:");
    reveal_strlit("Destination:");
    let d = pat_destination_line();
    let p = pat_destination();
    let line = d + file;
    assert(line.subrange(0, 23) =~= d);
    assert(occurs_at(line, d, 0));
    assert(find(line, d) == Some(0int));
    assert(line.subrange(11, 23) =~= p) by {
        assert forall|j: int| 0 <= j < 12 implies #[trigger] line.subrange(11, 23)[j] == p[j] by {
            assert(line.subrange(11, 23)[j] == d[11 + j]);
        }
    }
    assert(occurs_at(line, p, 11));
    assert forall|j: int| 0 <= j < 11 implies !occurs_at(line, p, j) by {
        if occurs_at(line, p, j) {
            assert(line.subrange(j, j + 12)[0] == p[0]);
            assert(line[j] == d[j]);
        }
    }
    lemma_find_from(line, p, 0);
    assert(find(line, p) == Some(11int));
    assert(line.skip(11int + p.len()) =~= file);
    lemma_find_from(file, p, 0);
    assert(second_piece(line, p) == file);
}

/// A `[Merger]`, `[Metadata]` or `[EmbedThumbnail]` line that is not a
/// destination line only moves the phase to post-processing.
pub proof fn law_post_processing_line(m: ProgressModel, line: Seq<char>)
    requires
        (starts_with(line, pat_merger()) || starts_with(line, pat_metadata()) || starts_with(
            line,
            pat_embed_thumbnail(),
        )),
        !(contains(line, pat_destination_line()) || (contains(line, pat_download_space())
            && contains(line, pat_destination()))),
    ensures
        step(m, line) == (ProgressModel { phase: ProgressPhase::PostProcessing, ..m }),
{
    reveal_strlit("[download]");
    reveal_strlit("[Merger]");
    reveal_strlit("[Metadata]");
    reveal_strlit("[EmbedThumbnail]");
    let t = if starts_with(line, pat_merger()) {
        pat_merger()
    } else if starts_with(line, pat_metadata()) {
        pat_metadata()
    } else {
        pat_embed_thumbnail()
    };
    assert(starts_with(line, t));
    assert(line[1] == line.take(t.len() as int)[1]);
    assert(line[1] != 'd');
    if starts_with(line, pat_download()) {
        assert(line[1] == line.take(10)[1]);
    }
}

/// A blank line, or one that is no destination, download, post-processing
/// or already-downloaded line, changes nothing.
pub proof fn law_unmatched_line_unchanged(m: ProgressModel, line: Seq<char>)
    requires
        line.len() == 0 || (!contains(line, pat_destination_line()) && !(contains(
            line,
            pat_download_space(),
        ) && contains(line, pat_destination())) && !starts_with(line, pat_download())
            && !starts_with(line, pat_merger()) && !starts_with(line, pat_metadata())
            && !starts_with(line, pat_embed_thumbnail()) && !contains(line, pat_already())),
    ensures
        step(m, line) == m,
{
}

} // verus!
