//! Converting one file to AIFF.
//!
//! A conversion is a short conversation with the surrounding program: is
//! the source there, can the output directory be made, which output name is
//! still free, then either a plain copy (the source is AIFF already) or a
//! run of the transcoder. [`Converter`] holds the state of that conversation
//! and decides each next step; it never overwrites an existing file.

use crate::effects::{Reply, ReplyView, Request, RequestView};
use crate::paths::{extension, extension_or_empty, file_stem, join, join_of, stem_or_empty};
use crate::text::{
    decimal, decimal_of, from_utf8_lossy, lemma_decimal_injective, lemma_decimal_shape,
    lossy_utf8_of, lowercase_of, str_eq, string_views, to_lowercase,
};
use vstd::prelude::*;
use vstd::slice::slice_subrange;
use vstd::string::*;

verus! {

/// Why a conversion failed.
#[derive(Clone, Debug, PartialEq, Eq)]
pub enum ConvertError {
    /// No usable transcoder binary was found at startup.
    TranscoderNotFound,
    /// The source is not a regular file (any more).
    SourceNotFound { path: String },
    /// The output directory could not be created.
    OutputDir { dir: String },
    /// The transcoder ran and reported failure; `detail` is the end of what
    /// it wrote to its diagnostic stream.
    ProcessFailure { detail: String },
    /// The transcoder could not be started.
    ProcessLaunch { detail: String },
    /// Some other file operation failed.
    Io { detail: String },
}

/// The mathematical content of a [`ConvertError`].
pub enum ConvertErrorView {
    TranscoderNotFound,
    SourceNotFound { path: Seq<char> },
    OutputDir { dir: Seq<char> },
    ProcessFailure { detail: Seq<char> },
    ProcessLaunch { detail: Seq<char> },
    Io { detail: Seq<char> },
}

impl View for ConvertError {
    type V = ConvertErrorView;

    open spec fn view(&self) -> ConvertErrorView {
        match self {
            ConvertError::TranscoderNotFound => ConvertErrorView::TranscoderNotFound,
            ConvertError::SourceNotFound { path } => ConvertErrorView::SourceNotFound {
                path: path@,
            },
            ConvertError::OutputDir { dir } => ConvertErrorView::OutputDir { dir: dir@ },
            ConvertError::ProcessFailure { detail } => ConvertErrorView::ProcessFailure {
                detail: detail@,
            },
            ConvertError::ProcessLaunch { detail } => ConvertErrorView::ProcessLaunch {
                detail: detail@,
            },
            ConvertError::Io { detail } => ConvertErrorView::Io { detail: detail@ },
        }
    }
}

impl ConvertErrorView {
    /// The message recorded with the failed job.
    pub open spec fn text(self) -> Seq<char> {
        match self {
            ConvertErrorView::TranscoderNotFound => "ffmpeg not found"@,
            ConvertErrorView::SourceNotFound { path } => "source file not found: "@ + path,
            ConvertErrorView::OutputDir { dir } => "cannot create output directory: "@ + dir,
            ConvertErrorView::ProcessFailure { detail } => detail,
            ConvertErrorView::ProcessLaunch { detail } => detail,
            ConvertErrorView::Io { detail } => detail,
        }
    }
}

impl ConvertError {
    /// The message recorded with the failed job.
    pub fn message(&self) -> (r: String)
        ensures
            r@ == self@.text(),
    {
        match self {
            ConvertError::TranscoderNotFound => String::from_str("ffmpeg not found"),
            ConvertError::SourceNotFound { path } => String::from_str(
                "source file not found: ",
            ).concat(path.as_str()),
            ConvertError::OutputDir { dir } => String::from_str(
                "cannot create output directory: ",
            ).concat(dir.as_str()),
            ConvertError::ProcessFailure { detail } => detail.clone(),
            ConvertError::ProcessLaunch { detail } => detail.clone(),
            ConvertError::Io { detail } => detail.clone(),
        }
    }
}

/// The `n`-th file name tried for the output of a source with the given
/// stem: `stem.aiff` first, then `stem_1.aiff`, `stem_2.aiff`, and so on.
pub open spec fn candidate_name(stem: Seq<char>, n: nat) -> Seq<char> {
    if n == 0 {
        stem + ".aiff"@
    } else {
        stem + "_"@ + decimal_of(n) + ".aiff"@
    }
}

/// Builds the `n`-th output file name for `stem`.
pub fn output_name(stem: &str, n: u32) -> (r: String)
    ensures
        r@ == candidate_name(stem@, n as nat),
{
    let mut name = stem.to_owned();
    if n > 0 {
        name.append("_");
        let digits = decimal(n as u64);
        name.append(digits.as_str());
    }
    name.append(".aiff");
    name
}

/// Two attempts never try the same name.
pub proof fn lemma_candidates_distinct(stem: Seq<char>, i: nat, j: nat)
    requires
        candidate_name(stem, i) == candidate_name(stem, j),
    ensures
        i == j,
{
    reveal_strlit(".aiff");
    reveal_strlit("_");
    let a = candidate_name(stem, i);
    let b = candidate_name(stem, j);
    let s = stem.len() as int;
    lemma_decimal_shape(i);
    lemma_decimal_shape(j);
    assert(a.len() == b.len());
    if i == 0 && j != 0 {
        assert(a.len() == s + 5);
        assert(b.len() == s + 1 + decimal_of(j).len() + 5);
    } else if i != 0 && j == 0 {
        assert(b.len() == s + 5);
        assert(a.len() == s + 1 + decimal_of(i).len() + 5);
    } else if i != 0 && j != 0 {
        let di = decimal_of(i);
        let dj = decimal_of(j);
        assert(a.len() == s + 1 + di.len() + 5);
        assert(b.len() == s + 1 + dj.len() + 5);
        assert(di.len() == dj.len());
        assert(a.subrange(s + 1, s + 1 + di.len()) =~= di);
        assert(b.subrange(s + 1, s + 1 + dj.len()) =~= dj);
        lemma_decimal_injective(i, j);
    }
}

/// Whether a lower-case extension marks a file that is AIFF already.
pub open spec fn is_aiff(ext: Seq<char>) -> bool {
    ext == "aiff"@ || ext == "aif"@
}

/// Whether a file with this lower-case extension is copied instead of
/// transcoded.
pub fn passthrough(ext: &str) -> (r: bool)
    ensures
        r == is_aiff(ext@),
{
    str_eq(ext, "aiff") || str_eq(ext, "aif")
}

/// The transcoder's arguments for one conversion: read `source`, encode the
/// audio as 16-bit big-endian PCM, write an AIFF container to `output`,
/// and (`-n`) give up instead of overwriting if `output` has come into
/// being since it was found free.
pub open spec fn transcode_args(source: Seq<char>, output: Seq<char>) -> Seq<Seq<char>> {
    seq!["-i"@, source, "-c:a"@, "pcm_s16be"@, "-f"@, "aiff"@, "-n"@, output]
}

/// Builds the transcoder's arguments for one conversion.
pub fn ffmpeg_args(source: &str, output: &str) -> (args: Vec<String>)
    ensures
        string_views(args@) == transcode_args(source@, output@),
{
    let mut args: Vec<String> = Vec::new();
    args.push(String::from_str("-i"));
    args.push(source.to_owned());
    args.push(String::from_str("-c:a"));
    args.push(String::from_str("pcm_s16be"));
    args.push(String::from_str("-f"));
    args.push(String::from_str("aiff"));
    args.push(String::from_str("-n"));
    args.push(output.to_owned());
    proof {
        assert(string_views(args@) =~= transcode_args(source@, output@));
    }
    args
}

/// The last `n` bytes, or all of them if there are no more than `n`.
pub open spec fn tail_of(bytes: Seq<u8>, n: nat) -> Seq<u8> {
    if bytes.len() > n {
        bytes.subrange(bytes.len() - n, bytes.len() as int)
    } else {
        bytes
    }
}

/// What is kept of a failed transcoder's diagnostics: its last 500 bytes,
/// decoded leniently.
pub open spec fn diagnostic_of(stderr: Seq<u8>) -> Seq<char> {
    lossy_utf8_of(tail_of(stderr, 500))
}

/// Extracts the failure message from a failed transcoder's diagnostics.
pub fn stderr_tail(stderr: &Vec<u8>) -> (r: String)
    ensures
        r@ == diagnostic_of(stderr@),
{
    let n = stderr.len();
    if n > 500 {
        from_utf8_lossy(slice_subrange(stderr.as_slice(), n - 500, n))
    } else {
        from_utf8_lossy(stderr.as_slice())
    }
}

/// How far a conversion has got.
#[derive(Clone, Debug, PartialEq, Eq)]
pub enum Phase {
    /// Asked whether the source is a regular file.
    Source,
    /// Asked for the output directory to be created.
    Dir,
    /// Asked whether the current output name is taken.
    Name,
    /// Asked for the source to be copied to the output.
    Copy,
    /// Asked for the transcoder to be run.
    Run,
    /// Asked for the partial output to be removed after this failure.
    Cleanup(ConvertError),
}

/// The mathematical content of a [`Phase`].
pub enum PhaseView {
    Source,
    Dir,
    Name,
    Copy,
    Run,
    Cleanup(ConvertErrorView),
}

impl View for Phase {
    type V = PhaseView;

    open spec fn view(&self) -> PhaseView {
        match self {
            Phase::Source => PhaseView::Source,
            Phase::Dir => PhaseView::Dir,
            Phase::Name => PhaseView::Name,
            Phase::Copy => PhaseView::Copy,
            Phase::Run => PhaseView::Run,
            Phase::Cleanup(e) => PhaseView::Cleanup(e@),
        }
    }
}

/// A conversion under way.
#[derive(Debug)]
pub struct Converter {
    phase: Phase,
    source: String,
    output_dir: String,
    program: String,
    stem: String,
    ext: String,
    attempt: u32,
    output: String,
}

/// The mathematical content of a [`Converter`].
pub struct ConverterView {
    /// The request that is out.
    pub phase: PhaseView,
    /// The source file.
    pub source: Seq<char>,
    /// The directory the output goes to.
    pub output_dir: Seq<char>,
    /// The transcoder binary.
    pub program: Seq<char>,
    /// The stem of the source's file name.
    pub stem: Seq<char>,
    /// The source's extension in lower case.
    pub ext: Seq<char>,
    /// How many output names were found taken.
    pub attempt: u32,
    /// The output path under consideration; empty before the first name is
    /// tried.
    pub output: Seq<char>,
}

impl View for Converter {
    type V = ConverterView;

    closed spec fn view(&self) -> ConverterView {
        ConverterView {
            phase: self.phase@,
            source: self.source@,
            output_dir: self.output_dir@,
            program: self.program@,
            stem: self.stem@,
            ext: self.ext@,
            attempt: self.attempt,
            output: self.output@,
        }
    }
}

/// What a conversion does next: ask for something, or end with the output
/// path or an error.
#[derive(Debug)]
pub enum Step {
    Ask(Converter, Request),
    Done(Result<String, ConvertError>),
}

/// The mathematical content of a [`Step`].
pub enum StepView {
    Ask(ConverterView, RequestView),
    Done(Result<Seq<char>, ConvertErrorView>),
}

impl View for Step {
    type V = StepView;

    open spec fn view(&self) -> StepView {
        match self {
            Step::Ask(c, r) => StepView::Ask(c@, r@),
            Step::Done(Ok(path)) => StepView::Done(Ok(path@)),
            Step::Done(Err(e)) => StepView::Done(Err(e@)),
        }
    }
}

/// The output path tried at the `n`-th attempt.
pub open spec fn candidate_path(output_dir: Seq<char>, stem: Seq<char>, n: nat) -> Seq<char> {
    join_of(output_dir, candidate_name(stem, n))
}

/// The message when every output name up to the last number is taken.
pub open spec fn names_exhausted() -> Seq<char> {
    "no free output file name"@
}

/// The first step of the conversion of a source whose file name has the
/// stem `stem` and, in lower case, the extension `ext`. Without a
/// transcoder binary it fails at once; otherwise it asks whether the
/// source is a regular file.
pub open spec fn first_step_with(
    source: Seq<char>,
    output_dir: Seq<char>,
    program: Option<Seq<char>>,
    stem: Seq<char>,
    ext: Seq<char>,
) -> StepView {
    match program {
        None => StepView::Done(Err(ConvertErrorView::TranscoderNotFound)),
        Some(p) => StepView::Ask(
            ConverterView {
                phase: PhaseView::Source,
                source,
                output_dir,
                program: p,
                stem,
                ext,
                attempt: 0,
                output: Seq::empty(),
            },
            RequestView::IsFile { path: source },
        ),
    }
}

/// The first step of a conversion: as [`first_step_with`], for the stem
/// and the extension of the source's file name.
pub open spec fn first_step(source: Seq<char>, output_dir: Seq<char>, program: Option<Seq<char>>)
    -> StepView {
    first_step_with(
        source,
        output_dir,
        program,
        stem_or_empty(source),
        lowercase_of(extension_or_empty(source)),
    )
}

/// The step that tries an output path: the path is taken into
/// consideration as the one that belongs to `attempt` names found taken,
/// and the question is whether it is taken too.
pub open spec fn trying(c: ConverterView, attempt: u32, candidate: Seq<char>) -> StepView {
    StepView::Ask(
        ConverterView { phase: PhaseView::Name, attempt, output: candidate, ..c },
        RequestView::Exists { path: candidate },
    )
}

/// The step that follows a reply.
///
/// * Source: a missing source ends the conversion; otherwise the output
///   directory is asked for.
/// * Dir: a directory that cannot be made ends the conversion; otherwise
///   the first output name is tried.
/// * Name: a taken name leads to the next name; a free one is used, for a
///   copy if the source is AIFF already and for a transcoder run if not.
/// * Copy: ends the conversion, with the output path or the copy's error.
/// * Run: a successful exit ends the conversion with the output path; a
///   failed exit or a failed start leads to the removal of what was
///   written.
/// * Cleanup: ends the conversion with the failure that led here, whatever
///   the reply.
pub open spec fn next_step(c: ConverterView, reply: ReplyView) -> StepView {
    match c.phase {
        PhaseView::Source => if reply.positive() {
            StepView::Ask(
                ConverterView { phase: PhaseView::Dir, ..c },
                RequestView::CreateDirAll { path: c.output_dir },
            )
        } else {
            StepView::Done(Err(ConvertErrorView::SourceNotFound { path: c.source }))
        },
        PhaseView::Dir => if reply.positive() {
            trying(c, 0, candidate_path(c.output_dir, c.stem, 0))
        } else {
            StepView::Done(Err(ConvertErrorView::OutputDir { dir: c.output_dir }))
        },
        PhaseView::Name => if reply.positive() {
            if c.attempt == u32::MAX {
                StepView::Done(Err(ConvertErrorView::Io { detail: names_exhausted() }))
            } else {
                trying(
                    c,
                    (c.attempt + 1) as u32,
                    candidate_path(c.output_dir, c.stem, (c.attempt + 1) as nat),
                )
            }
        } else if is_aiff(c.ext) {
            StepView::Ask(
                ConverterView { phase: PhaseView::Copy, ..c },
                RequestView::CopyFile { from: c.source, to: c.output },
            )
        } else {
            StepView::Ask(
                ConverterView { phase: PhaseView::Run, ..c },
                RequestView::Run { program: c.program, args: transcode_args(c.source, c.output) },
            )
        },
        PhaseView::Copy => if reply.positive() {
            StepView::Done(Ok(c.output))
        } else {
            StepView::Done(Err(ConvertErrorView::Io { detail: reply.detail() }))
        },
        PhaseView::Run => match reply {
            ReplyView::Exited { success, stderr } => if success {
                StepView::Done(Ok(c.output))
            } else {
                StepView::Ask(
                    ConverterView {
                        phase: PhaseView::Cleanup(
                            ConvertErrorView::ProcessFailure { detail: diagnostic_of(stderr) },
                        ),
                        ..c
                    },
                    RequestView::RemoveFile { path: c.output },
                )
            },
            _ => StepView::Ask(
                ConverterView {
                    phase: PhaseView::Cleanup(
                        ConvertErrorView::ProcessLaunch { detail: reply.detail() },
                    ),
                    ..c
                },
                RequestView::RemoveFile { path: c.output },
            ),
        },
        PhaseView::Cleanup(failure) => StepView::Done(Err(failure)),
    }
}

impl Converter {
    /// Starts the conversion of `source` into `output_dir` with the
    /// transcoder `program`, if one was found, for a source whose file name
    /// has the stem `stem` and, in lower case, the extension `ext`.
    pub fn start(source: &str, output_dir: &str, program: Option<&str>, stem: String, ext: String)
        -> (r: Step)
        ensures
            r@ == first_step_with(
                source@,
                output_dir@,
                match program {
                    Some(p) => Some(p@),
                    None => None,
                },
                stem@,
                ext@,
            ),
    {
        match program {
            None => Step::Done(Err(ConvertError::TranscoderNotFound)),
            Some(p) => {
                let c = Converter {
                    phase: Phase::Source,
                    source: source.to_owned(),
                    output_dir: output_dir.to_owned(),
                    program: p.to_owned(),
                    stem,
                    ext,
                    attempt: 0,
                    output: String::new(),
                };
                Step::Ask(c, Request::IsFile { path: source.to_owned() })
            },
        }
    }

    /// Starts the conversion of `source` into `output_dir` with the
    /// transcoder `program`, if one was found.
    pub fn begin(source: &str, output_dir: &str, program: Option<&str>) -> (r: Step)
        ensures
            r@ == first_step(
                source@,
                output_dir@,
                match program {
                    Some(p) => Some(p@),
                    None => None,
                },
            ),
    {
        let ext = extension(source);
        Converter::start(
            source,
            output_dir,
            program,
            file_stem(source),
            to_lowercase(ext.as_str()),
        )
    }

    /// Takes an output path into consideration as the one that belongs to
    /// `attempt` names found taken, and asks whether it is taken too.
    pub fn try_output(self, attempt: u32, candidate: String) -> (r: Step)
        ensures
            r@ == trying(self@, attempt, candidate@),
    {
        let path = candidate.clone();
        Step::Ask(
            Converter {
                phase: Phase::Name,
                source: self.source,
                output_dir: self.output_dir,
                program: self.program,
                stem: self.stem,
                ext: self.ext,
                attempt,
                output: candidate,
            },
            Request::Exists { path },
        )
    }

    /// Takes the reply to the request that is out and decides the next step.
    pub fn advance(self, reply: Reply) -> (r: Step)
        ensures
            r@ == next_step(self@, reply@),
    {
        let Converter { phase, source, output_dir, program, stem, ext, attempt, output } = self;
        match phase {
            Phase::Source => {
                if reply.is_positive() {
                    let path = output_dir.clone();
                    Step::Ask(
                        Converter {
                            phase: Phase::Dir,
                            source,
                            output_dir,
                            program,
                            stem,
                            ext,
                            attempt,
                            output,
                        },
                        Request::CreateDirAll { path },
                    )
                } else {
                    Step::Done(Err(ConvertError::SourceNotFound { path: source }))
                }
            },
            Phase::Dir => {
                if reply.is_positive() {
                    let name = output_name(stem.as_str(), 0);
                    let first = join(output_dir.as_str(), name.as_str());
                    let c = Converter {
                        phase: Phase::Dir,
                        source,
                        output_dir,
                        program,
                        stem,
                        ext,
                        attempt,
                        output,
                    };
                    c.try_output(0, first)
                } else {
                    Step::Done(Err(ConvertError::OutputDir { dir: output_dir }))
                }
            },
            Phase::Name => {
                if reply.is_positive() {
                    if attempt == u32::MAX {
                        Step::Done(
                            Err(ConvertError::Io { detail: String::from_str("no free output file name") }),
                        )
                    } else {
                        let name = output_name(stem.as_str(), attempt + 1);
                        let candidate = join(output_dir.as_str(), name.as_str());
                        let c = Converter {
                            phase: Phase::Name,
                            source,
                            output_dir,
                            program,
                            stem,
                            ext,
                            attempt,
                            output,
                        };
                        c.try_output(attempt + 1, candidate)
                    }
                } else if passthrough(ext.as_str()) {
                    let from = source.clone();
                    let to = output.clone();
                    Step::Ask(
                        Converter {
                            phase: Phase::Copy,
                            source,
                            output_dir,
                            program,
                            stem,
                            ext,
                            attempt,
                            output,
                        },
                        Request::CopyFile { from, to },
                    )
                } else {
                    let args = ffmpeg_args(source.as_str(), output.as_str());
                    let binary = program.clone();
                    Step::Ask(
                        Converter {
                            phase: Phase::Run,
                            source,
                            output_dir,
                            program,
                            stem,
                            ext,
                            attempt,
                            output,
                        },
                        Request::Run { program: binary, args },
                    )
                }
            },
            Phase::Copy => {
                if reply.is_positive() {
                    Step::Done(Ok(output))
                } else {
                    Step::Done(Err(ConvertError::Io { detail: reply.into_detail() }))
                }
            },
            Phase::Run => {
                let path = output.clone();
                let failure = match reply {
                    Reply::Exited { success, stderr } => {
                        if success {
                            return Step::Done(Ok(output));
                        }
                        ConvertError::ProcessFailure { detail: stderr_tail(&stderr) }
                    },
                    other => ConvertError::ProcessLaunch { detail: other.into_detail() },
                };
                Step::Ask(
                    Converter {
                        phase: Phase::Cleanup(failure),
                        source,
                        output_dir,
                        program,
                        stem,
                        ext,
                        attempt,
                        output,
                    },
                    Request::RemoveFile { path },
                )
            },
            Phase::Cleanup(failure) => Step::Done(Err(failure)),
        }
    }
}

/// The places where the transcoder binary is looked for, in order: the
/// search path first, then, on Windows, two well-known install locations,
/// the second of which lies under the user's local application data.
pub open spec fn binary_candidates(windows: bool, local_app_data: Option<Seq<char>>) -> Seq<
    Seq<char>,
> {
    let anywhere = seq!["ffmpeg"@];
    if !windows {
        anywhere
    } else {
        let with_chocolatey = anywhere.push("C:\\ProgramData\\chocolatey\\bin\\ffmpeg.exe"@);
        match local_app_data {
            Some(dir) => with_chocolatey.push(dir + "\\Microsoft\\WinGet\\Links\\ffmpeg.exe"@),
            None => with_chocolatey,
        }
    }
}

/// Lists the places where the transcoder binary is looked for.
pub fn ffmpeg_candidates(windows: bool, local_app_data: Option<&str>) -> (r: Vec<String>)
    ensures
        string_views(r@) == binary_candidates(
            windows,
            match local_app_data {
                Some(d) => Some(d@),
                None => None,
            },
        ),
{
    let mut out: Vec<String> = Vec::new();
    out.push(String::from_str("ffmpeg"));
    if windows {
        out.push(String::from_str("C:\\ProgramData\\chocolatey\\bin\\ffmpeg.exe"));
        match local_app_data {
            Some(dir) => {
                out.push(dir.to_owned().concat("\\Microsoft\\WinGet\\Links\\ffmpeg.exe"));
            },
            None => {},
        }
    }
    proof {
        assert(string_views(out@) =~= binary_candidates(
            windows,
            match local_app_data {
                Some(d) => Some(d@),
                None => None,
            },
        ));
    }
    out
}

/// The search for the transcoder binary: the candidates and the one whose
/// probe is out.
#[derive(Debug)]
pub struct BinarySearch {
    candidates: Vec<String>,
    at: usize,
}

/// The mathematical content of a [`BinarySearch`].
pub struct BinarySearchView {
    pub candidates: Seq<Seq<char>>,
    pub at: int,
}

impl View for BinarySearch {
    type V = BinarySearchView;

    closed spec fn view(&self) -> BinarySearchView {
        BinarySearchView { candidates: string_views(self.candidates@), at: self.at as int }
    }
}

/// What the search does next: probe a candidate, or end with the binary
/// found, if any.
#[derive(Debug)]
pub enum SearchStep {
    Ask(BinarySearch, Request),
    Done(Option<String>),
}

/// The mathematical content of a [`SearchStep`].
pub enum SearchStepView {
    Ask(BinarySearchView, RequestView),
    Done(Option<Seq<char>>),
}

impl View for SearchStep {
    type V = SearchStepView;

    open spec fn view(&self) -> SearchStepView {
        match self {
            SearchStep::Ask(s, r) => SearchStepView::Ask(s@, r@),
            SearchStep::Done(Some(p)) => SearchStepView::Done(Some(p@)),
            SearchStep::Done(None) => SearchStepView::Done(None),
        }
    }
}

/// The search from candidate `at` on: that candidate is probed, or the
/// search ends empty-handed if there is none left.
pub open spec fn search_from(candidates: Seq<Seq<char>>, at: int) -> SearchStepView {
    if 0 <= at < candidates.len() {
        SearchStepView::Ask(
            BinarySearchView { candidates, at },
            RequestView::Probe { program: candidates[at] },
        )
    } else {
        SearchStepView::Done(None)
    }
}

/// The step that follows a probe: the candidate is taken if the probe
/// succeeded, and the next is tried if not.
pub open spec fn search_next(s: BinarySearchView, reply: ReplyView) -> SearchStepView {
    if reply.positive() && 0 <= s.at < s.candidates.len() {
        SearchStepView::Done(Some(s.candidates[s.at]))
    } else {
        search_from(s.candidates, s.at + 1)
    }
}

/// The candidate a search settles on when the probes are answered by
/// `replies` in turn, starting at candidate `at`: the first whose probe
/// succeeds.
pub open spec fn search_result(candidates: Seq<Seq<char>>, at: int, replies: Seq<ReplyView>)
    -> Option<Seq<char>>
    decreases replies.len(),
{
    if at < 0 || at >= candidates.len() || replies.len() == 0 {
        None
    } else if replies[0].positive() {
        Some(candidates[at])
    } else {
        search_result(candidates, at + 1, replies.drop_first())
    }
}

fn probe_from(candidates: Vec<String>, at: usize) -> (r: SearchStep)
    ensures
        r@ == search_from(string_views(candidates@), at as int),
{
    if at < candidates.len() {
        let program = candidates[at].clone();
        SearchStep::Ask(BinarySearch { candidates, at }, Request::Probe { program })
    } else {
        SearchStep::Done(None)
    }
}

/// Starts the search for the transcoder binary. It is made once, when the
/// worker starts; its result is used for every job.
pub fn find_ffmpeg(windows: bool, local_app_data: Option<&str>) -> (r: SearchStep)
    ensures
        r@ == search_from(
            binary_candidates(
                windows,
                match local_app_data {
                    Some(d) => Some(d@),
                    None => None,
                },
            ),
            0,
        ),
{
    probe_from(ffmpeg_candidates(windows, local_app_data), 0)
}

impl BinarySearch {
    /// Takes the outcome of the probe that is out and decides the next
    /// step.
    pub fn advance(self, reply: Reply) -> (r: SearchStep)
        ensures
            r@ == search_next(self@, reply@),
    {
        let BinarySearch { candidates, at } = self;
        if reply.is_positive() && at < candidates.len() {
            SearchStep::Done(Some(candidates[at].clone()))
        } else if at < usize::MAX {
            probe_from(candidates, at + 1)
        } else {
            SearchStep::Done(None)
        }
    }
}

/// Where a search that is answered by `replies` in turn ends, if it does
/// before the replies run out.
pub open spec fn search_run(step: SearchStepView, replies: Seq<ReplyView>) -> Option<Seq<char>>
    decreases replies.len(),
{
    match step {
        SearchStepView::Done(found) => found,
        SearchStepView::Ask(s, _) => if replies.len() == 0 {
            None
        } else {
            search_run(search_next(s, replies[0]), replies.drop_first())
        },
    }
}

/// A search settles on the first candidate whose probe succeeds, and on
/// none if no probe does.
pub proof fn lemma_search_takes_first(candidates: Seq<Seq<char>>, at: int, replies: Seq<ReplyView>)
    requires
        0 <= at,
    ensures
        search_run(search_from(candidates, at), replies) == search_result(candidates, at, replies),
    decreases replies.len(),
{
    if at < candidates.len() && replies.len() > 0 {
        let s = BinarySearchView { candidates, at };
        let rest = replies.drop_first();
        if replies[0].positive() {
            assert(search_run(SearchStepView::Done(Some(candidates[at])), rest) == Some(
                candidates[at],
            ));
        } else {
            lemma_search_takes_first(candidates, at + 1, rest);
        }
        assert(search_run(search_from(candidates, at), replies) == search_run(
            search_next(s, replies[0]),
            rest,
        ));
    }
}

/// Whether the output path under consideration is the one that belongs to
/// the number of names found taken. It is, from the first name on.
pub open spec fn on_candidate(c: ConverterView) -> bool {
    c.phase !is Source && c.phase !is Dir ==> c.output == candidate_path(
        c.output_dir,
        c.stem,
        c.attempt as nat,
    )
}

/// A conversion writes to no path that was reported taken. While names
/// are tried, a "taken" leads to the next name, which differs from every
/// name tried before; only after a "free" is anything written, and then to
/// the very path that was reported free.
pub proof fn lemma_never_overwrites(c: ConverterView, reply: ReplyView)
    requires
        c.phase is Name,
        on_candidate(c),
    ensures
        reply.positive() ==> (next_step(c, reply) matches StepView::Ask(c2, request) ==> c2.phase
            is Name && c2.attempt == c.attempt + 1 && request == (RequestView::Exists {
            path: candidate_path(c.output_dir, c.stem, (c.attempt + 1) as nat),
        })),
        reply.positive() ==> forall|k: nat|
            k <= c.attempt ==> #[trigger] candidate_name(c.stem, k) != candidate_name(
                c.stem,
                (c.attempt + 1) as nat,
            ),
        !reply.positive() ==> (next_step(c, reply) matches StepView::Ask(c2, request)
            && c2.output == c.output && match request {
            RequestView::CopyFile { from, to } => from == c.source && to == c.output,
            RequestView::Run { program, args } => args == transcode_args(c.source, c.output),
            _ => false,
        }),
        next_step(c, reply) matches StepView::Ask(c2, _) ==> on_candidate(c2),
{
    if reply.positive() {
        assert forall|k: nat| k <= c.attempt implies #[trigger] candidate_name(c.stem, k)
            != candidate_name(c.stem, (c.attempt + 1) as nat) by {
            if candidate_name(c.stem, k) == candidate_name(c.stem, (c.attempt + 1) as nat) {
                lemma_candidates_distinct(c.stem, k, (c.attempt + 1) as nat);
            }
        }
    }
}

/// The output path stays the one that belongs to the number of names
/// found taken, whatever the step.
pub proof fn lemma_stays_on_candidate(c: ConverterView, reply: ReplyView)
    requires
        on_candidate(c),
    ensures
        next_step(c, reply) matches StepView::Ask(c2, _) ==> on_candidate(c2),
        next_step(c, reply) matches StepView::Done(Ok(output)) ==> output == candidate_path(
            c.output_dir,
            c.stem,
            c.attempt as nat,
        ),
{
}

/// A source that is AIFF already is never handed to the transcoder: no
/// step of its conversion asks for a run, and once a free output name is
/// found the source is copied to it as it is.
pub proof fn lemma_aiff_is_copied(c: ConverterView, reply: ReplyView)
    requires
        is_aiff(c.ext),
        c.phase !is Run,
    ensures
        next_step(c, reply) matches StepView::Ask(c2, request) ==> is_aiff(c2.ext) && c2.phase
            !is Run && request !is Run,
        c.phase is Name && !reply.positive() ==> next_step(c, reply) == StepView::Ask(
            ConverterView { phase: PhaseView::Copy, ..c },
            RequestView::CopyFile { from: c.source, to: c.output },
        ),
        c.phase is Copy && reply.positive() ==> next_step(c, reply) == StepView::Done(
            Ok(c.output),
        ),
{
}

/// The first step of a conversion knows the source by its extension, and
/// without a transcoder binary there is no conversion at all, not even of
/// a source that would only be copied.
pub proof fn lemma_first_step(source: Seq<char>, output_dir: Seq<char>, program: Option<Seq<char>>)
    ensures
        program is None ==> first_step(source, output_dir, program) == StepView::Done(
            Err(ConvertErrorView::TranscoderNotFound),
        ),
        first_step(source, output_dir, program) matches StepView::Ask(c, request) ==> c.phase
            is Source && on_candidate(c) && c.ext == lowercase_of(extension_or_empty(source))
            && request == (RequestView::IsFile { path: source }),
{
}

/// The answer to "is there anything at `path`?" on a disk that holds
/// exactly the paths in `taken`.
pub open spec fn exists_reply(taken: Set<Seq<char>>, path: Seq<char>) -> ReplyView {
    ReplyView::Flag { yes: taken.contains(path) }
}

/// The path a request writes to, if it writes.
pub open spec fn written_path(request: RequestView) -> Option<Seq<char>> {
    match request {
        RequestView::CopyFile { to, .. } => Some(to),
        RequestView::Run { args, .. } => if args.len() > 0 {
            Some(args.last())
        } else {
            None
        },
        _ => None,
    }
}

/// Where the search for an output name leads on a disk that holds exactly
/// the paths in `taken`, after at most `tries` further names.
pub open spec fn name_search(c: ConverterView, taken: Set<Seq<char>>, tries: nat) -> StepView
    decreases tries,
{
    let step = next_step(c, exists_reply(taken, c.output));
    match step {
        StepView::Ask(c2, _) => if c2.phase is Name && tries > 0 {
            name_search(c2, taken, (tries - 1) as nat)
        } else {
            step
        },
        _ => step,
    }
}

/// No conversion overwrites a file: on a disk that holds exactly the paths
/// in `taken`, the search for an output name ends, if it ends with a
/// request that writes, with one that writes to a path that is not taken.
pub proof fn lemma_output_is_free(c: ConverterView, taken: Set<Seq<char>>, tries: nat)
    requires
        c.phase is Name,
        on_candidate(c),
    ensures
        name_search(c, taken, tries) matches StepView::Ask(c2, request) ==> on_candidate(c2) && (
        c2.phase !is Name ==> written_path(request) == Some(c2.output) && !taken.contains(
            c2.output,
        )),
    decreases tries,
{
    let reply = exists_reply(taken, c.output);
    lemma_never_overwrites(c, reply);
    match next_step(c, reply) {
        StepView::Ask(c2, _) => {
            if c2.phase is Name && tries > 0 {
                lemma_output_is_free(c2, taken, (tries - 1) as nat);
            }
        },
        _ => {},
    }
}

/// Two conversions leave two files: if a second conversion looks for its
/// output name after the first has written its output, it settles on a
/// different path, even when both sources have the same stem and go to the
/// same directory.
pub proof fn lemma_two_conversions_two_outputs(
    first: ConverterView,
    second: ConverterView,
    taken: Set<Seq<char>>,
    first_tries: nat,
    second_tries: nat,
)
    requires
        first.phase is Name,
        second.phase is Name,
        on_candidate(first),
        on_candidate(second),
        name_search(first, taken, first_tries) matches StepView::Ask(a, _) && a.phase !is Name,
    ensures
        ({
            let a = name_search(first, taken, first_tries)->Ask_0;
            let end = name_search(second, taken.insert(a.output), second_tries);
            end is Ask && end->Ask_0.phase !is Name ==> end->Ask_0.output != a.output
                && !taken.contains(end->Ask_0.output) && !taken.contains(a.output)
        }),
{
    lemma_output_is_free(first, taken, first_tries);
    let a = name_search(first, taken, first_tries)->Ask_0;
    lemma_output_is_free(second, taken.insert(a.output), second_tries);
}

/// The requests a conversion makes when they are answered by `replies` in
/// turn.
pub open spec fn requests_of(step: StepView, replies: Seq<ReplyView>) -> Seq<RequestView>
    decreases replies.len(),
{
    match step {
        StepView::Done(_) => Seq::empty(),
        StepView::Ask(c, request) => if replies.len() == 0 {
            seq![request]
        } else {
            seq![request] + requests_of(next_step(c, replies[0]), replies.drop_first())
        },
    }
}

/// The conversion of a source that is AIFF already never runs the
/// transcoder, however its requests are answered.
pub proof fn lemma_aiff_never_transcoded(
    source: Seq<char>,
    output_dir: Seq<char>,
    program: Option<Seq<char>>,
    replies: Seq<ReplyView>,
)
    requires
        is_aiff(lowercase_of(extension_or_empty(source))),
    ensures
        forall|i: int|
            0 <= i < requests_of(first_step(source, output_dir, program), replies).len() ==> !(
            #[trigger] requests_of(first_step(source, output_dir, program), replies)[i] is Run),
{
    lemma_copies_only(first_step(source, output_dir, program), replies);
}

proof fn lemma_copies_only(step: StepView, replies: Seq<ReplyView>)
    requires
        step matches StepView::Ask(c, request) ==> is_aiff(c.ext) && c.phase !is Run && request
            !is Run,
    ensures
        forall|i: int|
            0 <= i < requests_of(step, replies).len() ==> !(#[trigger] requests_of(
                step,
                replies,
            )[i] is Run),
    decreases replies.len(),
{
    match step {
        StepView::Done(_) => {},
        StepView::Ask(c, request) => {
            if replies.len() > 0 {
                let next = next_step(c, replies[0]);
                lemma_aiff_is_copied(c, replies[0]);
                lemma_copies_only(next, replies.drop_first());
                let rest = requests_of(next, replies.drop_first());
                assert forall|i: int| 0 <= i < requests_of(step, replies).len() implies !(
                #[trigger] requests_of(step, replies)[i] is Run) by {
                    if i > 0 {
                        assert(requests_of(step, replies)[i] == rest[i - 1]);
                    }
                }
            }
        },
    }
}

} // verus!
