//! The analysis of a video: the original is cut into segments, each segment is
//! described in turn, and the descriptions are put together.
use crate::error::{ErrorView, ImageAnalysisError};
use crate::host_manager::{HostManager, HostManagerView};
use crate::interface::Interface;
use crate::media_time;
use crate::media_time::timestamp;
use crate::request;
use crate::request::ImageAnalysisResult;
use crate::streams;
use crate::streams::{processing_error, select_streams, MediaSelection, Probe};
use crate::text;
use crate::text::{copied_texts, decimal_text, trim_text};
use crate::transcode;
use crate::transcode::{
    check_encoded_size, check_packets, transcode_arguments, MediaArgView, MediaArgs,
};
use vstd::prelude::*;
use vstd::string::StringExecFns;

verus! {

/// How long a segment is at most, in milliseconds.
pub const SEGMENT_MILLIS: u64 = 30000;

/// The settings of video analysis.
#[derive(Debug)]
pub struct VideoArgs {
    /// The AI hosts; without one there is no video analysis.
    pub video_hosts: Vec<String>,
    pub video_model_name: String,
    pub video_api_key: Option<String>,
    pub video_prompt: String,
    /// How many videos may be analyzed at a time.
    pub video_max_concurrent: usize,
    /// How large an original may be, in bytes.
    pub video_max_bytes: u64,
    /// The timeout of requests and of media commands, in seconds.
    pub timeout: u64,
    /// How many rounds over the hosts are made; 0 means that there is no limit.
    pub max_retries: u32,
    pub retry_delay_seconds: u64,
    /// For how many seconds a host that has failed is not asked.
    pub unavailable_duration: u64,
}

/// Analyzes videos with the AI hosts that are set up for them.
#[derive(Debug)]
pub struct VideoAnalyzer {
    host_manager: HostManager,
    prompt: String,
    max_bytes: u64,
    timeout: u64,
    max_concurrent: usize,
}

/// The mathematical content of a [`VideoAnalyzer`].
#[verifier::ext_equal]
pub struct VideoAnalyzerView {
    pub host_manager: HostManagerView,
    pub prompt: Seq<char>,
    pub max_bytes: u64,
    pub timeout: u64,
    pub max_concurrent: usize,
}

impl View for VideoAnalyzer {
    type V = VideoAnalyzerView;

    closed spec fn view(&self) -> VideoAnalyzerView {
        VideoAnalyzerView {
            host_manager: self.host_manager@,
            prompt: self.prompt@,
            max_bytes: self.max_bytes,
            timeout: self.timeout,
            max_concurrent: self.max_concurrent,
        }
    }
}

/// The most permits that a semaphore can hold.
pub open spec fn permit_limit() -> usize {
    usize::MAX / 8
}

/// `Semaphore::MAX_PERMITS` of the `tokio` crate, a constant: `usize::MAX >> 3`,
/// which is an eighth of `usize::MAX`, rounded down.
#[verifier::external_body]
fn max_permits() -> (limit: usize)
    ensures
        limit == permit_limit(),
{
    tokio::sync::Semaphore::MAX_PERMITS
}

/// Seconds in nanoseconds.
pub open spec fn nanos(seconds: u64) -> u128 {
    (seconds * 1_000_000_000) as u128
}

/// The analyzer that the settings describe.
pub open spec fn configured_analyzer(args: VideoArgs) -> VideoAnalyzerView {
    VideoAnalyzerView {
        host_manager: HostManagerView {
            hosts: text::texts_view(args.video_hosts@),
            interface: Interface::Llamacpp,
            model_name: args.video_model_name@,
            timeout: args.timeout,
            max_retries: if args.max_retries == 0 {
                None
            } else {
                Some(args.max_retries)
            },
            retry_delay: nanos(args.retry_delay_seconds),
            unavailable: Map::empty(),
            unavailable_duration: nanos(args.unavailable_duration),
            api_key: text::option_view(args.video_api_key),
        },
        prompt: args.video_prompt@,
        max_bytes: args.video_max_bytes,
        timeout: args.timeout,
        max_concurrent: args.video_max_concurrent,
    }
}

/// The error of a number of concurrent videos that is not possible.
pub open spec fn concurrency_error(max_concurrent: usize) -> Option<ErrorView> {
    if 1 <= max_concurrent <= permit_limit() {
        None
    } else {
        Some(
            ErrorView::InvalidConfig {
                error: "Video concurrency must be between 1 and "@ + text::decimal(
                    permit_limit() as nat,
                ),
            },
        )
    }
}

/// The error of a media program that does not work.
pub open spec fn tool_error(binary: Seq<char>, error: Seq<char>) -> ErrorView {
    ErrorView::InvalidConfig {
        error: "Video analysis requires working "@ + binary + ": "@ + error,
    }
}

/// The analyzer for the settings: none without hosts. The errors of the two
/// media programs are `None` where the program works.
pub open spec fn analyzer_for(
    args: VideoArgs,
    ffmpeg_error: Option<String>,
    ffprobe_error: Option<String>,
) -> Result<Option<VideoAnalyzerView>, ErrorView> {
    if args.video_hosts@.len() == 0 {
        Ok(None)
    } else if concurrency_error(args.video_max_concurrent) is Some {
        Err(concurrency_error(args.video_max_concurrent)->0)
    } else if ffmpeg_error is Some {
        Err(tool_error("ffmpeg"@, ffmpeg_error->0@))
    } else if ffprobe_error is Some {
        Err(tool_error("ffprobe"@, ffprobe_error->0@))
    } else {
        Ok(Some(configured_analyzer(args)))
    }
}

/// The content of a result of making an analyzer.
pub open spec fn analyzer_result_view(
    result: Result<Option<VideoAnalyzer>, ImageAnalysisError>,
) -> Result<Option<VideoAnalyzerView>, ErrorView> {
    match result {
        Ok(Some(analyzer)) => Ok(Some(analyzer@)),
        Ok(None) => Ok(None),
        Err(e) => Err(e@),
    }
}

fn tool_failure(binary: &str, error: &str) -> (e: ImageAnalysisError)
    ensures
        e@ == tool_error(binary@, error@),
{
    let mut message = "Video analysis requires working ".to_owned();
    message.append(binary);
    message.append(": ");
    message.append(error);
    ImageAnalysisError::InvalidConfig { error: message }
}

/// Checks the settings before any media program is started: whether videos are
/// analyzed at all.
pub fn check_args(args: &VideoArgs) -> (wanted: Result<bool, ImageAnalysisError>)
    ensures
        if args.video_hosts@.len() == 0 {
            wanted == Ok::<bool, ImageAnalysisError>(false)
        } else {
            match concurrency_error(args.video_max_concurrent) {
                Some(e) => wanted is Err && wanted->Err_0@ == e,
                None => wanted == Ok::<bool, ImageAnalysisError>(true),
            }
        },
{
    if args.video_hosts.len() == 0 {
        return Ok(false);
    }
    let limit: usize = max_permits();
    if args.video_max_concurrent == 0 || args.video_max_concurrent > limit {
        let mut error = "Video concurrency must be between 1 and ".to_owned();
        error.append(decimal_text(limit as u64).as_str());
        return Err(ImageAnalysisError::InvalidConfig { error });
    }
    Ok(true)
}

impl VideoAnalyzer {
    /// The hosts are well-formed.
    pub closed spec fn wf(&self) -> bool {
        self.host_manager.wf()
    }

    /// Makes the analyzer that the settings describe, given what is wrong with
    /// the two media programs; without hosts there is none.
    pub fn from_args(
        args: &VideoArgs,
        ffmpeg_error: Option<String>,
        ffprobe_error: Option<String>,
    ) -> (analyzer: Result<Option<VideoAnalyzer>, ImageAnalysisError>)
        ensures
            analyzer_result_view(analyzer) == analyzer_for(*args, ffmpeg_error, ffprobe_error),
            analyzer matches Ok(Some(a)) ==> a.wf(),
    {
        match check_args(args) {
            Err(e) => {
                return Err(e);
            },
            Ok(false) => {
                return Ok(None);
            },
            Ok(true) => {},
        }
        if let Some(error) = &ffmpeg_error {
            return Err(tool_failure("ffmpeg", error.as_str()));
        }
        if let Some(error) = &ffprobe_error {
            return Err(tool_failure("ffprobe", error.as_str()));
        }
        let max_retries: Option<u32> = if args.max_retries == 0 {
            None
        } else {
            Some(args.max_retries)
        };
        let retry_delay: u128 = args.retry_delay_seconds as u128 * 1_000_000_000;
        let unavailable_duration: u128 = args.unavailable_duration as u128 * 1_000_000_000;
        let api_key = match &args.video_api_key {
            Some(key) => Some(key.clone()),
            None => None,
        };
        let host_manager = HostManager::new(
            copied_texts(args.video_hosts.as_slice()),
            Interface::Llamacpp,
            args.video_model_name.clone(),
            args.timeout,
            max_retries,
            retry_delay,
            unavailable_duration,
            api_key,
        );
        let analyzer = VideoAnalyzer {
            host_manager,
            prompt: args.video_prompt.clone(),
            max_bytes: args.video_max_bytes,
            timeout: args.timeout,
            max_concurrent: args.video_max_concurrent,
        };
        Ok(Some(analyzer))
    }

    /// The prompt that asks for a description.
    pub fn prompt(&self) -> (prompt: &str)
        ensures
            prompt@ == self@.prompt,
    {
        self.prompt.as_str()
    }

    /// How large an original may be, in bytes.
    pub fn max_bytes(&self) -> (limit: u64)
        ensures
            limit == self@.max_bytes,
    {
        self.max_bytes
    }

    /// The timeout of each step, in seconds.
    pub fn timeout(&self) -> (seconds: u64)
        ensures
            seconds == self@.timeout,
    {
        self.timeout
    }

    /// How many videos may be analyzed at a time.
    pub fn max_concurrent(&self) -> (count: usize)
        ensures
            count == self@.max_concurrent,
    {
        self.max_concurrent
    }

    /// The hosts that are asked.
    pub fn host_manager_mut(&mut self) -> (manager: &mut HostManager)
        requires
            old(self).wf(),
        ensures
            manager.wf(),
            manager@ == old(self)@.host_manager,
            final(self)@ == (VideoAnalyzerView {
                host_manager: final(manager)@,
                ..old(self)@
            }),
            final(self).wf() == final(manager).wf(),
    {
        &mut self.host_manager
    }

    /// Begins the analysis of a video.
    pub fn analyze(&self, asset_id: u128, prompt: &str) -> (analysis: VideoAnalysis)
        ensures
            analysis@ == analysis_start(asset_id, prompt@),
            analysis@.wf(),
    {
        let description = String::new();
        assert(description@ =~= Seq::<char>::empty());
        VideoAnalysis {
            asset_id,
            prompt: prompt.to_owned(),
            selection: None,
            description,
            phase: VideoPhase::AwaitingPermit,
        }
    }
}

/// Where the analysis of a video stands, which is also what is to be done next.
/// `start` and `end` are those of the segment, in milliseconds.
#[derive(Debug)]
pub enum VideoPhase {
    /// Wait until another video may be analyzed.
    AwaitingPermit,
    /// Make a temporary directory.
    MakingWorkspace,
    /// Fetch the original into the directory.
    FetchingOriginal,
    /// Probe the original, without counting packets.
    ProbingOriginal,
    /// Run `ffmpeg` with the arguments.
    Transcoding { start: u64, end: u64, args: MediaArgs },
    /// Look up the size of the clip.
    Measuring { start: u64, end: u64 },
    /// Probe the clip, counting packets.
    ProbingClip { start: u64, end: u64 },
    /// Have the clip described.
    Describing { start: u64, end: u64, has_audio: bool, prompt: String },
    /// Remove the clip.
    RemovingClip { start: u64, end: u64 },
    /// The analysis is over.
    Finished(Result<ImageAnalysisResult, ImageAnalysisError>),
}

/// The mathematical content of a [`VideoPhase`].
#[verifier::ext_equal]
pub enum VideoPhaseView {
    AwaitingPermit,
    MakingWorkspace,
    FetchingOriginal,
    ProbingOriginal,
    Transcoding { start: u64, end: u64, args: Seq<MediaArgView> },
    Measuring { start: u64, end: u64 },
    ProbingClip { start: u64, end: u64 },
    Describing { start: u64, end: u64, has_audio: bool, prompt: Seq<char> },
    RemovingClip { start: u64, end: u64 },
    Finished(Result<(Seq<char>, u128), ErrorView>),
}

impl View for VideoPhase {
    type V = VideoPhaseView;

    open spec fn view(&self) -> VideoPhaseView {
        match self {
            VideoPhase::AwaitingPermit => VideoPhaseView::AwaitingPermit,
            VideoPhase::MakingWorkspace => VideoPhaseView::MakingWorkspace,
            VideoPhase::FetchingOriginal => VideoPhaseView::FetchingOriginal,
            VideoPhase::ProbingOriginal => VideoPhaseView::ProbingOriginal,
            VideoPhase::Transcoding { start, end, args } => VideoPhaseView::Transcoding {
                start: *start,
                end: *end,
                args: args@,
            },
            VideoPhase::Measuring { start, end } => VideoPhaseView::Measuring {
                start: *start,
                end: *end,
            },
            VideoPhase::ProbingClip { start, end } => VideoPhaseView::ProbingClip {
                start: *start,
                end: *end,
            },
            VideoPhase::Describing { start, end, has_audio, prompt } => VideoPhaseView::Describing {
                start: *start,
                end: *end,
                has_audio: *has_audio,
                prompt: prompt@,
            },
            VideoPhase::RemovingClip { start, end } => VideoPhaseView::RemovingClip {
                start: *start,
                end: *end,
            },
            VideoPhase::Finished(result) => VideoPhaseView::Finished(
                request::analysis_view(*result),
            ),
        }
    }
}

/// What came of fetching an original.
#[derive(Debug)]
pub enum OriginalOutcome {
    Ready,
    TimedOut,
    Failed(ImageAnalysisError),
}

/// Something that happened to the analysis of a video.
#[derive(Debug)]
pub enum VideoEvent {
    Permit(Result<(), String>),
    Workspace(Result<(), String>),
    Original(OriginalOutcome),
    Probed(Result<Probe, ImageAnalysisError>),
    Transcoded(Result<(), ImageAnalysisError>),
    Measured(Result<u64, String>),
    Described(Result<ImageAnalysisResult, ImageAnalysisError>),
    ClipRemoved(Result<(), String>),
}

/// The analysis of a video under way.
#[derive(Debug)]
pub struct VideoAnalysis {
    asset_id: u128,
    prompt: String,
    selection: Option<MediaSelection>,
    description: String,
    phase: VideoPhase,
}

/// The mathematical content of a [`VideoAnalysis`].
#[verifier::ext_equal]
pub struct VideoAnalysisView {
    pub asset_id: u128,
    pub prompt: Seq<char>,
    pub selection: Option<MediaSelection>,
    pub description: Seq<char>,
    pub phase: VideoPhaseView,
}

impl View for VideoAnalysis {
    type V = VideoAnalysisView;

    closed spec fn view(&self) -> VideoAnalysisView {
        VideoAnalysisView {
            asset_id: self.asset_id,
            prompt: self.prompt@,
            selection: self.selection,
            description: self.description@,
            phase: self.phase@,
        }
    }
}

/// An analysis that has not done anything yet.
pub open spec fn analysis_start(asset_id: u128, prompt: Seq<char>) -> VideoAnalysisView {
    VideoAnalysisView {
        asset_id,
        prompt,
        selection: None,
        description: Seq::empty(),
        phase: VideoPhaseView::AwaitingPermit,
    }
}

/// The end of the segment that begins at `start`.
pub open spec fn segment_end(start: u64, duration_ms: u64) -> u64 {
    if start + SEGMENT_MILLIS < duration_ms {
        (start + SEGMENT_MILLIS) as u64
    } else {
        duration_ms
    }
}

/// The prompt for a segment: it names the interval, and says whether to listen.
pub open spec fn segment_prompt(
    prompt: Seq<char>,
    start: u64,
    end: u64,
    has_audio: bool,
) -> Seq<char> {
    prompt + "\n\nSegment interval: "@ + media_time::timestamp_text(start) + "–"@
        + media_time::timestamp_text(end) + ". "@ + if has_audio {
        "Analyze both this segment's video and audio."@
    } else {
        "This segment has no audio samples; describe only what is visible."@
    }
}

/// The entry of a segment in a description.
pub open spec fn segment_entry(start: u64, end: u64, described: Seq<char>) -> Seq<char> {
    "["@ + media_time::timestamp_text(start) + "–"@ + media_time::timestamp_text(end) + "] "@
        + text::trimmed(described)
}

/// A description with one more entry; an empty line stands between entries.
pub open spec fn with_entry(description: Seq<char>, entry: Seq<char>) -> Seq<char> {
    if description.len() == 0 {
        entry
    } else {
        description + "\n\n"@ + entry
    }
}

impl VideoAnalysisView {
    /// The streams are selected before there are segments.
    pub open spec fn wf(self) -> bool {
        match self.phase {
            VideoPhaseView::AwaitingPermit => true,
            VideoPhaseView::MakingWorkspace => true,
            VideoPhaseView::FetchingOriginal => true,
            VideoPhaseView::ProbingOriginal => true,
            VideoPhaseView::Finished(_) => true,
            _ => self.selection is Some,
        }
    }

    /// The event is an outcome of what the phase asks for.
    pub open spec fn expects(self, event: VideoEvent) -> bool {
        match self.phase {
            VideoPhaseView::AwaitingPermit => event is Permit,
            VideoPhaseView::MakingWorkspace => event is Workspace,
            VideoPhaseView::FetchingOriginal => event is Original,
            VideoPhaseView::ProbingOriginal => event is Probed,
            VideoPhaseView::Transcoding { .. } => event is Transcoded,
            VideoPhaseView::Measuring { .. } => event is Measured,
            VideoPhaseView::ProbingClip { .. } => event is Probed,
            VideoPhaseView::Describing { .. } => event is Described,
            VideoPhaseView::RemovingClip { .. } => event is ClipRemoved,
            VideoPhaseView::Finished(_) => false,
        }
    }

    /// The analysis in another phase.
    pub open spec fn in_phase(self, phase: VideoPhaseView) -> VideoAnalysisView {
        VideoAnalysisView { phase, ..self }
    }

    /// The analysis that has ended with an error.
    pub open spec fn failed(self, e: ErrorView) -> VideoAnalysisView {
        self.in_phase(VideoPhaseView::Finished(Err(e)))
    }

    /// The analysis that has ended with an error of processing the asset.
    pub open spec fn spoiled(self, error: Seq<char>) -> VideoAnalysisView {
        self.failed(streams::asset_error(self.asset_id, error))
    }

    /// The analysis at the segment that begins at `start`, or at its end if
    /// there is no such segment.
    pub open spec fn at_segment(self, start: u64) -> VideoAnalysisView {
        let selection = self.selection->0;
        let end = segment_end(start, selection.duration_ms);
        if start >= selection.duration_ms {
            self.in_phase(VideoPhaseView::Finished(Ok((self.description, self.asset_id))))
        } else {
            match transcode::transcode_args(selection, start, end, self.asset_id) {
                Ok(args) => self.in_phase(VideoPhaseView::Transcoding { start, end, args }),
                Err(e) => self.failed(e),
            }
        }
    }

    /// The analysis after the original was probed.
    pub open spec fn after_probe(self, probe: Probe) -> VideoAnalysisView {
        match streams::selected(probe, self.asset_id) {
            Ok(selection) => (VideoAnalysisView {
                selection: Some(selection),
                ..self
            }).at_segment(0),
            Err(e) => self.failed(e),
        }
    }

    /// The analysis after the clip was probed.
    pub open spec fn after_clip_probe(self, start: u64, end: u64, probe: Probe) -> VideoAnalysisView {
        match transcode::clip_sound(probe, self.asset_id) {
            Ok(has_audio) => self.in_phase(
                VideoPhaseView::Describing {
                    start,
                    end,
                    has_audio,
                    prompt: segment_prompt(self.prompt, start, end, has_audio),
                },
            ),
            Err(e) => self.failed(e),
        }
    }

    /// The analysis after a segment was described.
    pub open spec fn after_description(
        self,
        start: u64,
        end: u64,
        described: Seq<char>,
    ) -> VideoAnalysisView {
        VideoAnalysisView {
            description: with_entry(self.description, segment_entry(start, end, described)),
            phase: VideoPhaseView::RemovingClip { start, end },
            ..self
        }
    }

    /// The analysis after an event that it expects.
    pub open spec fn after(self, event: VideoEvent) -> VideoAnalysisView {
        match (self.phase, event) {
            (VideoPhaseView::AwaitingPermit, VideoEvent::Permit(Ok(_))) => self.in_phase(
                VideoPhaseView::MakingWorkspace,
            ),
            (VideoPhaseView::AwaitingPermit, VideoEvent::Permit(Err(error))) => self.spoiled(
                "Video worker is unavailable: "@ + error@,
            ),
            (VideoPhaseView::MakingWorkspace, VideoEvent::Workspace(Ok(_))) => self.in_phase(
                VideoPhaseView::FetchingOriginal,
            ),
            (VideoPhaseView::MakingWorkspace, VideoEvent::Workspace(Err(error))) => self.spoiled(
                error@,
            ),
            (VideoPhaseView::FetchingOriginal, VideoEvent::Original(outcome)) => match outcome {
                OriginalOutcome::Ready => self.in_phase(VideoPhaseView::ProbingOriginal),
                OriginalOutcome::TimedOut => self.spoiled("Original acquisition timed out"@),
                OriginalOutcome::Failed(e) => self.failed(e@),
            },
            (VideoPhaseView::ProbingOriginal, VideoEvent::Probed(Ok(probe))) => self.after_probe(
                probe,
            ),
            (VideoPhaseView::ProbingClip { start, end }, VideoEvent::Probed(Ok(probe))) => {
                self.after_clip_probe(start, end, probe)
            },
            (_, VideoEvent::Probed(Err(e))) => self.failed(e@),
            (
                VideoPhaseView::Transcoding { start, end, .. },
                VideoEvent::Transcoded(Ok(_)),
            ) => self.in_phase(VideoPhaseView::Measuring { start, end }),
            (_, VideoEvent::Transcoded(Err(e))) => self.failed(e@),
            (VideoPhaseView::Measuring { start, end }, VideoEvent::Measured(Ok(bytes))) => {
                match transcode::encoded_size_error(self.asset_id, bytes) {
                    Some(e) => self.failed(e),
                    None => self.in_phase(VideoPhaseView::ProbingClip { start, end }),
                }
            },
            (_, VideoEvent::Measured(Err(error))) => self.spoiled(error@),
            (
                VideoPhaseView::Describing { start, end, .. },
                VideoEvent::Described(Ok(segment)),
            ) => self.after_description(start, end, segment.description@),
            (_, VideoEvent::Described(Err(e))) => self.failed(e@),
            (VideoPhaseView::RemovingClip { end, .. }, VideoEvent::ClipRemoved(Ok(_))) => {
                self.at_segment(end)
            },
            (_, VideoEvent::ClipRemoved(Err(error))) => self.spoiled(error@),
            _ => self,
        }
    }
}

fn segment_prompt_text(prompt: &str, start: u64, end: u64, has_audio: bool) -> (text: String)
    ensures
        text@ == segment_prompt(prompt@, start, end, has_audio),
{
    let mut text = prompt.to_owned();
    text.append("\n\nSegment interval: ");
    text.append(timestamp(start).as_str());
    text.append("–");
    text.append(timestamp(end).as_str());
    text.append(". ");
    if has_audio {
        text.append("Analyze both this segment's video and audio.");
    } else {
        text.append("This segment has no audio samples; describe only what is visible.");
    }
    text
}

impl VideoAnalysis {
    /// What is to be done next.
    pub fn phase(&self) -> (phase: &VideoPhase)
        ensures
            phase@ == self@.phase,
    {
        &self.phase
    }

    /// The result, if the analysis is over.
    pub fn into_result(self) -> (result: Option<Result<ImageAnalysisResult, ImageAnalysisError>>)
        ensures
            match self@.phase {
                VideoPhaseView::Finished(r) => result is Some && request::analysis_view(result->0)
                    == r,
                _ => result is None,
            },
    {
        match self.phase {
            VideoPhase::Finished(result) => Some(result),
            _ => None,
        }
    }

    fn fail(&mut self, e: ImageAnalysisError)
        ensures
            final(self)@ == old(self)@.failed(e@),
    {
        self.phase = VideoPhase::Finished(Err(e));
    }

    fn spoil(&mut self, error: &str)
        ensures
            final(self)@ == old(self)@.spoiled(error@),
    {
        let e = processing_error(self.asset_id, error);
        self.phase = VideoPhase::Finished(Err(e));
    }

    fn enter_segment(&mut self, selection: MediaSelection, start: u64)
        requires
            old(self)@.selection == Some(selection),
        ensures
            final(self)@ == old(self)@.at_segment(start),
    {
        if start >= selection.duration_ms {
            self.phase =
            VideoPhase::Finished(
                Ok(
                    ImageAnalysisResult {
                        description: self.description.clone(),
                        asset_id: self.asset_id,
                    },
                ),
            );
            return ;
        }
        let next: u64 = start.saturating_add(SEGMENT_MILLIS);
        let end: u64 = if next < selection.duration_ms {
            next
        } else {
            selection.duration_ms
        };
        self.phase =
        match transcode_arguments(&selection, start, end, self.asset_id) {
            Ok(args) => VideoPhase::Transcoding { start, end, args },
            Err(e) => VideoPhase::Finished(Err(e)),
        };
    }

    fn on_probe(&mut self, probe: &Probe)
        ensures
            final(self)@ == old(self)@.after_probe(*probe),
    {
        match select_streams(probe, self.asset_id) {
            Ok(selection) => {
                self.selection = Some(selection);
                self.enter_segment(selection, 0);
            },
            Err(e) => {
                self.fail(e);
            },
        }
    }

    fn on_clip_probe(&mut self, start: u64, end: u64, probe: &Probe)
        ensures
            final(self)@ == old(self)@.after_clip_probe(start, end, *probe),
    {
        match check_packets(probe, self.asset_id) {
            Ok(has_audio) => {
                let prompt = segment_prompt_text(self.prompt.as_str(), start, end, has_audio);
                self.phase = VideoPhase::Describing { start, end, has_audio, prompt };
            },
            Err(e) => {
                self.fail(e);
            },
        }
    }

    fn on_description(&mut self, start: u64, end: u64, described: &str)
        ensures
            final(self)@ == old(self)@.after_description(start, end, described@),
    {
        let mut entry = "[".to_owned();
        entry.append(timestamp(start).as_str());
        entry.append("–");
        entry.append(timestamp(end).as_str());
        entry.append("] ");
        entry.append(trim_text(described).as_str());
        if self.description.as_str().is_empty() {
            self.description = entry;
        } else {
            self.description.append("\n\n");
            self.description.append(entry.as_str());
        }
        self.phase = VideoPhase::RemovingClip { start, end };
    }

    /// Takes an outcome of what the phase asks for, and goes on to the next phase.
    pub fn on_event(self, event: VideoEvent) -> (next: VideoAnalysis)
        requires
            self@.wf(),
            self@.expects(event),
        ensures
            next@ == self@.after(event),
            next@.wf(),
    {
        let VideoAnalysis { asset_id, prompt, selection, description, phase } = self;
        let mut next = VideoAnalysis {
            asset_id,
            prompt,
            selection,
            description,
            phase: VideoPhase::AwaitingPermit,
        };
        match (phase, event) {
            (VideoPhase::AwaitingPermit, VideoEvent::Permit(Ok(_))) => {
                next.phase = VideoPhase::MakingWorkspace;
            },
            (VideoPhase::AwaitingPermit, VideoEvent::Permit(Err(error))) => {
                let mut message = "Video worker is unavailable: ".to_owned();
                message.append(error.as_str());
                next.spoil(message.as_str());
            },
            (VideoPhase::MakingWorkspace, VideoEvent::Workspace(Ok(_))) => {
                next.phase = VideoPhase::FetchingOriginal;
            },
            (VideoPhase::MakingWorkspace, VideoEvent::Workspace(Err(error))) => {
                next.spoil(error.as_str());
            },
            (VideoPhase::FetchingOriginal, VideoEvent::Original(outcome)) => match outcome {
                OriginalOutcome::Ready => {
                    next.phase = VideoPhase::ProbingOriginal;
                },
                OriginalOutcome::TimedOut => {
                    next.spoil("Original acquisition timed out");
                },
                OriginalOutcome::Failed(e) => {
                    next.fail(e);
                },
            },
            (VideoPhase::ProbingOriginal, VideoEvent::Probed(Ok(probe))) => {
                next.on_probe(&probe);
            },
            (VideoPhase::ProbingClip { start, end }, VideoEvent::Probed(Ok(probe))) => {
                next.on_clip_probe(start, end, &probe);
            },
            (_, VideoEvent::Probed(Err(e))) => {
                next.fail(e);
            },
            (VideoPhase::Transcoding { start, end, .. }, VideoEvent::Transcoded(Ok(_))) => {
                next.phase = VideoPhase::Measuring { start, end };
            },
            (_, VideoEvent::Transcoded(Err(e))) => {
                next.fail(e);
            },
            (VideoPhase::Measuring { start, end }, VideoEvent::Measured(Ok(bytes))) => {
                match check_encoded_size(asset_id, bytes) {
                    Ok(()) => {
                        next.phase = VideoPhase::ProbingClip { start, end };
                    },
                    Err(e) => {
                        next.fail(e);
                    },
                }
            },
            (_, VideoEvent::Measured(Err(error))) => {
                next.spoil(error.as_str());
            },
            (VideoPhase::Describing { start, end, .. }, VideoEvent::Described(Ok(segment))) => {
                next.on_description(start, end, segment.description.as_str());
            },
            (_, VideoEvent::Described(Err(e))) => {
                next.fail(e);
            },
            (VideoPhase::RemovingClip { end, .. }, VideoEvent::ClipRemoved(Ok(_))) => {
                if let Some(selection) = selection {
                    next.enter_segment(selection, end);
                }
            },
            (_, VideoEvent::ClipRemoved(Err(error))) => {
                next.spoil(error.as_str());
            },
            _ => {},
        }
        next
    }
}

} // verus!
