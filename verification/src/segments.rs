//! What holds of the analysis of a video as a whole: its segments cover the
//! video, and its description has an entry for every one of them.
use crate::error::ErrorView;
use crate::interface::Interface;
use crate::media_time;
use crate::streams;
use crate::streams::{MediaSelection, Probe};
use crate::text;
use crate::transcode;
use crate::video_analysis;
use crate::video_analysis::{
    OriginalOutcome, VideoAnalysisView, VideoAnalyzerView, VideoArgs, VideoEvent, VideoPhaseView,
    SEGMENT_MILLIS,
};
use vstd::prelude::*;

verus! {

/// How many segments a video of the duration has.
pub open spec fn segment_count(duration_ms: u64) -> nat {
    ((duration_ms + SEGMENT_MILLIS - 1) / SEGMENT_MILLIS as int) as nat
}

/// Where segment `k` begins.
pub open spec fn segment_start(k: int) -> u64 {
    (k * SEGMENT_MILLIS) as u64
}

proof fn lemma_segment_start(duration_ms: u64, k: int)
    requires
        0 <= k < segment_count(duration_ms),
    ensures
        k * SEGMENT_MILLIS < duration_ms,
        segment_start(k) == k * SEGMENT_MILLIS,
        k + 1 == segment_count(duration_ms) ==> (k + 1) * SEGMENT_MILLIS >= duration_ms,
{
}

/// The segments cover the video from its beginning to its end without a gap and
/// without overlap; each is at most [`SEGMENT_MILLIS`] long, and none is empty.
/// A short rest at the end is a segment of its own.
pub proof fn law_segments_cover_the_video(duration_ms: u64, k: int)
    requires
        0 <= k < segment_count(duration_ms),
    ensures
        segment_start(0) == 0,
        segment_start(k) < video_analysis::segment_end(segment_start(k), duration_ms)
            <= duration_ms,
        video_analysis::segment_end(segment_start(k), duration_ms) - segment_start(k)
            <= SEGMENT_MILLIS,
        k + 1 < segment_count(duration_ms) ==> video_analysis::segment_end(
            segment_start(k),
            duration_ms,
        ) == segment_start(k + 1) && video_analysis::segment_end(segment_start(k), duration_ms)
            - segment_start(k) == SEGMENT_MILLIS,
        k + 1 == segment_count(duration_ms) ==> video_analysis::segment_end(
            segment_start(k),
            duration_ms,
        ) == duration_ms,
{
    lemma_segment_start(duration_ms, k);
    if k + 1 < segment_count(duration_ms) {
        lemma_segment_start(duration_ms, k + 1);
    }
}

/// The description of a video whose first segments were described so.
pub open spec fn assembled(duration_ms: u64, described: Seq<Seq<char>>) -> Seq<char>
    decreases described.len(),
{
    if described.len() == 0 {
        Seq::empty()
    } else {
        let start = segment_start(described.len() - 1);
        video_analysis::with_entry(
            assembled(duration_ms, described.drop_last()),
            video_analysis::segment_entry(
                start,
                video_analysis::segment_end(start, duration_ms),
                described.last(),
            ),
        )
    }
}

/// The analysis after a series of events.
pub open spec fn after_all(analysis: VideoAnalysisView, events: Seq<VideoEvent>) -> VideoAnalysisView
    decreases events.len(),
{
    if events.len() == 0 {
        analysis
    } else {
        after_all(analysis, events.drop_last()).after(events.last())
    }
}

/// The events are what the analysis asks for one after the other.
pub open spec fn possible(analysis: VideoAnalysisView, events: Seq<VideoEvent>) -> bool
    decreases events.len(),
{
    events.len() > 0 ==> possible(analysis, events.drop_last()) && after_all(
        analysis,
        events.drop_last(),
    ).expects(events.last())
}

/// The descriptions of segments among the events.
pub open spec fn descriptions(events: Seq<VideoEvent>) -> Seq<Seq<char>>
    decreases events.len(),
{
    if events.len() == 0 {
        Seq::empty()
    } else {
        let before = descriptions(events.drop_last());
        match events.last() {
            VideoEvent::Described(Ok(segment)) => before.push(segment.description@),
            _ => before,
        }
    }
}

/// The segment that is worked on comes after those that were described.
pub open spec fn in_segment(
    analysis: VideoAnalysisView,
    start: u64,
    end: u64,
    k: int,
) -> bool {
    &&& analysis.selection is Some
    &&& 0 <= k < segment_count(analysis.selection->0.duration_ms)
    &&& start == segment_start(k)
    &&& end == video_analysis::segment_end(start, analysis.selection->0.duration_ms)
}

/// What the phase of an analysis says of the segments that were described.
pub open spec fn consistent(analysis: VideoAnalysisView, described: Seq<Seq<char>>) -> bool {
    let k = described.len() as int;
    let duration_ms = analysis.selection->0.duration_ms;
    &&& analysis.selection is None ==> k == 0 && analysis.description.len() == 0
    &&& analysis.selection is Some ==> analysis.description == assembled(duration_ms, described)
    &&& match analysis.phase {
        VideoPhaseView::Transcoding { start, end, .. } => in_segment(analysis, start, end, k),
        VideoPhaseView::Measuring { start, end } => in_segment(analysis, start, end, k),
        VideoPhaseView::ProbingClip { start, end } => in_segment(analysis, start, end, k),
        VideoPhaseView::Describing { start, end, .. } => in_segment(analysis, start, end, k),
        VideoPhaseView::RemovingClip { start, end } => in_segment(analysis, start, end, k - 1),
        VideoPhaseView::Finished(Ok((description, asset_id))) => {
            &&& analysis.selection is Some
            &&& k == segment_count(duration_ms)
            &&& description == analysis.description
            &&& asset_id == analysis.asset_id
        },
        VideoPhaseView::Finished(Err(_)) => true,
        _ => analysis.selection is None,
    }
}

proof fn lemma_at_segment(analysis: VideoAnalysisView, described: Seq<Seq<char>>, start: u64)
    requires
        analysis.selection is Some,
        analysis.description == assembled(analysis.selection->0.duration_ms, described),
        described.len() <= segment_count(analysis.selection->0.duration_ms),
        start == if described.len() < segment_count(analysis.selection->0.duration_ms) {
            segment_start(described.len() as int)
        } else {
            analysis.selection->0.duration_ms
        },
    ensures
        consistent(analysis.at_segment(start), described),
{
    let duration_ms = analysis.selection->0.duration_ms;
    if described.len() < segment_count(duration_ms) {
        lemma_segment_start(duration_ms, described.len() as int);
    }
}

proof fn lemma_step(analysis: VideoAnalysisView, event: VideoEvent, described: Seq<Seq<char>>)
    requires
        consistent(analysis, described),
        analysis.expects(event),
    ensures
        consistent(
            analysis.after(event),
            match event {
                VideoEvent::Described(Ok(segment)) => described.push(segment.description@),
                _ => described,
            },
        ),
        analysis.after(event).asset_id == analysis.asset_id,
        analysis.selection is Some ==> analysis.after(event).selection == analysis.selection,
{
    match (analysis.phase, event) {
        (VideoPhaseView::ProbingOriginal, VideoEvent::Probed(Ok(probe))) => {
            if let Ok(selection) = streams::selected(probe, analysis.asset_id) {
                let chosen = VideoAnalysisView { selection: Some(selection), ..analysis };
                assert(chosen.description =~= assembled(selection.duration_ms, described));
                lemma_at_segment(chosen, described, 0);
            }
        },
        (
            VideoPhaseView::Describing { start, end, .. },
            VideoEvent::Described(Ok(segment)),
        ) => {
            let more = described.push(segment.description@);
            assert(more.drop_last() =~= described);
        },
        (VideoPhaseView::RemovingClip { start, end }, VideoEvent::ClipRemoved(Ok(_))) => {
            let duration_ms = analysis.selection->0.duration_ms;
            let k = described.len() - 1;
            law_segments_cover_the_video(duration_ms, k);
            lemma_at_segment(analysis, described, end);
        },
        _ => {},
    }
}

proof fn lemma_all(analysis: VideoAnalysisView, events: Seq<VideoEvent>)
    requires
        consistent(analysis, Seq::empty()),
        possible(analysis, events),
    ensures
        consistent(after_all(analysis, events), descriptions(events)),
        after_all(analysis, events).asset_id == analysis.asset_id,
    decreases events.len(),
{
    if events.len() > 0 {
        lemma_all(analysis, events.drop_last());
        lemma_step(
            after_all(analysis, events.drop_last()),
            events.last(),
            descriptions(events.drop_last()),
        );
    }
}

/// An analysis that succeeds has described every segment of the video, in order:
/// its description is made of the entries of all segments, and it is that of the
/// asset that was asked for.
pub proof fn law_whole_video_is_described(asset_id: u128, prompt: Seq<char>, events: Seq<VideoEvent>)
    requires
        possible(video_analysis::analysis_start(asset_id, prompt), events),
    ensures
        ({
            let end = after_all(video_analysis::analysis_start(asset_id, prompt), events);
            end.phase matches VideoPhaseView::Finished(Ok((description, id))) ==> {
                &&& id == asset_id
                &&& end.selection is Some
                &&& descriptions(events).len() == segment_count(end.selection->0.duration_ms)
                &&& description == assembled(
                    end.selection->0.duration_ms,
                    descriptions(events),
                )
            }
        }),
{
    lemma_all(video_analysis::analysis_start(asset_id, prompt), events);
}

/// The event reports that something went wrong.
pub open spec fn is_failure(event: VideoEvent) -> bool {
    match event {
        VideoEvent::Permit(r) => r is Err,
        VideoEvent::Workspace(r) => r is Err,
        VideoEvent::Original(outcome) => !(outcome is Ready),
        VideoEvent::Probed(r) => r is Err,
        VideoEvent::Transcoded(r) => r is Err,
        VideoEvent::Measured(r) => r is Err,
        VideoEvent::Described(r) => r is Err,
        VideoEvent::ClipRemoved(r) => r is Err,
    }
}

/// No partial result: whatever goes wrong, at whatever point, ends the analysis
/// with an error, and the descriptions of earlier segments are not returned. So
/// do a clip of an impossible size and a clip without pictures.
pub proof fn law_failure_gives_no_partial_result(analysis: VideoAnalysisView, event: VideoEvent)
    requires
        analysis.expects(event),
    ensures
        is_failure(event) ==> (analysis.after(event).phase matches VideoPhaseView::Finished(r)
            && r is Err),
        (analysis.phase is Measuring && (event matches VideoEvent::Measured(Ok(bytes)) && !(1
            <= bytes <= transcode::MAX_CLIP_BYTES))) ==> (analysis.after(event).phase
            matches VideoPhaseView::Finished(r) && r is Err),
        (analysis.phase is ProbingClip && (event matches VideoEvent::Probed(Ok(probe))
            && !transcode::delivers(probe.streams@, "video"@))) ==> (analysis.after(event).phase
            matches VideoPhaseView::Finished(r) && r is Err),
{
}

/// Errors of the AI service and of the download are handed on as they are.
pub proof fn law_errors_are_handed_on(analysis: VideoAnalysisView, event: VideoEvent)
    requires
        analysis.expects(event),
    ensures
        event matches VideoEvent::Described(Err(e)) ==> analysis.after(event) == analysis.failed(
            e@,
        ),
        event matches VideoEvent::Original(OriginalOutcome::Failed(e)) ==> analysis.after(event)
            == analysis.failed(e@),
{
}

/// Each segment is sent with its own interval and with its own sound: the model
/// is told to listen exactly if the clip has sound.
pub proof fn law_prompt_follows_the_clip(
    analysis: VideoAnalysisView,
    start: u64,
    end: u64,
    probe: Probe,
)
    requires
        analysis.phase == (VideoPhaseView::ProbingClip { start, end }),
        transcode::delivers(probe.streams@, "video"@),
    ensures
        analysis.after(VideoEvent::Probed(Ok(probe))).phase == (VideoPhaseView::Describing {
            start,
            end,
            has_audio: transcode::delivers(probe.streams@, "audio"@),
            prompt: video_analysis::segment_prompt(
                analysis.prompt,
                start,
                end,
                transcode::delivers(probe.streams@, "audio"@),
            ),
        }),
{
}

/// How many events have led to the phase of an analysis with `k` described segments.
pub open spec fn events_before(phase: VideoPhaseView, k: int) -> int {
    match phase {
        VideoPhaseView::AwaitingPermit => 0,
        VideoPhaseView::MakingWorkspace => 1,
        VideoPhaseView::FetchingOriginal => 2,
        VideoPhaseView::ProbingOriginal => 3,
        VideoPhaseView::Transcoding { .. } => 4 + 5 * k,
        VideoPhaseView::Measuring { .. } => 5 + 5 * k,
        VideoPhaseView::ProbingClip { .. } => 6 + 5 * k,
        VideoPhaseView::Describing { .. } => 7 + 5 * k,
        VideoPhaseView::RemovingClip { .. } => 3 + 5 * k,
        VideoPhaseView::Finished(Ok(_)) => 4 + 5 * k,
        VideoPhaseView::Finished(Err(_)) => 0,
    }
}

proof fn lemma_events_before(analysis: VideoAnalysisView, events: Seq<VideoEvent>)
    requires
        consistent(analysis, Seq::empty()),
        analysis.phase is AwaitingPermit,
        possible(analysis, events),
        forall|i: int| 0 <= i < events.len() ==> !is_failure(#[trigger] events[i]),
    ensures
        ({
            let end = after_all(analysis, events);
            (end.phase matches VideoPhaseView::Finished(r) && r is Err) || events.len()
                == events_before(end.phase, descriptions(events).len() as int)
        }),
    decreases events.len(),
{
    if events.len() > 0 {
        let front = events.drop_last();
        assert forall|i: int| 0 <= i < front.len() implies !is_failure(#[trigger] front[i]) by {
            assert(front[i] == events[i]);
        }
        lemma_events_before(analysis, front);
        lemma_all(analysis, front);
        let before = after_all(analysis, front);
        assert(!is_failure(events[events.len() - 1]));
        assert(before.expects(events.last()));
    }
}

/// An analysis makes steady progress: four steps prepare it, and five more are
/// made for each segment. When nothing goes wrong, it has succeeded after exactly
/// that many steps.
pub proof fn law_analysis_progresses(asset_id: u128, prompt: Seq<char>, events: Seq<VideoEvent>)
    requires
        possible(video_analysis::analysis_start(asset_id, prompt), events),
        forall|i: int| 0 <= i < events.len() ==> !is_failure(#[trigger] events[i]),
        !(after_all(
            video_analysis::analysis_start(asset_id, prompt),
            events,
        ).phase matches VideoPhaseView::Finished(r) && r is Err),
    ensures
        ({
            let end = after_all(video_analysis::analysis_start(asset_id, prompt), events);
            &&& end.selection is None ==> events.len() < 4
            &&& end.selection is Some ==> events.len() <= 4 + 5 * segment_count(
                end.selection->0.duration_ms,
            )
            &&& end.phase is Finished <==> end.selection is Some && events.len() == 4 + 5
                * segment_count(end.selection->0.duration_ms)
        }),
{
    let start = video_analysis::analysis_start(asset_id, prompt);
    lemma_events_before(start, events);
    lemma_all(start, events);
}

/// Segments are 30 seconds long, but for the last, which ends with the video:
/// segment `k` begins after `k` times 30 seconds, and there are as many as it
/// takes to reach the end.
pub proof fn law_segments_are_thirty_seconds(duration_ms: u64, k: int)
    requires
        0 <= k < segment_count(duration_ms),
    ensures
        segment_start(k) == k * 30_000,
        k * 30_000 < duration_ms,
        video_analysis::segment_end(segment_start(k), duration_ms) == if (k + 1) * 30_000
            < duration_ms {
            (k + 1) * 30_000
        } else {
            duration_ms as int
        },
        (segment_count(duration_ms) - 1) * 30_000 < duration_ms <= segment_count(duration_ms)
            * 30_000,
{
    lemma_segment_start(duration_ms, k);
}

/// Where the next segment of a video ends that begins at `start`.
pub open spec fn thirty_seconds_on(start: int, duration_ms: u64) -> int {
    if start + 30_000 < duration_ms {
        start + 30_000
    } else {
        duration_ms as int
    }
}

/// The description of a video lists its segments in order, each with the time
/// stamps of its beginning and end and with what was said of it, without white
/// space at the ends; an empty line stands between two of them.
pub proof fn law_entries_are_listed_in_order(
    duration_ms: u64,
    described: Seq<Seq<char>>,
    next: Seq<char>,
)
    requires
        described.len() < segment_count(duration_ms),
    ensures
        ({
            let start = described.len() * 30_000;
            let entry = "["@ + media_time::timestamp_text(start as u64) + "–"@
                + media_time::timestamp_text(thirty_seconds_on(start as int, duration_ms) as u64)
                + "] "@ + text::trimmed(next);
            assembled(duration_ms, described.push(next)) == if described.len() == 0 {
                entry
            } else {
                assembled(duration_ms, described) + "\n\n"@ + entry
            }
        }),
{
    let all = described.push(next);
    assert(all.drop_last() =~= described);
    law_segments_are_thirty_seconds(duration_ms, described.len() as int);
    if described.len() > 0 {
        lemma_assembled_not_empty(duration_ms, described);
    } else {
        assert(assembled(duration_ms, described).len() == 0);
    }
}

proof fn lemma_assembled_not_empty(duration_ms: u64, described: Seq<Seq<char>>)
    requires
        described.len() > 0,
    ensures
        assembled(duration_ms, described).len() > 0,
{
    reveal_strlit("[");
}

/// The prompt of a segment is the prompt of the analysis, the interval of the
/// segment, and whether to listen.
pub proof fn law_segment_prompts_name_the_interval(
    prompt: Seq<char>,
    start: u64,
    end: u64,
)
    ensures
        video_analysis::segment_prompt(prompt, start, end, true) == prompt
            + "\n\nSegment interval: "@ + media_time::timestamp_text(start) + "–"@
            + media_time::timestamp_text(end) + ". "@
            + "Analyze both this segment's video and audio."@,
        video_analysis::segment_prompt(prompt, start, end, false) == prompt
            + "\n\nSegment interval: "@ + media_time::timestamp_text(start) + "–"@
            + media_time::timestamp_text(end) + ". "@
            + "This segment has no audio samples; describe only what is visible."@,
{
}

/// The place of a moment of the selected video in its container can be written in
/// 64 bits of microseconds.
pub open spec fn can_be_sought(selection: MediaSelection, start: int) -> bool {
    start * 1000 + selection.start_offset_micros <= u64::MAX
}

/// Nothing goes wrong with the event: no step has failed, the original can be
/// used, the clip has a possible size and pictures, and the next segment, if there
/// is one, can be sought.
pub open spec fn goes_well(analysis: VideoAnalysisView, event: VideoEvent) -> bool {
    &&& !is_failure(event)
    &&& match analysis.phase {
        VideoPhaseView::ProbingOriginal => event matches VideoEvent::Probed(Ok(probe))
            ==> streams::selected(probe, analysis.asset_id) is Ok,
        VideoPhaseView::Measuring { .. } => event matches VideoEvent::Measured(Ok(bytes)) ==> 1
            <= bytes <= 16 * 1024 * 1024,
        VideoPhaseView::ProbingClip { .. } => event matches VideoEvent::Probed(Ok(probe))
            ==> exists|i: int|
            0 <= i < probe.streams@.len() && transcode::packets_counted(
                #[trigger] probe.streams@[i],
                "video"@,
            ),
        VideoPhaseView::RemovingClip { end, .. } => analysis.selection is Some && (end
            >= analysis.selection->0.duration_ms || can_be_sought(
            analysis.selection->0,
            end as int,
        )),
        _ => true,
    }
}

/// An analysis never fails without a cause: as long as everything goes well it
/// goes on, or ends with a description.
pub proof fn law_nothing_fails_without_a_cause(analysis: VideoAnalysisView, event: VideoEvent)
    requires
        analysis.expects(event),
        goes_well(analysis, event),
    ensures
        !(analysis.after(event).phase matches VideoPhaseView::Finished(r) && r is Err),
        analysis.after(event).asset_id == analysis.asset_id,
        analysis.after(event).prompt == analysis.prompt,
{
    match (analysis.phase, event) {
        (VideoPhaseView::ProbingOriginal, VideoEvent::Probed(Ok(probe))) => {
            streams::law_selection_shows_moving_pictures(probe, analysis.asset_id);
        },
        (VideoPhaseView::ProbingClip { start, end }, VideoEvent::Probed(Ok(probe))) => {
            transcode::law_packets_decide(probe, analysis.asset_id);
        },
        _ => {},
    }
}

/// The steps of an analysis in their order: a permit, a workspace, the original,
/// its probe; then for each segment its encoding, its size, its packets, its
/// description and its removal; and then the next segment, until the end of the
/// video, where the description of all of them is the result.
pub proof fn law_steps_follow_in_order(
    analysis: VideoAnalysisView,
    event: VideoEvent,
)
    requires
        analysis.expects(event),
        goes_well(analysis, event),
    ensures
        match analysis.phase {
            VideoPhaseView::AwaitingPermit => analysis.after(event) == analysis.in_phase(
                VideoPhaseView::MakingWorkspace,
            ),
            VideoPhaseView::MakingWorkspace => analysis.after(event) == analysis.in_phase(
                VideoPhaseView::FetchingOriginal,
            ),
            VideoPhaseView::FetchingOriginal => analysis.after(event) == analysis.in_phase(
                VideoPhaseView::ProbingOriginal,
            ),
            VideoPhaseView::ProbingOriginal => {
                &&& event matches VideoEvent::Probed(Ok(probe))
                &&& streams::selected(probe, analysis.asset_id) matches Ok(selection)
                &&& analysis.after(event).selection == Some(selection)
                &&& encodes(analysis.after(event), 0)
                &&& analysis.after(event).description == analysis.description
            },
            VideoPhaseView::Transcoding { start, end, .. } => analysis.after(event)
                == analysis.in_phase(VideoPhaseView::Measuring { start, end }),
            VideoPhaseView::Measuring { start, end } => analysis.after(event) == analysis.in_phase(
                VideoPhaseView::ProbingClip { start, end },
            ),
            VideoPhaseView::ProbingClip { start, end } => {
                &&& analysis.after(event).phase matches VideoPhaseView::Describing {
                    start: s,
                    end: e,
                    ..
                }
                &&& s == start
                &&& e == end
                &&& analysis.after(event).description == analysis.description
                &&& analysis.after(event).selection == analysis.selection
            },
            VideoPhaseView::Describing { start, end, .. } => {
                &&& event matches VideoEvent::Described(Ok(segment))
                &&& analysis.after(event).phase == (VideoPhaseView::RemovingClip { start, end })
                &&& analysis.after(event).selection == analysis.selection
            },
            VideoPhaseView::RemovingClip { end, .. } => {
                &&& analysis.after(event).selection == analysis.selection
                &&& analysis.after(event).description == analysis.description
                &&& end < analysis.selection->0.duration_ms ==> encodes(
                    analysis.after(event),
                    end as int,
                )
                &&& end >= analysis.selection->0.duration_ms ==> analysis.after(event).phase
                    == VideoPhaseView::Finished(
                    Ok((analysis.description, analysis.asset_id)),
                )
            },
            VideoPhaseView::Finished(_) => true,
        },
{
    match (analysis.phase, event) {
        (VideoPhaseView::ProbingOriginal, VideoEvent::Probed(Ok(probe))) => {
            streams::law_selection_shows_moving_pictures(probe, analysis.asset_id);
        },
        (VideoPhaseView::ProbingClip { start, end }, VideoEvent::Probed(Ok(probe))) => {
            transcode::law_packets_decide(probe, analysis.asset_id);
        },
        _ => {},
    }
}

/// The segment that begins at `start` is to be encoded, 30 seconds or up to the
/// end of the video.
pub open spec fn encodes(analysis: VideoAnalysisView, start: int) -> bool {
    &&& analysis.selection matches Some(selection)
    &&& analysis.phase matches VideoPhaseView::Transcoding { start: s, end, args }
    &&& s == start
    &&& end == thirty_seconds_on(start, selection.duration_ms)
    &&& transcode::transcode_args(selection, s, end, analysis.asset_id) == Ok::<
        Seq<transcode::MediaArgView>,
        ErrorView,
    >(args)
}

/// What goes wrong before the first segment is told: that no worker is to be had,
/// that there is no workspace, that the original did not come in time.
pub proof fn law_preparations_tell_why_they_failed(
    analysis: VideoAnalysisView,
    error: String,
)
    ensures
        analysis.phase is AwaitingPermit ==> analysis.after(VideoEvent::Permit(Err(error))).phase
            == VideoPhaseView::Finished(
            Err(
                streams::asset_error(
                    analysis.asset_id,
                    "Video worker is unavailable: "@ + error@,
                ),
            ),
        ),
        analysis.phase is MakingWorkspace ==> analysis.after(
            VideoEvent::Workspace(Err(error)),
        ).phase == VideoPhaseView::Finished(
            Err(streams::asset_error(analysis.asset_id, error@)),
        ),
        analysis.phase is FetchingOriginal ==> analysis.after(
            VideoEvent::Original(OriginalOutcome::TimedOut),
        ).phase == VideoPhaseView::Finished(
            Err(
                streams::asset_error(
                    analysis.asset_id,
                    "Original acquisition timed out"@,
                ),
            ),
        ),
        analysis.phase is Measuring ==> analysis.after(VideoEvent::Measured(Err(error))).phase
            == VideoPhaseView::Finished(
            Err(streams::asset_error(analysis.asset_id, error@)),
        ),
        analysis.phase is RemovingClip ==> analysis.after(
            VideoEvent::ClipRemoved(Err(error)),
        ).phase == VideoPhaseView::Finished(
            Err(streams::asset_error(analysis.asset_id, error@)),
        ),
{
}

/// Videos are analyzed exactly if there are hosts, the number of concurrent
/// videos is possible, and both media programs work; the first fault is told.
pub proof fn law_settings_decide(
    args: VideoArgs,
    ffmpeg_error: Option<String>,
    ffprobe_error: Option<String>,
)
    ensures
        ({
            let analyzer = video_analysis::analyzer_for(args, ffmpeg_error, ffprobe_error);
            let possible = 1 <= args.video_max_concurrent <= usize::MAX / 8;
            &&& args.video_hosts@.len() == 0 ==> analyzer == Ok::<
                Option<VideoAnalyzerView>,
                ErrorView,
            >(None)
            &&& args.video_hosts@.len() > 0 && !possible ==> analyzer == Err::<
                Option<VideoAnalyzerView>,
                ErrorView,
            >(
                ErrorView::InvalidConfig {
                    error: "Video concurrency must be between 1 and "@ + text::decimal(
                        (usize::MAX / 8) as nat,
                    ),
                },
            )
            &&& args.video_hosts@.len() > 0 && possible ==> match (ffmpeg_error, ffprobe_error) {
                (Some(error), _) => analyzer == Err::<Option<VideoAnalyzerView>, ErrorView>(
                    ErrorView::InvalidConfig {
                        error: "Video analysis requires working "@ + "ffmpeg"@ + ": "@ + error@,
                    },
                ),
                (None, Some(error)) => analyzer == Err::<Option<VideoAnalyzerView>, ErrorView>(
                    ErrorView::InvalidConfig {
                        error: "Video analysis requires working "@ + "ffprobe"@ + ": "@ + error@,
                    },
                ),
                (None, None) => analyzer matches Ok(Some(a)) && follows(a, args),
            }
        }),
{
}

/// The analyzer is set up as the settings say: 0 rounds mean no limit, and times
/// in seconds are kept in nanoseconds. No host has failed yet.
pub open spec fn follows(analyzer: VideoAnalyzerView, args: VideoArgs) -> bool {
    let hosts = analyzer.host_manager;
    &&& hosts.hosts.len() == args.video_hosts@.len()
    &&& forall|i: int| 0 <= i < hosts.hosts.len() ==> #[trigger] hosts.hosts[i]
        == args.video_hosts@[i]@
    &&& hosts.interface == Interface::Llamacpp
    &&& hosts.model_name == args.video_model_name@
    &&& hosts.timeout == args.timeout
    &&& args.max_retries == 0 <==> hosts.max_retries is None
    &&& args.max_retries > 0 ==> hosts.max_retries == Some(args.max_retries)
    &&& hosts.retry_delay == args.retry_delay_seconds * 1_000_000_000
    &&& hosts.unavailable_duration == args.unavailable_duration * 1_000_000_000
    &&& hosts.unavailable == Map::<Seq<char>, u128>::empty()
    &&& args.video_api_key is None <==> hosts.api_key is None
    &&& args.video_api_key matches Some(key) ==> hosts.api_key == Some(key@)
    &&& analyzer.prompt == args.video_prompt@
    &&& analyzer.max_bytes == args.video_max_bytes
    &&& analyzer.timeout == args.timeout
    &&& analyzer.max_concurrent == args.video_max_concurrent
}

} // verus!
