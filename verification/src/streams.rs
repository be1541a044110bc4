//! What `ffprobe` tells of a media file, and which of its streams are analyzed.
use crate::error;
use crate::error::{ErrorView, ImageAnalysisError};
use crate::ids;
use crate::ids::id_text;
use crate::media_time;
use crate::media_time::{duration_millis, time_micros};
use crate::text::same_text;
use vstd::prelude::*;

verus! {

/// What `ffprobe` tells of a media file.
#[derive(Debug)]
pub struct Probe {
    pub streams: Vec<ProbeStream>,
    pub format: Option<ProbeFormat>,
}

/// What `ffprobe` tells of a stream.
#[derive(Debug)]
pub struct ProbeStream {
    pub index: Option<u32>,
    pub codec_type: String,
    pub duration: Option<String>,
    pub start_time: Option<String>,
    pub nb_read_packets: Option<String>,
    pub disposition: Option<Disposition>,
}

/// What a stream is for.
#[derive(Debug, Clone, Copy, PartialEq, Eq, Structural)]
pub struct Disposition {
    /// Not 0 if the stream is a picture, such as the cover of an album.
    pub attached_pic: u8,
}

/// What `ffprobe` tells of the container.
#[derive(Debug)]
pub struct ProbeFormat {
    pub duration: Option<String>,
    pub start_time: Option<String>,
}

/// The streams that are analyzed, for how long, and where the video begins in
/// the container.
#[derive(Debug, Clone, Copy, PartialEq, Eq, Structural)]
pub struct MediaSelection {
    pub video_index: u32,
    pub audio_index: Option<u32>,
    pub duration_ms: u64,
    pub start_offset_micros: u64,
}

/// An error of processing the asset.
pub open spec fn asset_error(asset_id: u128, error: Seq<char>) -> ErrorView {
    ErrorView::ProcessingError { filename: ids::hyphenated(asset_id), error }
}

/// An error of processing the asset.
pub fn processing_error(asset_id: u128, error: &str) -> (e: ImageAnalysisError)
    ensures
        e@ == asset_error(asset_id, error@),
{
    ImageAnalysisError::ProcessingError { filename: id_text(asset_id), error: error.to_owned() }
}

/// A stream of moving pictures.
pub open spec fn is_video(stream: ProbeStream) -> bool {
    &&& stream.codec_type@ == "video"@
    &&& stream.disposition is Some ==> stream.disposition->0.attached_pic == 0
}

/// A stream of sound.
pub open spec fn is_audio(stream: ProbeStream) -> bool {
    stream.codec_type@ == "audio"@
}

/// What a stream plays.
#[derive(Debug, Clone, Copy, PartialEq, Eq, Structural)]
pub enum StreamKind {
    Video,
    Audio,
}

/// A stream of the given kind.
pub open spec fn plays(stream: ProbeStream, kind: StreamKind) -> bool {
    match kind {
        StreamKind::Video => is_video(stream),
        StreamKind::Audio => is_audio(stream),
    }
}

/// The first stream of the given kind.
pub open spec fn first_stream(streams: Seq<ProbeStream>, kind: StreamKind) -> Option<ProbeStream>
    decreases streams.len(),
{
    if streams.len() == 0 {
        None
    } else if plays(streams[0], kind) {
        Some(streams[0])
    } else {
        first_stream(streams.drop_first(), kind)
    }
}

/// The first stream of moving pictures.
pub open spec fn first_video(streams: Seq<ProbeStream>) -> Option<ProbeStream> {
    first_stream(streams, StreamKind::Video)
}

/// The first stream of sound.
pub open spec fn first_audio(streams: Seq<ProbeStream>) -> Option<ProbeStream> {
    first_stream(streams, StreamKind::Audio)
}

/// The moment that an optional text gives.
pub open spec fn moment_of(text: Option<String>) -> Option<i64> {
    match text {
        Some(t) => media_time::moment(t@),
        None => None,
    }
}

/// The earliest moment at which one of the streams starts.
pub open spec fn earliest_start(streams: Seq<ProbeStream>) -> Option<i64>
    decreases streams.len(),
{
    if streams.len() == 0 {
        None
    } else {
        let before = earliest_start(streams.drop_last());
        match moment_of(streams.last().start_time) {
            None => before,
            Some(moment) => if before is Some && before->0 <= moment {
                before
            } else {
                Some(moment)
            },
        }
    }
}

/// The moment at which the container starts: as it says itself, or else when the
/// first stream starts, or else 0.
pub open spec fn container_start(probe: Probe) -> i64 {
    let said = match probe.format {
        Some(format) => moment_of(format.start_time),
        None => None,
    };
    match said {
        Some(moment) => moment,
        None => match earliest_start(probe.streams@) {
            Some(moment) => moment,
            None => 0,
        },
    }
}

/// How many microseconds after its container a video stream starts: negative if
/// it starts before.
pub open spec fn start_offset(probe: Probe, video: ProbeStream) -> int {
    match moment_of(video.start_time) {
        Some(moment) => moment - container_start(probe),
        None => 0,
    }
}

/// The duration of a video stream that starts `offset` microseconds after its
/// container: as it says itself, or else what remains of the container then.
pub open spec fn video_duration(probe: Probe, video: ProbeStream, offset: u64) -> Option<u64> {
    let said = match video.duration {
        Some(t) => media_time::duration(t@),
        None => None,
    };
    if said is Some {
        said
    } else {
        match probe.format {
            None => None,
            Some(format) => match moment_of(format.duration) {
                Some(total) => if total > offset {
                    Some(((total - offset + 999) / 1000) as u64)
                } else {
                    None
                },
                None => None,
            },
        }
    }
}

/// What is analyzed of a media file, or why nothing can be.
pub open spec fn selected(probe: Probe, asset_id: u128) -> Result<MediaSelection, ErrorView> {
    match first_video(probe.streams@) {
        None => Err(asset_error(asset_id, "Original contains no video stream"@)),
        Some(video) => {
            let audio = first_audio(probe.streams@);
            let offset = start_offset(probe, video);
            if video.index is None {
                Err(asset_error(asset_id, "Video stream has no index"@))
            } else if audio is Some && audio->0.index is None {
                Err(asset_error(asset_id, "Audio stream has no index"@))
            } else if !(0 <= offset <= i64::MAX) {
                Err(asset_error(asset_id, "Video starts before the container timeline"@))
            } else {
                match video_duration(probe, video, offset as u64) {
                    None => Err(
                        asset_error(asset_id, "Video duration is missing, invalid, or empty"@),
                    ),
                    Some(duration_ms) => Ok(
                        MediaSelection {
                            video_index: video.index->0,
                            audio_index: match audio {
                                Some(stream) => stream.index,
                                None => None,
                            },
                            duration_ms,
                            start_offset_micros: offset as u64,
                        },
                    ),
                }
            }
        },
    }
}

fn stream_plays(stream: &ProbeStream, kind: StreamKind) -> (yes: bool)
    ensures
        yes == plays(*stream, kind),
{
    match kind {
        StreamKind::Video => same_text(stream.codec_type.as_str(), "video")
            && match &stream.disposition {
            Some(disposition) => disposition.attached_pic == 0,
            None => true,
        },
        StreamKind::Audio => same_text(stream.codec_type.as_str(), "audio"),
    }
}

fn find_stream(streams: &Vec<ProbeStream>, kind: StreamKind) -> (stream: Option<&ProbeStream>)
    ensures
        match first_stream(streams@, kind) {
            Some(found) => stream is Some && *stream->0 == found,
            None => stream is None,
        },
{
    let total: usize = streams.len();
    let mut i: usize = 0;
    assert(streams@.skip(0) =~= streams@);
    while i < total
        invariant
            i <= total == streams@.len(),
            first_stream(streams@, kind) == first_stream(streams@.skip(i as int), kind),
        decreases total - i,
    {
        assert(streams@.skip(i as int).drop_first() =~= streams@.skip(i + 1));
        if stream_plays(&streams[i], kind) {
            return Some(&streams[i]);
        }
        i += 1;
    }
    None
}

fn read_moment(text: &Option<String>) -> (moment: Option<i64>)
    ensures
        moment == moment_of(*text),
{
    match text {
        Some(t) => time_micros(t.as_str()),
        None => None,
    }
}

fn find_earliest_start(streams: &Vec<ProbeStream>) -> (earliest: Option<i64>)
    ensures
        earliest == earliest_start(streams@),
{
    let total: usize = streams.len();
    let mut earliest: Option<i64> = None;
    let mut i: usize = 0;
    while i < total
        invariant
            i <= total == streams@.len(),
            earliest == earliest_start(streams@.take(i as int)),
        decreases total - i,
    {
        assert(streams@.take(i + 1).drop_last() =~= streams@.take(i as int));
        if let Some(moment) = read_moment(&streams[i].start_time) {
            let earlier = match earliest {
                Some(before) => before <= moment,
                None => false,
            };
            if !earlier {
                earliest = Some(moment);
            }
        }
        i += 1;
    }
    assert(streams@.take(total as int) =~= streams@);
    earliest
}

fn find_container_start(probe: &Probe) -> (start: i64)
    ensures
        start == container_start(*probe),
{
    let said = match &probe.format {
        Some(format) => read_moment(&format.start_time),
        None => None,
    };
    match said {
        Some(moment) => moment,
        None => match find_earliest_start(&probe.streams) {
            Some(moment) => moment,
            None => 0,
        },
    }
}

fn find_duration(probe: &Probe, video: &ProbeStream, offset: u64) -> (duration: Option<u64>)
    ensures
        duration == video_duration(*probe, *video, offset),
{
    let said = match &video.duration {
        Some(t) => duration_millis(t.as_str()),
        None => None,
    };
    if said.is_some() {
        return said;
    }
    match &probe.format {
        None => None,
        Some(format) => {
            let total: i64 = read_moment(&format.duration)?;
            if total > 0 && total as u64 > offset {
                let remaining: u64 = total as u64 - offset;
                Some((remaining + 999) / 1000)
            } else {
                None
            }
        },
    }
}

/// The content of a result of selecting streams.
pub open spec fn selection_view(selection: Result<MediaSelection, ImageAnalysisError>) -> Result<
    MediaSelection,
    ErrorView,
> {
    error::result_view(selection, |s: MediaSelection| s)
}

/// Selects the streams that are analyzed: the first video stream that is not an
/// attached picture, and the first audio stream, if there is one.
pub fn select_streams(probe: &Probe, asset_id: u128) -> (selection: Result<
    MediaSelection,
    ImageAnalysisError,
>)
    ensures
        selection_view(selection) == selected(*probe, asset_id),
{
    let video = match find_stream(&probe.streams, StreamKind::Video) {
        Some(video) => video,
        None => {
            return Err(processing_error(asset_id, "Original contains no video stream"));
        },
    };
    let video_index: u32 = match video.index {
        Some(index) => index,
        None => {
            return Err(processing_error(asset_id, "Video stream has no index"));
        },
    };
    let audio_index = match find_stream(&probe.streams, StreamKind::Audio) {
        Some(audio) => match audio.index {
            Some(index) => Some(index),
            None => {
                return Err(processing_error(asset_id, "Audio stream has no index"));
            },
        },
        None => None,
    };
    let container_start: i64 = find_container_start(probe);
    let video_start: i64 = match read_moment(&video.start_time) {
        Some(moment) => moment,
        None => container_start,
    };
    let offset: i64 = match video_start.checked_sub(container_start) {
        Some(offset) => offset,
        None => -1,
    };
    if offset < 0 {
        return Err(processing_error(asset_id, "Video starts before the container timeline"));
    }
    let start_offset_micros: u64 = offset as u64;
    match find_duration(probe, video, start_offset_micros) {
        Some(duration_ms) => Ok(
            MediaSelection { video_index, audio_index, duration_ms, start_offset_micros },
        ),
        None => Err(processing_error(asset_id, "Video duration is missing, invalid, or empty")),
    }
}

proof fn lemma_first_video(streams: Seq<ProbeStream>)
    ensures
        match first_video(streams) {
            Some(video) => is_video(video) && streams.contains(video),
            None => forall|i: int| 0 <= i < streams.len() ==> !is_video(#[trigger] streams[i]),
        },
    decreases streams.len(),
{
    if streams.len() > 0 && !is_video(streams[0]) {
        let rest = streams.drop_first();
        lemma_first_video(rest);
        match first_video(rest) {
            Some(video) => {
                let i = choose|i: int| 0 <= i < rest.len() && rest[i] == video;
                assert(streams[i + 1] == video);
            },
            None => {
                assert forall|i: int| 0 <= i < streams.len() implies !is_video(
                    #[trigger] streams[i],
                ) by {
                    if i > 0 {
                        assert(rest[i - 1] == streams[i]);
                    }
                }
            },
        }
    }
}

/// What is selected is a stream of moving pictures, never an attached picture,
/// and has something to show: its duration is positive. Nothing is selected
/// where there are no moving pictures.
pub proof fn law_selection_shows_moving_pictures(probe: Probe, asset_id: u128)
    ensures
        selected(probe, asset_id) matches Ok(selection) ==> {
            &&& selection.duration_ms > 0
            &&& first_video(probe.streams@) matches Some(video)
            &&& is_video(video)
            &&& probe.streams@.contains(video)
            &&& video.index == Some(selection.video_index)
        },
        (forall|i: int| 0 <= i < probe.streams@.len() ==> !is_video(#[trigger] probe.streams@[i]))
            ==> selected(probe, asset_id) == Err::<MediaSelection, ErrorView>(
            asset_error(asset_id, "Original contains no video stream"@),
        ),
{
    lemma_first_video(probe.streams@);
    if let Some(video) = first_video(probe.streams@) {
        let i = choose|i: int| 0 <= i < probe.streams@.len() && probe.streams@[i] == video;
        assert(is_video(probe.streams@[i]));
    }
}

/// A missing sound track is valid: a video with an index, a start and a duration
/// is selected without sound.
pub proof fn law_sound_is_optional(probe: Probe, asset_id: u128)
    requires
        first_audio(probe.streams@) is None,
        first_video(probe.streams@) matches Some(video) && video.index is Some,
        0 <= start_offset(probe, first_video(probe.streams@)->0) <= i64::MAX,
        video_duration(
            probe,
            first_video(probe.streams@)->0,
            start_offset(probe, first_video(probe.streams@)->0) as u64,
        ) is Some,
    ensures
        selected(probe, asset_id) matches Ok(selection) && selection.audio_index is None,
{
}

/// `streams[i]` is the first whose codec type is `kind`, attached pictures not counted.
pub open spec fn comes_first(streams: Seq<ProbeStream>, kind: Seq<char>, i: int) -> bool {
    &&& 0 <= i < streams.len()
    &&& of_kind(streams[i], kind)
    &&& forall|j: int| 0 <= j < i ==> !of_kind(#[trigger] streams[j], kind)
}

/// The codec type is `kind`; a video is not an attached picture.
pub open spec fn of_kind(stream: ProbeStream, kind: Seq<char>) -> bool {
    &&& stream.codec_type@ == kind
    &&& kind == "video"@ && stream.disposition is Some ==> stream.disposition->0.attached_pic == 0
}

proof fn lemma_kind(stream: ProbeStream)
    ensures
        of_kind(stream, "video"@) == plays(stream, StreamKind::Video),
        of_kind(stream, "audio"@) == plays(stream, StreamKind::Audio),
{
    reveal_strlit("video");
    reveal_strlit("audio");
    assert("video"@[0] != "audio"@[0]);
}

proof fn lemma_comes_first(streams: Seq<ProbeStream>, kind: StreamKind, name: Seq<char>, i: int)
    requires
        name == match kind {
            StreamKind::Video => "video"@,
            StreamKind::Audio => "audio"@,
        },
        comes_first(streams, name, i),
    ensures
        first_stream(streams, kind) == Some(streams[i]),
    decreases i,
{
    lemma_kind(streams[0]);
    if i > 0 {
        assert(!of_kind(streams[0], name));
        let rest = streams.drop_first();
        assert(rest[i - 1] == streams[i]);
        assert forall|j: int| 0 <= j < i - 1 implies !of_kind(#[trigger] rest[j], name) by {
            assert(rest[j] == streams[j + 1]);
        }
        lemma_comes_first(rest, kind, name, i - 1);
    }
}

proof fn lemma_none_found(streams: Seq<ProbeStream>, kind: StreamKind, name: Seq<char>)
    requires
        name == match kind {
            StreamKind::Video => "video"@,
            StreamKind::Audio => "audio"@,
        },
        forall|j: int| 0 <= j < streams.len() ==> !of_kind(#[trigger] streams[j], name),
    ensures
        first_stream(streams, kind) is None,
    decreases streams.len(),
{
    if streams.len() > 0 {
        lemma_kind(streams[0]);
        assert(!of_kind(streams[0], name));
        let rest = streams.drop_first();
        assert forall|j: int| 0 <= j < rest.len() implies !of_kind(#[trigger] rest[j], name) by {
            assert(rest[j] == streams[j + 1]);
        }
        lemma_none_found(rest, kind, name);
    }
}

/// The moment at which a stream starts, if it says so.
pub open spec fn starts_at(stream: ProbeStream) -> Option<i64> {
    match stream.start_time {
        Some(t) => media_time::moment(t@),
        None => None,
    }
}

/// The moment at which the container starts, if it says so.
pub open spec fn said_start(probe: Probe) -> Option<i64> {
    match probe.format {
        Some(format) => match format.start_time {
            Some(t) => media_time::moment(t@),
            None => None,
        },
        None => None,
    }
}

/// `c` is the moment at which the timeline of the file begins: what the container
/// says, or else the earliest start of a stream, or else 0.
pub open spec fn timeline_begins(probe: Probe, c: int) -> bool {
    if said_start(probe) is Some {
        c == said_start(probe)->0
    } else {
        ||| exists|i: int|
            0 <= i < probe.streams@.len() && starts_at(#[trigger] probe.streams@[i]) is Some
                && starts_at(probe.streams@[i])->0 == c && no_earlier(probe.streams@, c)
        ||| c == 0 && forall|i: int|
            0 <= i < probe.streams@.len() ==> starts_at(#[trigger] probe.streams@[i]) is None
    }
}

/// No stream starts before `c`.
pub open spec fn no_earlier(streams: Seq<ProbeStream>, c: int) -> bool {
    forall|i: int|
        0 <= i < streams.len() && starts_at(#[trigger] streams[i]) is Some ==> c <= starts_at(
            streams[i],
        )->0
}

proof fn lemma_earliest(streams: Seq<ProbeStream>)
    ensures
        match earliest_start(streams) {
            Some(c) => no_earlier(streams, c as int) && exists|i: int|
                0 <= i < streams.len() && starts_at(#[trigger] streams[i]) == Some(c),
            None => forall|i: int|
                0 <= i < streams.len() ==> starts_at(#[trigger] streams[i]) is None,
        },
    decreases streams.len(),
{
    if streams.len() > 0 {
        let front = streams.drop_last();
        lemma_earliest(front);
        let last = streams.last();
        assert(streams[streams.len() - 1] == last);
        assert forall|i: int| 0 <= i < front.len() implies front[i] == #[trigger] streams[i] by {}
        if let Some(c) = earliest_start(streams) {
            assert(no_earlier(streams, c as int)) by {
                assert forall|i: int|
                    0 <= i < streams.len() && starts_at(#[trigger] streams[i]) is Some implies c
                    <= starts_at(streams[i])->0 by {
                    if i < front.len() {
                        assert(front[i] == streams[i]);
                    }
                }
            }
            if starts_at(last) == Some(c) {
                assert(starts_at(streams[streams.len() - 1]) == Some(c));
            } else {
                let i = choose|i: int|
                    0 <= i < front.len() && starts_at(#[trigger] front[i]) == Some(c);
                assert(starts_at(streams[i]) == Some(c));
            }
        } else {
            assert forall|i: int| 0 <= i < streams.len() implies starts_at(
                #[trigger] streams[i],
            ) is None by {
                if i < front.len() {
                    assert(front[i] == streams[i]);
                }
            }
        }
    }
}

proof fn lemma_timeline(probe: Probe, c: int)
    requires
        timeline_begins(probe, c),
    ensures
        container_start(probe) == c,
{
    if said_start(probe) is None {
        lemma_earliest(probe.streams@);
        if exists|i: int|
            0 <= i < probe.streams@.len() && starts_at(#[trigger] probe.streams@[i]) is Some
                && starts_at(probe.streams@[i])->0 == c && no_earlier(probe.streams@, c) {
            let i = choose|i: int|
                0 <= i < probe.streams@.len() && starts_at(#[trigger] probe.streams@[i]) is Some
                    && starts_at(probe.streams@[i])->0 == c && no_earlier(probe.streams@, c);
            let found = earliest_start(probe.streams@);
            assert(found is Some) by {
                if found is None {
                    assert(starts_at(probe.streams@[i]) is None);
                }
            }
            let k = choose|k: int|
                0 <= k < probe.streams@.len() && starts_at(#[trigger] probe.streams@[k]) == found;
            assert(c <= starts_at(probe.streams@[k])->0);
            assert(found->0 <= starts_at(probe.streams@[i])->0);
        } else {
            if let Some(m) = earliest_start(probe.streams@) {
                let k = choose|k: int|
                    0 <= k < probe.streams@.len() && starts_at(#[trigger] probe.streams@[k])
                        == Some(m);
                assert(starts_at(probe.streams@[k]) is None);
            }
        }
    }
}

/// The first video stream that is not an attached picture is selected, with its
/// index; with the first audio stream, or without sound if there is none. An
/// index that is missing is an error.
pub proof fn law_first_streams_are_selected(
    probe: Probe,
    asset_id: u128,
    selection: MediaSelection,
    v: int,
)
    requires
        selected(probe, asset_id) == Ok::<MediaSelection, ErrorView>(selection),
        comes_first(probe.streams@, "video"@, v),
    ensures
        probe.streams@[v].index == Some(selection.video_index),
        forall|a: int| #[trigger]
            comes_first(probe.streams@, "audio"@, a) ==> probe.streams@[a].index is Some
                && selection.audio_index == probe.streams@[a].index,
        (forall|j: int|
            0 <= j < probe.streams@.len() ==> (#[trigger] probe.streams@[j]).codec_type@
                != "audio"@) ==> selection.audio_index is None,
{
    lemma_comes_first(probe.streams@, StreamKind::Video, "video"@, v);
    assert forall|a: int| #[trigger] comes_first(probe.streams@, "audio"@, a) implies (
    probe.streams@[a].index is Some && selection.audio_index == probe.streams@[a].index) by {
        lemma_comes_first(probe.streams@, StreamKind::Audio, "audio"@, a);
    }
    if forall|j: int|
        0 <= j < probe.streams@.len() ==> (#[trigger] probe.streams@[j]).codec_type@ != "audio"@ {
        assert forall|j: int| 0 <= j < probe.streams@.len() implies !of_kind(
            #[trigger] probe.streams@[j],
            "audio"@,
        ) by {
            assert(probe.streams@[j].codec_type@ != "audio"@);
        }
        lemma_none_found(probe.streams@, StreamKind::Audio, "audio"@);
    }
}

/// Whatever is selected, its start offset is the start of the video stream less
/// the beginning of the file's timeline, and 0 if the stream does not say when it
/// starts, whether or not the stream states a duration.
pub proof fn law_offset_is_the_delay_of_the_video(
    probe: Probe,
    asset_id: u128,
    selection: MediaSelection,
    v: int,
    c: int,
)
    requires
        selected(probe, asset_id) == Ok::<MediaSelection, ErrorView>(selection),
        comes_first(probe.streams@, "video"@, v),
        timeline_begins(probe, c),
    ensures
        starts_at(probe.streams@[v]) matches Some(start) ==> selection.start_offset_micros == start
            - c,
        starts_at(probe.streams@[v]) is None ==> selection.start_offset_micros == 0,
{
    lemma_comes_first(probe.streams@, StreamKind::Video, "video"@, v);
    lemma_timeline(probe, c);
}

/// The duration that is selected is the one that the video stream states. Where
/// it states none that can be read, it is the least number of milliseconds that
/// covers what the container leaves after the delay of the video.
pub proof fn law_duration_is_that_of_the_video(
    probe: Probe,
    asset_id: u128,
    selection: MediaSelection,
    v: int,
)
    requires
        selected(probe, asset_id) == Ok::<MediaSelection, ErrorView>(selection),
        comes_first(probe.streams@, "video"@, v),
    ensures
        ({
            let stated = match probe.streams@[v].duration {
                Some(t) => media_time::duration(t@),
                None => None::<u64>,
            };
            &&& stated is Some ==> selection.duration_ms == stated->0
            &&& stated is None ==> {
                &&& probe.format is Some
                &&& probe.format->0.duration is Some
                &&& media_time::moment(probe.format->0.duration->0@) matches Some(total)
                &&& (selection.duration_ms - 1) * 1000 < total - selection.start_offset_micros
                    <= selection.duration_ms * 1000
            }
        }),
{
    lemma_comes_first(probe.streams@, StreamKind::Video, "video"@, v);
}

/// Selection succeeds on every file that has what is needed: a video stream with
/// an index that does not start before the file's timeline, an index on the audio
/// stream if there is one, and a duration, of the stream or of the container past
/// the delay of the video.
pub proof fn law_usable_videos_are_selected(probe: Probe, asset_id: u128, v: int, c: int)
    requires
        comes_first(probe.streams@, "video"@, v),
        probe.streams@[v].index is Some,
        timeline_begins(probe, c),
        starts_at(probe.streams@[v]) matches Some(start) ==> c <= start && start - c <= i64::MAX,
        forall|a: int| #[trigger]
            comes_first(probe.streams@, "audio"@, a) ==> probe.streams@[a].index is Some,
        (probe.streams@[v].duration matches Some(t) && media_time::duration(t@) is Some) || (
        probe.format matches Some(format) && format.duration matches Some(t)
            && media_time::moment(t@) matches Some(total) && total > match starts_at(
            probe.streams@[v],
        ) {
            Some(start) => start - c,
            None => 0,
        }),
    ensures
        selected(probe, asset_id) is Ok,
{
    lemma_comes_first(probe.streams@, StreamKind::Video, "video"@, v);
    lemma_timeline(probe, c);
    if first_audio(probe.streams@) is Some {
        let a = lemma_found_audio(probe.streams@);
        lemma_comes_first(probe.streams@, StreamKind::Audio, "audio"@, a);
    }
}

proof fn lemma_found_audio(streams: Seq<ProbeStream>) -> (a: int)
    requires
        first_audio(streams) is Some,
    ensures
        comes_first(streams, "audio"@, a),
    decreases streams.len(),
{
    lemma_kind(streams[0]);
    if is_audio(streams[0]) {
        0
    } else {
        let rest = streams.drop_first();
        let b = lemma_found_audio(rest);
        assert forall|j: int| 0 <= j < b + 1 implies !of_kind(#[trigger] streams[j], "audio"@) by {
            if j > 0 {
                assert(rest[j - 1] == streams[j]);
            }
        }
        b + 1
    }
}

/// An error of processing names the asset by its identifier.
pub proof fn law_processing_errors_name_the_asset(asset_id: u128, error: Seq<char>)
    ensures
        asset_error(asset_id, error) == (ErrorView::ProcessingError {
            filename: ids::hyphenated(asset_id),
            error,
        }),
{
}

/// A video that cannot be used is refused with what it lacks: an index of its own,
/// an index of its sound, a start within the timeline, or a duration.
pub proof fn law_unusable_videos_are_refused(
    probe: Probe,
    asset_id: u128,
    v: int,
    a: int,
    c: int,
)
    requires
        comes_first(probe.streams@, "video"@, v),
        timeline_begins(probe, c),
    ensures
        probe.streams@[v].index is None ==> selected(probe, asset_id) == Err::<
            MediaSelection,
            ErrorView,
        >(asset_error(asset_id, "Video stream has no index"@)),
        probe.streams@[v].index is Some && comes_first(probe.streams@, "audio"@, a)
            && probe.streams@[a].index is None ==> selected(probe, asset_id) == Err::<
            MediaSelection,
            ErrorView,
        >(asset_error(asset_id, "Audio stream has no index"@)),
        (probe.streams@[v].index is Some && (forall|j: int|
            0 <= j < probe.streams@.len() ==> (#[trigger] probe.streams@[j]).index is Some)
            && starts_at(probe.streams@[v]) is Some && starts_at(probe.streams@[v])->0 < c) ==> selected(
            probe,
            asset_id,
        ) == Err::<MediaSelection, ErrorView>(
            asset_error(asset_id, "Video starts before the container timeline"@),
        ),
        (probe.streams@[v].duration is None && probe.format is None) ==> selected(
            probe,
            asset_id,
        ) is Err,
{
    lemma_comes_first(probe.streams@, StreamKind::Video, "video"@, v);
    lemma_timeline(probe, c);
    if comes_first(probe.streams@, "audio"@, a) {
        lemma_comes_first(probe.streams@, StreamKind::Audio, "audio"@, a);
    }
    if first_audio(probe.streams@) is Some {
        let b = lemma_found_audio(probe.streams@);
        lemma_comes_first(probe.streams@, StreamKind::Audio, "audio"@, b);
        assert(first_audio(probe.streams@) == Some(probe.streams@[b]));
    }
}

} // verus!
