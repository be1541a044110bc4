//! The calls of `ffprobe` and `ffmpeg`: their arguments, their output, and what
//! the encoded clips must look like.
use crate::error;
use crate::error::{ErrorView, ImageAnalysisError};
use crate::media_time;
use crate::media_time::{micros_argument, seconds_argument, whole_number};
use crate::streams;
use crate::streams::{processing_error, MediaSelection, Probe, ProbeStream};
use crate::text;
use crate::text::{decimal_text, lossy_text, same_text};
use vstd::prelude::*;
use vstd::string::StringExecFns;

verus! {

/// The largest clip that may come out of the encoder, in bytes.
pub const MAX_CLIP_BYTES: u64 = 16777216;

/// The most that a media command may write to its standard output, in bytes.
pub const MAX_PROBE_BYTES: usize = 1048576;

/// How much of what a media command writes to its standard error is kept, in bytes.
pub const MAX_DIAGNOSTIC_BYTES: usize = 65536;

/// An argument of a media command.
#[derive(Debug, PartialEq, Eq)]
pub enum MediaArg {
    Text(String),
    /// The path of the file that is read.
    Source,
    /// The path of the clip that is written.
    Clip,
}

/// The mathematical content of a [`MediaArg`].
pub enum MediaArgView {
    Text(Seq<char>),
    Source,
    Clip,
}

impl View for MediaArg {
    type V = MediaArgView;

    open spec fn view(&self) -> MediaArgView {
        match self {
            MediaArg::Text(t) => MediaArgView::Text(t@),
            MediaArg::Source => MediaArgView::Source,
            MediaArg::Clip => MediaArgView::Clip,
        }
    }
}

/// The arguments of a media command.
#[derive(Debug, PartialEq, Eq)]
pub struct MediaArgs {
    items: Vec<MediaArg>,
}

impl View for MediaArgs {
    type V = Seq<MediaArgView>;

    closed spec fn view(&self) -> Seq<MediaArgView> {
        Seq::new(self.items@.len(), |i: int| self.items@[i]@)
    }
}

/// The arguments followed by a text.
pub open spec fn and_text(args: Seq<MediaArgView>, argument: Seq<char>) -> Seq<MediaArgView> {
    args.push(MediaArgView::Text(argument))
}

impl MediaArgs {
    fn new() -> (args: MediaArgs)
        ensures
            args@ == Seq::<MediaArgView>::empty(),
    {
        let args = MediaArgs { items: Vec::new() };
        assert(args@ =~= Seq::<MediaArgView>::empty());
        args
    }

    fn arg(self, argument: MediaArg) -> (args: MediaArgs)
        ensures
            args@ == self@.push(argument@),
    {
        let mut args = self;
        args.items.push(argument);
        assert(args@ =~= self@.push(argument@));
        args
    }

    fn text(self, argument: &str) -> (args: MediaArgs)
        ensures
            args@ == and_text(self@, argument@),
    {
        self.arg(MediaArg::Text(argument.to_owned()))
    }

    /// The number of the arguments.
    pub fn len(&self) -> (count: usize)
        ensures
            count == self@.len(),
    {
        self.items.len()
    }

    /// The argument at index `i`.
    pub fn get(&self, i: usize) -> (argument: &MediaArg)
        requires
            i < self@.len(),
        ensures
            argument@ == self@[i as int],
    {
        &self.items[i]
    }
}

/// The arguments with which `ffprobe` counts the packets of each stream, or
/// tells of the streams and the container.
pub open spec fn probe_args(packets: bool) -> Seq<MediaArgView> {
    let args = and_text(and_text(Seq::empty(), "-v"@), "error"@);
    let asked = if packets {
        and_text(
            and_text(and_text(args, "-count_packets"@), "-show_entries"@),
            "stream=codec_type,nb_read_packets"@,
        )
    } else {
        and_text(
            and_text(args, "-show_entries"@),
            "format=duration,start_time:stream=index,codec_type,duration,start_time:stream_disposition=attached_pic"@,
        )
    };
    and_text(and_text(asked, "-of"@), "json"@).push(MediaArgView::Source)
}

/// The arguments for `ffprobe`.
pub fn probe_arguments(packets: bool) -> (args: MediaArgs)
    ensures
        args@ == probe_args(packets),
{
    let args = MediaArgs::new().text("-v").text("error");
    let asked = if packets {
        args.text("-count_packets").text("-show_entries").text("stream=codec_type,nb_read_packets")
    } else {
        args.text("-show_entries").text(
            "format=duration,start_time:stream=index,codec_type,duration,start_time:stream_disposition=attached_pic",
        )
    };
    asked.text("-of").text("json").arg(MediaArg::Source)
}

/// Takes what was read in the output of `ffprobe`.
pub fn read_probe(asset_id: u128, parsed: Result<Probe, String>) -> (probe: Result<
    Probe,
    ImageAnalysisError,
>)
    ensures
        match parsed {
            Ok(p) => probe == Ok::<Probe, ImageAnalysisError>(p),
            Err(error) => probe is Err && probe->Err_0@ == streams::asset_error(
                asset_id,
                "Invalid ffprobe response: "@ + error@,
            ),
        },
{
    match parsed {
        Ok(probe) => Ok(probe),
        Err(error) => {
            let mut message = "Invalid ffprobe response: ".to_owned();
            message.append(error.as_str());
            Err(processing_error(asset_id, message.as_str()))
        },
    }
}

/// The name of a stream of the source.
pub open spec fn stream_name(index: u32) -> Seq<char> {
    "0:"@ + text::decimal(index as nat)
}

/// The arguments up to the choice of streams: from `seek` microseconds on, for
/// `duration` milliseconds.
pub open spec fn cut_args(seek: u64, duration: u64) -> Seq<MediaArgView> {
    let quiet = and_text(
        and_text(and_text(and_text(Seq::empty(), "-nostdin"@), "-v"@), "error"@),
        "-xerror"@,
    );
    let sought = and_text(
        and_text(and_text(quiet, "-y"@), "-ss"@),
        media_time::micros_text(seek),
    );
    let read = and_text(and_text(and_text(sought, "-err_detect"@), "explode"@), "-i"@).push(
        MediaArgView::Source,
    );
    and_text(and_text(read, "-t"@), media_time::seconds_text(duration))
}

/// The arguments that choose the streams.
pub open spec fn map_args(
    args: Seq<MediaArgView>,
    video_index: u32,
    audio_index: Option<u32>,
) -> Seq<MediaArgView> {
    let video = and_text(and_text(args, "-map"@), stream_name(video_index));
    match audio_index {
        Some(index) => and_text(and_text(video, "-map"@), stream_name(index)),
        None => and_text(video, "-an"@),
    }
}

/// The arguments that choose the encoding.
pub open spec fn encode_args(args: Seq<MediaArgView>, has_audio: bool) -> Seq<MediaArgView> {
    let scaled = and_text(
        and_text(args, "-vf"@),
        "scale=w=640:h=640:force_original_aspect_ratio=decrease:force_divisible_by=2"@,
    );
    let coded = and_text(
        and_text(and_text(and_text(scaled, "-c:v"@), "libx264"@), "-preset"@),
        "veryfast"@,
    );
    let video = and_text(
        and_text(and_text(and_text(coded, "-crf"@), "28"@), "-pix_fmt"@),
        "yuv420p"@,
    );
    let sound = if has_audio {
        and_text(and_text(and_text(and_text(video, "-c:a"@), "aac"@), "-b:a"@), "96k"@)
    } else {
        video
    };
    and_text(and_text(sound, "-movflags"@), "+faststart"@).push(MediaArgView::Clip)
}

/// The arguments with which `ffmpeg` encodes a segment.
pub open spec fn segment_args(
    selection: MediaSelection,
    seek: u64,
    duration: u64,
) -> Seq<MediaArgView> {
    encode_args(
        map_args(cut_args(seek, duration), selection.video_index, selection.audio_index),
        selection.audio_index is Some,
    )
}

/// The arguments with which `ffmpeg` encodes the segment from `start` to `end`
/// milliseconds of the video, or why there are none.
pub open spec fn transcode_args(
    selection: MediaSelection,
    start: u64,
    end: u64,
    asset_id: u128,
) -> Result<Seq<MediaArgView>, ErrorView> {
    if end <= start {
        Err(streams::asset_error(asset_id, "Invalid video segment interval"@))
    } else if start * 1000 + selection.start_offset_micros > u64::MAX {
        Err(streams::asset_error(asset_id, "Video segment seek offset overflowed"@))
    } else {
        Ok(
            segment_args(
                selection,
                (start * 1000 + selection.start_offset_micros) as u64,
                (end - start) as u64,
            ),
        )
    }
}

/// The content of a result of arguments.
pub open spec fn args_result_view(args: Result<MediaArgs, ImageAnalysisError>) -> Result<
    Seq<MediaArgView>,
    ErrorView,
> {
    error::result_view(args, |a: MediaArgs| a@)
}

fn stream_argument(index: u32) -> (name: String)
    ensures
        name@ == stream_name(index),
{
    let mut name = "0:".to_owned();
    name.append(decimal_text(index as u64).as_str());
    name
}

/// The arguments for `ffmpeg` that encode the segment from `start` to `end`
/// milliseconds of the selected streams.
pub fn transcode_arguments(
    selection: &MediaSelection,
    start: u64,
    end: u64,
    asset_id: u128,
) -> (args: Result<MediaArgs, ImageAnalysisError>)
    ensures
        args_result_view(args) == transcode_args(*selection, start, end, asset_id),
{
    if end <= start {
        return Err(processing_error(asset_id, "Invalid video segment interval"));
    }
    let duration: u64 = end - start;
    let seek: Option<u64> = match start.checked_mul(1000) {
        Some(micros) => micros.checked_add(selection.start_offset_micros),
        None => None,
    };
    let seek: u64 = match seek {
        Some(seek) => seek,
        None => {
            return Err(processing_error(asset_id, "Video segment seek offset overflowed"));
        },
    };
    let mut args = MediaArgs::new().text("-nostdin").text("-v").text("error").text("-xerror").text(
        "-y",
    ).text("-ss").text(micros_argument(seek).as_str()).text("-err_detect").text("explode").text(
        "-i",
    ).arg(MediaArg::Source).text("-t").text(seconds_argument(duration).as_str()).text("-map").text(
        stream_argument(selection.video_index).as_str(),
    );
    args =
    match selection.audio_index {
        Some(index) => args.text("-map").text(stream_argument(index).as_str()),
        None => args.text("-an"),
    };
    args =
    args.text("-vf").text(
        "scale=w=640:h=640:force_original_aspect_ratio=decrease:force_divisible_by=2",
    ).text("-c:v").text("libx264").text("-preset").text("veryfast").text("-crf").text("28").text(
        "-pix_fmt",
    ).text("yuv420p");
    if selection.audio_index.is_some() {
        args = args.text("-c:a").text("aac").text("-b:a").text("96k");
    }
    Ok(args.text("-movflags").text("+faststart").arg(MediaArg::Clip))
}

/// What is wrong with the size of an encoded clip, if anything.
pub open spec fn encoded_size_error(asset_id: u128, bytes: u64) -> Option<ErrorView> {
    if 1 <= bytes <= MAX_CLIP_BYTES {
        None
    } else {
        Some(
            streams::asset_error(
                asset_id,
                "Encoded clip has "@ + text::decimal(bytes as nat)
                    + " bytes; expected 1 through 16777216"@,
            ),
        )
    }
}

/// Checks the size of an encoded clip.
pub fn check_encoded_size(asset_id: u128, bytes: u64) -> (checked: Result<(), ImageAnalysisError>)
    ensures
        match encoded_size_error(asset_id, bytes) {
            Some(e) => checked is Err && checked->Err_0@ == e,
            None => checked is Ok,
        },
{
    if bytes == 0 || bytes > MAX_CLIP_BYTES {
        let mut error = "Encoded clip has ".to_owned();
        error.append(decimal_text(bytes).as_str());
        error.append(" bytes; expected 1 through 16777216");
        return Err(processing_error(asset_id, error.as_str()));
    }
    Ok(())
}

/// A stream whose packets were counted, and are not none.
pub open spec fn has_packets(stream: ProbeStream) -> bool {
    &&& stream.nb_read_packets is Some
    &&& media_time::count(stream.nb_read_packets->0@) matches Some(n)
    &&& n > 0
}

/// One of the streams is of the kind and has packets.
pub open spec fn delivers(streams: Seq<ProbeStream>, kind: Seq<char>) -> bool {
    exists|i: int|
        0 <= i < streams.len() && (#[trigger] streams[i]).codec_type@ == kind && has_packets(
            streams[i],
        )
}

/// Whether an encoded clip has sound, or the error that it has no pictures.
pub open spec fn clip_sound(probe: Probe, asset_id: u128) -> Result<bool, ErrorView> {
    if delivers(probe.streams@, "video"@) {
        Ok(delivers(probe.streams@, "audio"@))
    } else {
        Err(streams::asset_error(asset_id, "Encoded segment contains no video packets"@))
    }
}

fn find_packets(streams: &Vec<ProbeStream>, kind: &str) -> (found: bool)
    ensures
        found == delivers(streams@, kind@),
{
    let total: usize = streams.len();
    let mut i: usize = 0;
    while i < total
        invariant
            i <= total == streams@.len(),
            forall|j: int|
                0 <= j < i ==> !((#[trigger] streams@[j]).codec_type@ == kind@ && has_packets(
                    streams@[j],
                )),
        decreases total - i,
    {
        if same_text(streams[i].codec_type.as_str(), kind) {
            if let Some(count) = &streams[i].nb_read_packets {
                if let Some(n) = whole_number(count.as_str()) {
                    if n > 0 {
                        return true;
                    }
                }
            }
        }
        i += 1;
    }
    false
}

/// Checks the packets of an encoded clip: it must have pictures, and the result
/// tells whether it has sound.
pub fn check_packets(probe: &Probe, asset_id: u128) -> (has_audio: Result<bool, ImageAnalysisError>)
    ensures
        error::result_view(has_audio, |b: bool| b) == clip_sound(*probe, asset_id),
{
    if !find_packets(&probe.streams, "video") {
        return Err(processing_error(asset_id, "Encoded segment contains no video packets"));
    }
    Ok(find_packets(&probe.streams, "audio"))
}

/// What a media command has written to its standard output.
#[derive(Debug)]
pub struct ProbeOutput {
    bytes: Vec<u8>,
}

impl View for ProbeOutput {
    type V = Seq<u8>;

    closed spec fn view(&self) -> Seq<u8> {
        self.bytes@
    }
}

/// The output with one more piece, or `None` if it grows over
/// [`MAX_PROBE_BYTES`] with it.
pub open spec fn grown(output: Seq<u8>, chunk: Seq<u8>) -> Option<Seq<u8>> {
    if output.len() + chunk.len() <= MAX_PROBE_BYTES {
        Some(output + chunk)
    } else {
        None
    }
}

impl ProbeOutput {
    /// Nothing yet.
    pub fn new() -> (output: ProbeOutput)
        ensures
            output@ == Seq::<u8>::empty(),
    {
        ProbeOutput { bytes: Vec::new() }
    }

    /// Adds a piece, unless the output grows over [`MAX_PROBE_BYTES`] with it.
    pub fn read_probe_output(&mut self, chunk: &[u8]) -> (added: Result<(), String>)
        ensures
            match grown(old(self)@, chunk@) {
                Some(output) => added is Ok && final(self)@ == output,
                None => {
                    &&& added matches Err(error)
                    &&& error@ == "Media command stdout exceeded 1 MiB"@
                    &&& final(self)@ == old(self)@
                },
            },
    {
        let count: usize = chunk.len();
        let length: Option<usize> = self.bytes.len().checked_add(count);
        let fits = match length {
            Some(length) => length <= MAX_PROBE_BYTES,
            None => false,
        };
        if !fits {
            return Err("Media command stdout exceeded 1 MiB".to_owned());
        }
        self.bytes.extend_from_slice(chunk);
        assert(self.bytes@ =~= old(self)@ + chunk@);
        Ok(())
    }

    /// The bytes.
    pub fn into_bytes(self) -> (bytes: Vec<u8>)
        ensures
            bytes@ == self@,
    {
        self.bytes
    }
}

/// The last [`MAX_DIAGNOSTIC_BYTES`] bytes.
pub open spec fn tail(bytes: Seq<u8>) -> Seq<u8> {
    if bytes.len() <= MAX_DIAGNOSTIC_BYTES {
        bytes
    } else {
        bytes.skip(bytes.len() - MAX_DIAGNOSTIC_BYTES)
    }
}

/// The end of what a media command has written to its standard error.
#[derive(Debug)]
pub struct DiagnosticsTail {
    bytes: Vec<u8>,
}

impl View for DiagnosticsTail {
    type V = Seq<u8>;

    closed spec fn view(&self) -> Seq<u8> {
        self.bytes@
    }
}

impl DiagnosticsTail {
    /// No more is kept than may be.
    pub closed spec fn wf(&self) -> bool {
        self.bytes@.len() <= MAX_DIAGNOSTIC_BYTES
    }

    /// Nothing yet.
    pub fn new() -> (diagnostics: DiagnosticsTail)
        ensures
            diagnostics.wf(),
            diagnostics@ == Seq::<u8>::empty(),
    {
        DiagnosticsTail { bytes: Vec::new() }
    }

    /// Adds a piece, and drops from the front what is too much.
    pub fn read_diagnostics(&mut self, chunk: &[u8])
        requires
            old(self).wf(),
        ensures
            final(self).wf(),
            final(self)@ == tail(old(self)@ + chunk@),
    {
        let ghost all = self.bytes@ + chunk@;
        let kept: usize = self.bytes.len();
        let count: usize = chunk.len();
        let excess: usize = if count >= MAX_DIAGNOSTIC_BYTES {
            kept
        } else if kept + count > MAX_DIAGNOSTIC_BYTES {
            kept + count - MAX_DIAGNOSTIC_BYTES
        } else {
            0
        };
        let from: usize = if count > MAX_DIAGNOSTIC_BYTES {
            count - MAX_DIAGNOSTIC_BYTES
        } else {
            0
        };
        let mut bytes: Vec<u8> = Vec::new();
        let mut i: usize = excess;
        while i < kept
            invariant
                excess <= i <= kept == self.bytes@.len(),
                bytes@ =~= self.bytes@.subrange(excess as int, i as int),
            decreases kept - i,
        {
            bytes.push(self.bytes[i]);
            i += 1;
        }
        let mut j: usize = from;
        let ghost front = self.bytes@.subrange(excess as int, kept as int);
        while j < count
            invariant
                from <= j <= count == chunk@.len(),
                bytes@ =~= front + chunk@.subrange(from as int, j as int),
            decreases count - j,
        {
            bytes.push(chunk[j]);
            j += 1;
        }
        self.bytes = bytes;
        assert(self.bytes@ =~= tail(all));
    }

    /// The bytes.
    pub fn into_bytes(self) -> (bytes: Vec<u8>)
        ensures
            bytes@ == self@,
    {
        self.bytes
    }
}

/// The bytes of all pieces, one after the other.
pub open spec fn joined(chunks: Seq<Seq<u8>>) -> Seq<u8>
    decreases chunks.len(),
{
    if chunks.len() == 0 {
        Seq::empty()
    } else {
        joined(chunks.drop_last()) + chunks.last()
    }
}

/// The output after all pieces, each being added in turn, or `None` if one of
/// them was refused.
pub open spec fn collected(chunks: Seq<Seq<u8>>) -> Option<Seq<u8>>
    decreases chunks.len(),
{
    if chunks.len() == 0 {
        Some(Seq::empty())
    } else {
        match collected(chunks.drop_last()) {
            Some(output) => grown(output, chunks.last()),
            None => None,
        }
    }
}

/// However the standard output is cut into pieces, all of it is kept if it is at
/// most [`MAX_PROBE_BYTES`] long, and it is refused otherwise.
pub proof fn law_output_is_whole_or_refused(chunks: Seq<Seq<u8>>)
    ensures
        collected(chunks) == if joined(chunks).len() <= MAX_PROBE_BYTES {
            Some(joined(chunks))
        } else {
            None
        },
    decreases chunks.len(),
{
    if chunks.len() > 0 {
        law_output_is_whole_or_refused(chunks.drop_last());
    }
}

/// What is kept after all pieces, each being added in turn.
pub open spec fn kept(chunks: Seq<Seq<u8>>) -> Seq<u8>
    decreases chunks.len(),
{
    if chunks.len() == 0 {
        Seq::empty()
    } else {
        tail(kept(chunks.drop_last()) + chunks.last())
    }
}

/// However the standard error is cut into pieces, its last
/// [`MAX_DIAGNOSTIC_BYTES`] bytes are kept: no more, and no fewer if there are as many.
pub proof fn law_diagnostics_keep_the_end(chunks: Seq<Seq<u8>>)
    ensures
        kept(chunks) == tail(joined(chunks)),
        kept(chunks).len() <= MAX_DIAGNOSTIC_BYTES,
    decreases chunks.len(),
{
    if chunks.len() > 0 {
        law_diagnostics_keep_the_end(chunks.drop_last());
        let before = joined(chunks.drop_last());
        let last = chunks.last();
        assert(tail(tail(before) + last) =~= tail(before + last));
    }
}

/// How a media command came out.
#[derive(Debug)]
pub enum MediaRun {
    /// It could not be started.
    NotStarted { error: String },
    /// Its standard output cannot be read.
    NoStdout,
    /// Its standard error cannot be read.
    NoStderr,
    /// It did not end in time.
    TimedOut,
    /// Its output could not be read to the end, or its end could not be awaited.
    Failed { error: String },
    /// It ended with a status, which `status` describes.
    Exited { success: bool, status: String, output: Vec<u8>, diagnostics: Vec<u8> },
}

/// The error of a media command, if it has one.
pub open spec fn run_error(program: Seq<char>, run: MediaRun) -> Option<Seq<char>> {
    match run {
        MediaRun::NotStarted { error } => Some(error@),
        MediaRun::NoStdout => Some("Media command stdout is unavailable"@),
        MediaRun::NoStderr => Some("Media command stderr is unavailable"@),
        MediaRun::TimedOut => Some("Media command timed out"@),
        MediaRun::Failed { error } => Some(error@),
        MediaRun::Exited { success, status, diagnostics, .. } => if success {
            None
        } else {
            Some(
                program + " exited with "@ + status@ + ": "@ + text::utf8_lossy(diagnostics@),
            )
        },
    }
}

/// The message for a command that ended without success; `diagnostics` is the
/// text of what it wrote to its standard error.
pub fn exit_message(program: &str, status: &str, diagnostics: &str) -> (message: String)
    ensures
        message@ == program@ + " exited with "@ + status@ + ": "@ + diagnostics@,
{
    let mut message = program.to_owned();
    message.append(" exited with ");
    message.append(status);
    message.append(": ");
    message.append(diagnostics);
    message
}

/// Takes how a media command came out: its output, or the error of the asset.
pub fn run_media_command(program: &str, run: MediaRun, asset_id: u128) -> (output: Result<
    Vec<u8>,
    ImageAnalysisError,
>)
    ensures
        match run_error(program@, run) {
            Some(error) => output is Err && output->Err_0@ == streams::asset_error(asset_id, error),
            None => output is Ok && output->Ok_0 == run->output,
        },
{
    match run {
        MediaRun::NotStarted { error } => Err(processing_error(asset_id, error.as_str())),
        MediaRun::NoStdout => Err(
            processing_error(asset_id, "Media command stdout is unavailable"),
        ),
        MediaRun::NoStderr => Err(
            processing_error(asset_id, "Media command stderr is unavailable"),
        ),
        MediaRun::TimedOut => Err(processing_error(asset_id, "Media command timed out")),
        MediaRun::Failed { error } => Err(processing_error(asset_id, error.as_str())),
        MediaRun::Exited { success, status, output, diagnostics } => {
            if success {
                return Ok(output);
            }
            let diagnostics = lossy_text(diagnostics.as_slice());
            let message = exit_message(program, status.as_str(), diagnostics.as_str());
            Err(processing_error(asset_id, message.as_str()))
        },
    }
}

/// The probe asks for what is read of it: the packets of each stream, or the
/// streams with their times and the container's, always as JSON.
pub proof fn law_probes_ask_for_what_is_read()
    ensures
        probe_args(true) == seq![
            MediaArgView::Text("-v"@),
            MediaArgView::Text("error"@),
            MediaArgView::Text("-count_packets"@),
            MediaArgView::Text("-show_entries"@),
            MediaArgView::Text("stream=codec_type,nb_read_packets"@),
            MediaArgView::Text("-of"@),
            MediaArgView::Text("json"@),
            MediaArgView::Source,
        ],
        probe_args(false) == seq![
            MediaArgView::Text("-v"@),
            MediaArgView::Text("error"@),
            MediaArgView::Text("-show_entries"@),
            MediaArgView::Text(
                "format=duration,start_time:stream=index,codec_type,duration,start_time:stream_disposition=attached_pic"@,
            ),
            MediaArgView::Text("-of"@),
            MediaArgView::Text("json"@),
            MediaArgView::Source,
        ],
{
}

/// The start of every encoding: quietly, without input, over an existing clip,
/// stopping at errors, from `seek` on, for `length`.
pub open spec fn cut_from(seek: Seq<char>, length: Seq<char>) -> Seq<MediaArgView> {
    seq![
        MediaArgView::Text("-nostdin"@),
        MediaArgView::Text("-v"@),
        MediaArgView::Text("error"@),
        MediaArgView::Text("-xerror"@),
        MediaArgView::Text("-y"@),
        MediaArgView::Text("-ss"@),
        MediaArgView::Text(seek),
        MediaArgView::Text("-err_detect"@),
        MediaArgView::Text("explode"@),
        MediaArgView::Text("-i"@),
        MediaArgView::Source,
        MediaArgView::Text("-t"@),
        MediaArgView::Text(length),
    ]
}

/// The settings of the picture.
pub open spec fn picture() -> Seq<MediaArgView> {
    seq![
        MediaArgView::Text("-vf"@),
        MediaArgView::Text(
            "scale=w=640:h=640:force_original_aspect_ratio=decrease:force_divisible_by=2"@,
        ),
        MediaArgView::Text("-c:v"@),
        MediaArgView::Text("libx264"@),
        MediaArgView::Text("-preset"@),
        MediaArgView::Text("veryfast"@),
        MediaArgView::Text("-crf"@),
        MediaArgView::Text("28"@),
        MediaArgView::Text("-pix_fmt"@),
        MediaArgView::Text("yuv420p"@),
    ]
}

/// The end of every encoding.
pub open spec fn into_clip() -> Seq<MediaArgView> {
    seq![MediaArgView::Text("-movflags"@), MediaArgView::Text("+faststart"@), MediaArgView::Clip]
}

/// A segment is cut from its place in the container, its start moved by the delay
/// of the video, for exactly its length: the seek argument spells those
/// microseconds and the length argument those milliseconds. The selected streams
/// are mapped, with sound only where there is some.
pub proof fn law_segments_are_cut_at_their_place(
    selection: MediaSelection,
    start: u64,
    end: u64,
    asset_id: u128,
)
    requires
        start < end,
        start * 1000 + selection.start_offset_micros <= u64::MAX,
    ensures
        ({
            let args = transcode_args(selection, start, end, asset_id)->Ok_0;
            let seek = args[6]->Text_0;
            let length = args[12]->Text_0;
            let head = cut_from(seek, length) + seq![
                MediaArgView::Text("-map"@),
                MediaArgView::Text("0:"@ + text::decimal(selection.video_index as nat)),
            ];
            &&& transcode_args(selection, start, end, asset_id) is Ok
            &&& seek == media_time::micros_text(
                (start * 1000 + selection.start_offset_micros) as u64,
            )
            &&& length == media_time::seconds_text((end - start) as u64)
            &&& args == match selection.audio_index {
                Some(audio) => head + seq![
                    MediaArgView::Text("-map"@),
                    MediaArgView::Text("0:"@ + text::decimal(audio as nat)),
                ] + picture() + seq![
                    MediaArgView::Text("-c:a"@),
                    MediaArgView::Text("aac"@),
                    MediaArgView::Text("-b:a"@),
                    MediaArgView::Text("96k"@),
                ] + into_clip(),
                None => head + seq![MediaArgView::Text("-an"@)] + picture() + into_clip(),
            }
        }),
{
    let args = transcode_args(selection, start, end, asset_id)->Ok_0;
    let seek = args[6]->Text_0;
    let length = args[12]->Text_0;
    let head = cut_from(seek, length) + seq![
        MediaArgView::Text("-map"@),
        MediaArgView::Text("0:"@ + text::decimal(selection.video_index as nat)),
    ];
    match selection.audio_index {
        Some(audio) => {
            assert(args =~= head + seq![
                MediaArgView::Text("-map"@),
                MediaArgView::Text("0:"@ + text::decimal(audio as nat)),
            ] + picture() + seq![
                MediaArgView::Text("-c:a"@),
                MediaArgView::Text("aac"@),
                MediaArgView::Text("-b:a"@),
                MediaArgView::Text("96k"@),
            ] + into_clip());
        },
        None => {
            assert(args =~= head + seq![MediaArgView::Text("-an"@)] + picture() + into_clip());
        },
    }
}

/// Segments that follow each other in the video are cut so that they follow each
/// other in the container: the seek of the second is that of the first and its
/// length more.
pub proof fn law_cuts_follow_each_other(
    selection: MediaSelection,
    start: u64,
    middle: u64,
    end: u64,
    asset_id: u128,
)
    requires
        start < middle < end,
        middle * 1000 + selection.start_offset_micros <= u64::MAX,
    ensures
        ({
            let first = transcode_args(selection, start, middle, asset_id)->Ok_0;
            let second = transcode_args(selection, middle, end, asset_id)->Ok_0;
            exists|seek: u64|
                first[6] == MediaArgView::Text(#[trigger] media_time::micros_text(seek))
                    && second[6] == MediaArgView::Text(
                    media_time::micros_text((seek + (middle - start) * 1000) as u64),
                ) && seek == start * 1000 + selection.start_offset_micros
        }),
{
    law_segments_are_cut_at_their_place(selection, start, middle, asset_id);
    law_segments_are_cut_at_their_place(selection, middle, end, asset_id);
    let seek = (start * 1000 + selection.start_offset_micros) as u64;
    let first = transcode_args(selection, start, middle, asset_id)->Ok_0;
    assert(first[6] == MediaArgView::Text(media_time::micros_text(seek)));
}

/// An empty segment, and one whose place is past what 64 bits of microseconds can
/// hold, are errors.
pub proof fn law_impossible_segments_are_refused(
    selection: MediaSelection,
    start: u64,
    end: u64,
    asset_id: u128,
)
    ensures
        end <= start ==> transcode_args(selection, start, end, asset_id) == Err::<
            Seq<MediaArgView>,
            ErrorView,
        >(streams::asset_error(asset_id, "Invalid video segment interval"@)),
        start < end && start * 1000 + selection.start_offset_micros > u64::MAX ==> transcode_args(
            selection,
            start,
            end,
            asset_id,
        ) == Err::<Seq<MediaArgView>, ErrorView>(
            streams::asset_error(asset_id, "Video segment seek offset overflowed"@),
        ),
{
}

/// An encoded clip is accepted exactly if it has from 1 byte to 16 MiB; the error
/// of another names its size.
pub proof fn law_encoded_clips_are_limited(asset_id: u128, bytes: u64)
    ensures
        encoded_size_error(asset_id, bytes) is None <==> 1 <= bytes <= 16 * 1024 * 1024,
        encoded_size_error(asset_id, bytes) matches Some(e) ==> e == streams::asset_error(
            asset_id,
            "Encoded clip has "@ + text::decimal(bytes as nat)
                + " bytes; expected 1 through 16777216"@,
        ),
{
}

/// A stream of the kind for which packets were counted, and not none.
pub open spec fn packets_counted(stream: ProbeStream, kind: Seq<char>) -> bool {
    &&& stream.codec_type@ == kind
    &&& stream.nb_read_packets is Some
    &&& media_time::count(stream.nb_read_packets->0@) is Some
    &&& media_time::count(stream.nb_read_packets->0@)->0 > 0
}

/// An encoded clip needs packets in one of its video streams; it has sound exactly
/// if one of its audio streams has packets.
pub proof fn law_packets_decide(probe: Probe, asset_id: u128)
    ensures
        ({
            let pictures = exists|i: int|
                0 <= i < probe.streams@.len() && packets_counted(
                    #[trigger] probe.streams@[i],
                    "video"@,
                );
            let sound = exists|i: int|
                0 <= i < probe.streams@.len() && packets_counted(
                    #[trigger] probe.streams@[i],
                    "audio"@,
                );
            &&& pictures ==> clip_sound(probe, asset_id) == Ok::<bool, ErrorView>(sound)
            &&& !pictures ==> clip_sound(probe, asset_id) == Err::<bool, ErrorView>(
                streams::asset_error(asset_id, "Encoded segment contains no video packets"@),
            )
        }),
{
    lemma_delivers(probe.streams@, "video"@);
    lemma_delivers(probe.streams@, "audio"@);
}

proof fn lemma_delivers(streams: Seq<ProbeStream>, kind: Seq<char>)
    ensures
        delivers(streams, kind) <==> exists|i: int|
            0 <= i < streams.len() && packets_counted(#[trigger] streams[i], kind),
{
    if delivers(streams, kind) {
        let i = choose|i: int|
            0 <= i < streams.len() && (#[trigger] streams[i]).codec_type@ == kind && has_packets(
                streams[i],
            );
        assert(packets_counted(streams[i], kind));
    }
    if exists|i: int| 0 <= i < streams.len() && packets_counted(#[trigger] streams[i], kind) {
        let i = choose|i: int| 0 <= i < streams.len() && packets_counted(#[trigger] streams[i], kind);
        assert(has_packets(streams[i]));
    }
}

/// What is kept of standard error is its end, and as much of it as 64 KiB hold;
/// standard output is kept as it came, up to 1 MiB.
pub proof fn law_output_limits(chunks: Seq<Seq<u8>>)
    ensures
        ({
            let all = joined(chunks);
            let end = kept(chunks);
            &&& end.len() == if all.len() < 64 * 1024 {
                all.len()
            } else {
                64 * 1024
            }
            &&& all.skip(all.len() - end.len()) == end
            &&& collected(chunks) is Some <==> all.len() <= 1024 * 1024
            &&& collected(chunks) matches Some(output) ==> output == all
        }),
{
    law_diagnostics_keep_the_end(chunks);
    law_output_is_whole_or_refused(chunks);
    let all = joined(chunks);
    assert(all.skip(0) =~= all);
}

/// Pieces that are joined are all there, in their order.
pub proof fn law_pieces_are_joined_in_order(chunks: Seq<Seq<u8>>, chunk: Seq<u8>)
    ensures
        joined(Seq::empty()) == Seq::<u8>::empty(),
        joined(chunks.push(chunk)) == joined(chunks) + chunk,
{
    assert(chunks.push(chunk).drop_last() =~= chunks);
}

/// A media command succeeds exactly if it ends with success; otherwise the error
/// tells what went wrong, for a command that ended with its name, its status and
/// what it wrote to standard error.
pub proof fn law_failed_commands_tell_why(program: Seq<char>, run: MediaRun)
    ensures
        run_error(program, run) is None <==> (run matches MediaRun::Exited { success, .. }
            && success),
        run matches MediaRun::Exited { success: false, status, output, diagnostics }
            ==> run_error(program, run) == Some(
            program + " exited with "@ + status@ + ": "@ + text::utf8_lossy(diagnostics@),
        ),
        run matches MediaRun::NotStarted { error } ==> run_error(program, run) == Some(error@),
        run matches MediaRun::Failed { error } ==> run_error(program, run) == Some(error@),
        run is TimedOut ==> run_error(program, run) == Some("Media command timed out"@),
        run is NoStdout ==> run_error(program, run) == Some("Media command stdout is unavailable"@),
        run is NoStderr ==> run_error(program, run) == Some("Media command stderr is unavailable"@),
{
}

} // verus!
