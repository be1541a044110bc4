use immich_analyze::error::ImageAnalysisError;
use immich_analyze::media_time::{
    duration_millis, micros_argument, seconds_argument, time_micros, timestamp, whole_number,
};
use immich_analyze::request::ImageAnalysisResult;
use immich_analyze::streams::{
    select_streams, Disposition, MediaSelection, Probe, ProbeFormat, ProbeStream,
};
use immich_analyze::transcode::{
    check_encoded_size, check_packets, probe_arguments, read_probe, run_media_command,
    transcode_arguments, DiagnosticsTail, MediaArg, MediaArgs, MediaRun, ProbeOutput,
};
use immich_analyze::video_analysis::{
    check_args, OriginalOutcome, VideoAnalysis, VideoAnalyzer, VideoArgs, VideoEvent, VideoPhase,
};

const NIL: &str = "00000000-0000-0000-0000-000000000000";

fn text(value: &str) -> Option<String> {
    Some(value.to_owned())
}

fn stream(index: Option<u32>, codec_type: &str) -> ProbeStream {
    ProbeStream {
        index,
        codec_type: codec_type.to_owned(),
        duration: None,
        start_time: None,
        nb_read_packets: None,
        disposition: None,
    }
}

fn counted(codec_type: &str, packets: &str) -> ProbeStream {
    ProbeStream { nb_read_packets: text(packets), ..stream(None, codec_type) }
}

fn error_text(e: ImageAnalysisError) -> String {
    match e {
        ImageAnalysisError::ProcessingError { filename, error } => {
            assert_eq!(filename, NIL);
            error
        }
        other => panic!("{other:?}"),
    }
}

#[test]
fn durations_round_only_real_fractional_milliseconds_and_reject_invalid_values() {
    assert_eq!(duration_millis("30.000000"), Some(30_000));
    assert_eq!(duration_millis("30.000001"), Some(30_001));
    assert_eq!(duration_millis("0.000001"), Some(1));
    assert_eq!(duration_millis("18446744073709551616"), None);
    for value in ["0", "-1", "NaN", "inf", "N/A", "", "1.bad"] {
        assert_eq!(duration_millis(value), None);
    }
    assert_eq!(timestamp(3_661_001), "01:01:01.001");
}

#[test]
fn attached_picture_is_not_the_video_timeline() {
    let probe = Probe {
        streams: vec![
            ProbeStream {
                duration: text("1"),
                disposition: Some(Disposition { attached_pic: 1 }),
                ..stream(Some(0), "video")
            },
            ProbeStream { duration: text("31.000000"), ..stream(Some(1), "video") },
            stream(Some(2), "audio"),
        ],
        format: Some(ProbeFormat { duration: text("32"), start_time: None }),
    };
    let selection = select_streams(&probe, 0).expect("a selection");
    assert_eq!(selection.video_index, 1);
    assert_eq!(selection.duration_ms, 31_000);
    assert_eq!(selection.audio_index, Some(2));
}

#[test]
fn durations_are_read_to_the_limit() {
    assert_eq!(duration_millis("18446744073709551.615"), Some(u64::MAX));
    assert_eq!(duration_millis("18446744073709551.6151"), None);
    assert_eq!(duration_millis("18446744073709551.616"), None);
    assert_eq!(duration_millis("1.5"), Some(1500));
    assert_eq!(duration_millis("1."), Some(1000));
    assert_eq!(duration_millis(".5"), None);
    assert_eq!(duration_millis("1.0.0"), None);
    assert_eq!(duration_millis("+1"), None);
    assert_eq!(duration_millis("1.9999"), Some(2000));
}

#[test]
fn moments_are_read_exactly() {
    assert_eq!(time_micros("0"), Some(0));
    assert_eq!(time_micros("-0.5"), Some(-500_000));
    assert_eq!(time_micros("5.0000019"), Some(5_000_001));
    assert_eq!(time_micros("9223372036854.775807"), Some(i64::MAX));
    assert_eq!(time_micros("9223372036854.775808"), None);
    assert_eq!(time_micros("-9223372036854.775808"), None);
    assert_eq!(time_micros("--1"), None);
    assert_eq!(time_micros("-"), None);
    assert_eq!(time_micros("N/A"), None);
}

#[test]
fn times_are_written_in_decimal_seconds() {
    assert_eq!(seconds_argument(30_000), "30.000");
    assert_eq!(seconds_argument(1), "0.001");
    assert_eq!(seconds_argument(u64::MAX), "18446744073709551.615");
    assert_eq!(micros_argument(30_000_001), "30.000001");
    assert_eq!(timestamp(0), "00:00:00.000");
    assert_eq!(timestamp(360_000_000), "100:00:00.000");
    for millis in [1, 999, 1000, 61_001, u64::MAX] {
        assert_eq!(duration_millis(&seconds_argument(millis)), Some(millis));
    }
    assert_eq!(time_micros(&micros_argument(1_000_007)), Some(1_000_007));
}

#[test]
fn packet_counts_are_whole_numbers() {
    assert_eq!(whole_number("12"), Some(12));
    assert_eq!(whole_number("+12"), Some(12));
    assert_eq!(whole_number("18446744073709551615"), Some(u64::MAX));
    for value in ["", "+", "-1", "1.0", "18446744073709551616", " 1", "++1"] {
        assert_eq!(whole_number(value), None);
    }
}

#[test]
fn streams_without_what_is_needed_are_refused() {
    let probe = |streams, format| Probe { streams, format };
    let refused = |streams: Vec<ProbeStream>, format| {
        error_text(select_streams(&probe(streams, format), 0).expect_err("an error"))
    };
    assert_eq!(refused(vec![stream(Some(0), "audio")], None), "Original contains no video stream");
    assert_eq!(refused(vec![stream(None, "video")], None), "Video stream has no index");
    assert_eq!(
        refused(vec![stream(Some(0), "video"), stream(None, "audio")], None),
        "Audio stream has no index"
    );
    assert_eq!(
        refused(vec![stream(Some(0), "video")], None),
        "Video duration is missing, invalid, or empty"
    );
    let early = ProbeStream { start_time: text("1"), ..stream(Some(0), "video") };
    let format = ProbeFormat { duration: text("9"), start_time: text("1.5") };
    assert_eq!(refused(vec![early], Some(format)), "Video starts before the container timeline");
}

#[test]
fn delayed_videos_start_after_their_container() {
    let video = ProbeStream { start_time: text("5.000000"), ..stream(Some(0), "video") };
    let audio = ProbeStream { start_time: text("0.5"), ..stream(Some(1), "audio") };
    let probe = Probe {
        streams: vec![video, audio],
        format: Some(ProbeFormat { duration: text("36.0000005"), start_time: None }),
    };
    assert_eq!(
        select_streams(&probe, 0),
        Ok(MediaSelection {
            video_index: 0,
            audio_index: Some(1),
            duration_ms: 31_500,
            start_offset_micros: 4_500_000,
        })
    );
}

fn rendered(args: &MediaArgs) -> Vec<String> {
    (0..args.len())
        .map(|i| match args.get(i) {
            MediaArg::Text(text) => text.clone(),
            MediaArg::Source => "<source>".to_owned(),
            MediaArg::Clip => "<clip>".to_owned(),
        })
        .collect()
}

#[test]
fn media_commands_get_their_arguments() {
    assert_eq!(
        rendered(&probe_arguments(true)).join(" "),
        "-v error -count_packets -show_entries stream=codec_type,nb_read_packets -of json <source>"
    );
    assert_eq!(
        rendered(&probe_arguments(false)).join(" "),
        "-v error -show_entries format=duration,start_time:stream=index,codec_type,duration,start_time:stream_disposition=attached_pic -of json <source>"
    );
    let mut selection = MediaSelection {
        video_index: 0,
        audio_index: Some(1),
        duration_ms: 31_000,
        start_offset_micros: 5_000_001,
    };
    assert_eq!(
        rendered(&transcode_arguments(&selection, 30_000, 31_000, 0).expect("arguments")).join(" "),
        "-nostdin -v error -xerror -y -ss 35.000001 -err_detect explode -i <source> -t 1.000 -map 0:0 -map 0:1 -vf scale=w=640:h=640:force_original_aspect_ratio=decrease:force_divisible_by=2 -c:v libx264 -preset veryfast -crf 28 -pix_fmt yuv420p -c:a aac -b:a 96k -movflags +faststart <clip>"
    );
    selection.audio_index = None;
    assert_eq!(
        rendered(&transcode_arguments(&selection, 0, 30_000, 0).expect("arguments")).join(" "),
        "-nostdin -v error -xerror -y -ss 5.000001 -err_detect explode -i <source> -t 30.000 -map 0:0 -an -vf scale=w=640:h=640:force_original_aspect_ratio=decrease:force_divisible_by=2 -c:v libx264 -preset veryfast -crf 28 -pix_fmt yuv420p -movflags +faststart <clip>"
    );
    let refused = |start, end| {
        error_text(transcode_arguments(&selection, start, end, 0).expect_err("an error"))
    };
    assert_eq!(refused(5, 5), "Invalid video segment interval");
    assert_eq!(refused(u64::MAX / 1000, u64::MAX), "Video segment seek offset overflowed");
}

#[test]
fn clips_must_have_a_size_and_pictures() {
    assert_eq!(check_encoded_size(0, 1), Ok(()));
    assert_eq!(check_encoded_size(0, 16_777_216), Ok(()));
    assert_eq!(
        error_text(check_encoded_size(0, 0).expect_err("empty")),
        "Encoded clip has 0 bytes; expected 1 through 16777216"
    );
    assert!(check_encoded_size(0, 16_777_217).is_err());
    let check = |streams| check_packets(&Probe { streams, format: None }, 0);
    assert_eq!(check(vec![counted("video", "10"), counted("audio", "5")]), Ok(true));
    assert_eq!(check(vec![counted("video", "10"), counted("audio", "0")]), Ok(false));
    assert_eq!(check(vec![counted("video", "10")]), Ok(false));
    assert_eq!(
        error_text(check(vec![counted("video", "0"), counted("audio", "5")]).expect_err("none")),
        "Encoded segment contains no video packets"
    );
    assert!(check(vec![stream(None, "video")]).is_err());
}

#[test]
fn probe_output_is_limited() {
    let mut output = ProbeOutput::new();
    for _ in 0..256 {
        assert_eq!(output.read_probe_output(&[7; 4096]), Ok(()));
    }
    assert_eq!(
        output.read_probe_output(&[7]),
        Err("Media command stdout exceeded 1 MiB".to_owned())
    );
    assert_eq!(output.into_bytes(), vec![7; 1024 * 1024]);
    let mut cut = ProbeOutput::new();
    assert_eq!(cut.read_probe_output(b"ab"), Ok(()));
    assert_eq!(cut.read_probe_output(b""), Ok(()));
    assert_eq!(cut.read_probe_output(b"c"), Ok(()));
    assert_eq!(cut.into_bytes(), b"abc");
}

#[test]
fn diagnostics_keep_their_end() {
    let bytes: Vec<u8> = (0..200_000_u32).map(|i| (i % 251) as u8).collect();
    let mut tail = DiagnosticsTail::new();
    for chunk in bytes.chunks(4096) {
        tail.read_diagnostics(chunk);
    }
    assert_eq!(tail.into_bytes(), bytes[bytes.len() - 65_536..]);
    let mut tail = DiagnosticsTail::new();
    tail.read_diagnostics(b"abc");
    tail.read_diagnostics(&bytes);
    assert_eq!(tail.into_bytes(), bytes[bytes.len() - 65_536..]);
    let mut tail = DiagnosticsTail::new();
    tail.read_diagnostics(b"abc");
    tail.read_diagnostics(b"def");
    assert_eq!(tail.into_bytes(), b"abcdef");
}

#[test]
fn media_commands_report_how_they_ended() {
    let exited = |success| MediaRun::Exited {
        success,
        status: "exit status: 1".to_owned(),
        output: b"{}".to_vec(),
        diagnostics: b"bad \xff input".to_vec(),
    };
    assert_eq!(run_media_command("ffprobe", exited(true), 0), Ok(b"{}".to_vec()));
    assert_eq!(
        error_text(run_media_command("ffprobe", exited(false), 0).expect_err("failed")),
        "ffprobe exited with exit status: 1: bad \u{fffd} input"
    );
    let failed = |run| error_text(run_media_command("ffmpeg", run, 0).expect_err("failed"));
    assert_eq!(failed(MediaRun::TimedOut), "Media command timed out");
    assert_eq!(failed(MediaRun::NoStdout), "Media command stdout is unavailable");
    assert_eq!(failed(MediaRun::NoStderr), "Media command stderr is unavailable");
    assert_eq!(failed(MediaRun::NotStarted { error: "missing".to_owned() }), "missing");
    assert_eq!(failed(MediaRun::Failed { error: "broken".to_owned() }), "broken");
    match read_probe(0, Err("EOF".to_owned())) {
        Err(e) => assert_eq!(error_text(e), "Invalid ffprobe response: EOF"),
        Ok(_) => panic!("expected an error"),
    }
}

fn args() -> VideoArgs {
    VideoArgs {
        video_hosts: vec!["http://omni:8091".to_owned()],
        video_model_name: "omni".to_owned(),
        video_api_key: None,
        video_prompt: "Describe".to_owned(),
        video_max_concurrent: 1,
        video_max_bytes: 2_147_483_648,
        timeout: 300,
        max_retries: 0,
        retry_delay_seconds: 5,
        unavailable_duration: 60,
    }
}

fn analyzer() -> VideoAnalyzer {
    VideoAnalyzer::from_args(&args(), None, None).expect("valid settings").expect("hosts")
}

#[test]
fn analyzers_follow_their_settings() {
    let mut analyzer = analyzer();
    assert_eq!(analyzer.prompt(), "Describe");
    assert_eq!(analyzer.max_bytes(), 2_147_483_648);
    assert_eq!(analyzer.timeout(), 300);
    assert_eq!(analyzer.max_concurrent(), 1);
    let hosts = analyzer.host_manager_mut();
    assert_eq!(hosts.max_retries(), None);
    assert_eq!(hosts.retry_delay(), 5_000_000_000);
    assert_eq!(hosts.get_available_host(0), Ok("http://omni:8091".to_owned()));
    let mut limited = args();
    limited.max_retries = 3;
    let mut analyzer =
        VideoAnalyzer::from_args(&limited, None, None).expect("valid settings").expect("hosts");
    assert_eq!(analyzer.host_manager_mut().max_retries(), Some(3));
}

#[test]
fn settings_without_hosts_or_with_bad_values_give_no_analyzer() {
    let mut none = args();
    none.video_hosts.clear();
    none.video_max_concurrent = 0;
    assert_eq!(check_args(&none), Ok(false));
    assert!(matches!(VideoAnalyzer::from_args(&none, text("x"), None), Ok(None)));
    let mut idle = args();
    idle.video_max_concurrent = 0;
    let message = format!("Video concurrency must be between 1 and {}", usize::MAX >> 3);
    assert_eq!(check_args(&idle), Err(ImageAnalysisError::InvalidConfig { error: message.clone() }));
    idle.video_max_concurrent = (usize::MAX >> 3) + 1;
    assert_eq!(check_args(&idle), Err(ImageAnalysisError::InvalidConfig { error: message }));
    idle.video_max_concurrent = usize::MAX >> 3;
    assert_eq!(check_args(&idle), Ok(true));
    match VideoAnalyzer::from_args(&args(), text("missing"), text("also")) {
        Err(ImageAnalysisError::InvalidConfig { error }) => {
            assert_eq!(error, "Video analysis requires working ffmpeg: missing");
        }
        other => panic!("{other:?}"),
    }
    match VideoAnalyzer::from_args(&args(), None, text("also")) {
        Err(ImageAnalysisError::InvalidConfig { error }) => {
            assert_eq!(error, "Video analysis requires working ffprobe: also");
        }
        other => panic!("{other:?}"),
    }
}

fn original(duration: &str) -> Probe {
    Probe {
        streams: vec![
            ProbeStream { duration: text(duration), ..stream(Some(0), "video") },
            stream(Some(1), "audio"),
        ],
        format: None,
    }
}

fn prepared(duration: &str) -> VideoAnalysis {
    analyzer()
        .analyze(0, "Describe")
        .on_event(VideoEvent::Permit(Ok(())))
        .on_event(VideoEvent::Workspace(Ok(())))
        .on_event(VideoEvent::Original(OriginalOutcome::Ready))
        .on_event(VideoEvent::Probed(Ok(original(duration))))
}

fn encoded(analysis: VideoAnalysis, sound: bool) -> VideoAnalysis {
    let mut streams = vec![counted("video", "10")];
    if sound {
        streams.push(counted("audio", "5"));
    }
    analysis
        .on_event(VideoEvent::Transcoded(Ok(())))
        .on_event(VideoEvent::Measured(Ok(1000)))
        .on_event(VideoEvent::Probed(Ok(Probe { streams, format: None })))
}

fn described(analysis: VideoAnalysis, description: &str) -> VideoAnalysis {
    analysis.on_event(VideoEvent::Described(Ok(ImageAnalysisResult {
        description: description.to_owned(),
        asset_id: 0,
    })))
}

#[test]
fn segments_cover_a_short_final_interval_and_make_one_description() {
    let first = prepared("31.000000");
    assert!(matches!(first.phase(), VideoPhase::Transcoding { start: 0, end: 30_000, .. }));
    let first = encoded(first, true);
    match first.phase() {
        VideoPhase::Describing { has_audio, prompt, .. } => {
            assert!(*has_audio);
            assert_eq!(
                prompt,
                "Describe\n\nSegment interval: 00:00:00.000\u{2013}00:00:30.000. Analyze both this segment's video and audio."
            );
        }
        other => panic!("{other:?}"),
    }
    let second = described(first, " a red screen \n").on_event(VideoEvent::ClipRemoved(Ok(())));
    assert!(matches!(second.phase(), VideoPhase::Transcoding { start: 30_000, end: 31_000, .. }));
    let second = encoded(second, false);
    match second.phase() {
        VideoPhase::Describing { has_audio, prompt, .. } => {
            assert!(!*has_audio);
            assert_eq!(
                prompt,
                "Describe\n\nSegment interval: 00:00:30.000\u{2013}00:00:31.000. This segment has no audio samples; describe only what is visible."
            );
        }
        other => panic!("{other:?}"),
    }
    let end = described(second, "a blue screen").on_event(VideoEvent::ClipRemoved(Ok(())));
    let result = end.into_result().expect("over").expect("described");
    assert_eq!(result.asset_id, 0);
    assert_eq!(
        result.description,
        "[00:00:00.000\u{2013}00:00:30.000] a red screen\n\n[00:00:30.000\u{2013}00:00:31.000] a blue screen"
    );
}

#[test]
fn failures_give_no_partial_description() {
    let second = |event| {
        let first = described(encoded(prepared("31"), true), "kept back");
        let second = encoded(first.on_event(VideoEvent::ClipRemoved(Ok(()))), true);
        second.on_event(event).into_result().expect("over").expect_err("an error")
    };
    assert_eq!(
        second(VideoEvent::Described(Err(ImageAnalysisError::AiRequestTimeout))),
        ImageAnalysisError::AiRequestTimeout
    );
    let first = described(encoded(prepared("31"), true), "kept back");
    let stuck = first.on_event(VideoEvent::ClipRemoved(Err("busy".to_owned())));
    assert_eq!(error_text(stuck.into_result().expect("over").expect_err("an error")), "busy");
    let large = prepared("31")
        .on_event(VideoEvent::Transcoded(Ok(())))
        .on_event(VideoEvent::Measured(Ok(16_777_217)));
    assert!(large.into_result().expect("over").is_err());
    assert!(prepared("31").into_result().is_none());
}

#[test]
fn preparations_report_their_errors() {
    let start = || analyzer().analyze(0, "Describe");
    let end = |analysis: VideoAnalysis| {
        error_text(analysis.into_result().expect("over").expect_err("an error"))
    };
    assert_eq!(
        end(start().on_event(VideoEvent::Permit(Err("closed".to_owned())))),
        "Video worker is unavailable: closed"
    );
    let permitted = || start().on_event(VideoEvent::Permit(Ok(())));
    assert_eq!(end(permitted().on_event(VideoEvent::Workspace(Err("full".to_owned())))), "full");
    let ready = || permitted().on_event(VideoEvent::Workspace(Ok(())));
    assert_eq!(
        end(ready().on_event(VideoEvent::Original(OriginalOutcome::TimedOut))),
        "Original acquisition timed out"
    );
    let missing = ready().on_event(VideoEvent::Original(OriginalOutcome::Failed(
        ImageAnalysisError::EmptyFile { filename: "f".to_owned() },
    )));
    assert_eq!(
        missing.into_result().expect("over").expect_err("an error"),
        ImageAnalysisError::EmptyFile { filename: "f".to_owned() }
    );
}
