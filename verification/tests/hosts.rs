use immich_analyze::error::ImageAnalysisError;
use immich_analyze::host_manager::HostManager;
use immich_analyze::interface::{build_video_body, response_finish_reason, Interface};
use immich_analyze::json::{parse_json, Json};
use immich_analyze::request::{
    check_clip_size, judge_answer, judge_reply, AnalysisRequest, ImageAnalysisResult, ReplyOutcome,
    RequestAction, ServiceReply,
};

const SECOND: u128 = 1_000_000_000;

fn manager(hosts: &[&str], interface: Interface, max_retries: Option<u32>) -> HostManager {
    HostManager::new(
        hosts.iter().map(|host| host.to_string()).collect(),
        interface,
        "fixture".to_owned(),
        2,
        max_retries,
        5 * SECOND,
        60 * SECOND,
        Some("secret".to_owned()),
    )
}

fn answered(status: u16, body: &str) -> ServiceReply {
    ServiceReply::Answered { status, body: Ok(body.to_owned()) }
}

fn completion(content: &str) -> ServiceReply {
    answered(200, &format!(r#"{{"choices":[{{"message":{{"content":"{content}"}}}}]}}"#))
}

/// Runs an analysis on the replies; gives the result and the hosts asked.
fn run(
    manager: &mut HostManager,
    mut request: AnalysisRequest,
    replies: Vec<ServiceReply>,
) -> (Option<Result<ImageAnalysisResult, ImageAnalysisError>>, Vec<String>, usize) {
    let mut now: u128 = 0;
    let mut asked = Vec::new();
    let mut sleeps = 0;
    let mut replies = replies.into_iter();
    loop {
        match manager.next_action(&mut request, now) {
            RequestAction::Done(result) => return (Some(result), asked, sleeps),
            RequestAction::Sleep { delay } => {
                assert_eq!(delay, 5 * SECOND);
                now += delay;
                sleeps += 1;
            }
            RequestAction::Send { host, .. } => {
                asked.push(host.clone());
                now += 1;
                let Some(reply) = replies.next() else {
                    return (None, asked, sleeps);
                };
                if let Some(result) = manager.on_reply(&mut request, &host, reply, now) {
                    return (Some(result), asked, sleeps);
                }
            }
        }
    }
}

#[test]
fn truncated_video_is_rejected_without_changing_image_completion_behavior() {
    let mut manager = HostManager::new(
        vec!["http://127.0.0.1:0".to_owned()],
        Interface::Llamacpp,
        "fixture".to_owned(),
        2,
        Some(1),
        0,
        0,
        None,
    );
    let asset_id: u128 = 42;
    let media = b"transport fixture bytes";
    let response_body = r#"{"choices":[{"message":{"content":"partial model output"},"finish_reason":"length"}]}"#;

    let request = manager
        .analyze_video_chunk(asset_id, media, "Describe", true)
        .expect("a small clip is accepted");
    let (video, _, _) = run(&mut manager, request, vec![answered(200, response_body)]);
    assert!(matches!(video, Some(Err(ImageAnalysisError::ProcessingError { .. }))));

    let request = manager.analyze_image(asset_id, media, "Describe");
    let (image, _, _) = run(&mut manager, request, vec![answered(200, response_body)]);
    let image = image.expect("decided").expect("described");
    assert_eq!(image.asset_id, asset_id);
    assert_eq!(image.description, "partial model output");
}

#[test]
fn endpoints_and_authentication_follow_the_interface() {
    assert_eq!(Interface::Ollama.endpoint(), "/api/chat");
    assert_eq!(Interface::Llamacpp.endpoint(), "/v1/chat/completions");
    assert!(!Interface::Ollama.supports_bearer_auth());
    assert!(Interface::Llamacpp.supports_bearer_auth());
}

#[test]
fn requests_carry_url_authorization_and_timeout() {
    let mut llama = manager(&["http://one:8080//"], Interface::Llamacpp, None);
    let mut request = llama.analyze_image(1, b"abc", "Describe");
    match llama.next_action(&mut request, 0) {
        RequestAction::Send { host, url, authorization, timeout_secs } => {
            assert_eq!(host, "http://one:8080//");
            assert_eq!(url, "http://one:8080/v1/chat/completions");
            assert_eq!(authorization.as_deref(), Some("Bearer secret"));
            assert_eq!(timeout_secs, 3);
        }
        other => panic!("{other:?}"),
    }
    let mut ollama = manager(&["http://one:11434"], Interface::Ollama, None);
    let mut request = ollama.analyze_image(1, b"abc", "Describe");
    match ollama.next_action(&mut request, 0) {
        RequestAction::Send { url, authorization, .. } => {
            assert_eq!(url, "http://one:11434/api/chat");
            assert_eq!(authorization, None);
        }
        other => panic!("{other:?}"),
    }
}

#[test]
fn image_bodies_hold_prompt_and_base64() {
    let body = manager(&["h"], Interface::Ollama, None).analyze_image(1, b"Man", "Describe");
    let message = body.body().get("messages").and_then(Json::first).expect("message");
    assert_eq!(message.get("content").and_then(Json::as_text), Some("Describe"));
    let image = message.get("images").and_then(Json::first).and_then(Json::as_text);
    assert_eq!(image, Some("TWFu"));
    assert_eq!(body.body().get("model").and_then(Json::as_text), Some("fixture"));
    assert_eq!(body.body().get("stream"), Some(&Json::Bool(false)));

    let body = manager(&["h"], Interface::Llamacpp, None).analyze_image(1, b"Ma", "Describe");
    let message = body.body().get("messages").and_then(Json::first).expect("message");
    let Some(Json::Array(parts)) = message.get("content") else { panic!("parts") };
    assert_eq!(parts[0].get("text").and_then(Json::as_text), Some("Describe"));
    let url = parts[1].get("image_url").and_then(|part| part.get("url")).and_then(Json::as_text);
    assert_eq!(url, Some("data:image/jpeg;base64,TWE="));
}

#[test]
fn video_bodies_hold_clip_and_limits() {
    let body = build_video_body("m", "Describe", "QUJD", true);
    let message = body.get("messages").and_then(Json::first).expect("message");
    let Some(Json::Array(parts)) = message.get("content") else { panic!("parts") };
    let url = parts[0].get("video_url").and_then(|part| part.get("url")).and_then(Json::as_text);
    assert_eq!(url, Some("data:video/mp4;base64,QUJD"));
    assert_eq!(parts[1].get("text").and_then(Json::as_text), Some("Describe"));
    assert_eq!(body.get("max_tokens"), Some(&Json::Number("512".to_owned())));
    let video = body.get("media_io_kwargs").and_then(|kwargs| kwargs.get("video")).expect("video");
    assert_eq!(video.get("num_frames"), Some(&Json::Number("32".to_owned())));
    assert_eq!(video.get("fps"), Some(&Json::Number("-1".to_owned())));
    let kwargs = body.get("mm_processor_kwargs").expect("kwargs");
    assert_eq!(kwargs.get("use_audio_in_video"), Some(&Json::Bool(true)));
}

#[test]
fn answers_are_read_by_interface() {
    let ollama = parse_json(r#"{"message":{"content":"a cat"}}"#).expect("json");
    assert_eq!(Interface::Ollama.parse_response(&ollama), Some("a cat"));
    assert_eq!(Interface::Llamacpp.parse_response(&ollama), None);
    let llama = parse_json(r#"{"choices":[{"message":{"content":"a dog"},"finish_reason":"stop"}]}"#)
        .expect("json");
    assert_eq!(Interface::Llamacpp.parse_response(&llama), Some("a dog"));
    assert_eq!(Interface::Ollama.parse_response(&llama), None);
    assert_eq!(response_finish_reason(&llama), Some("stop"));
    assert_eq!(response_finish_reason(&ollama), None);
    assert!(parse_json("not json").is_err());
}

#[test]
fn clip_sizes_are_limited() {
    assert_eq!(
        check_clip_size(42, 0),
        Err(ImageAnalysisError::EmptyFile {
            filename: "00000000-0000-0000-0000-00000000002a".to_owned()
        })
    );
    assert_eq!(check_clip_size(42, 1), Ok(()));
    assert_eq!(check_clip_size(42, 16 * 1024 * 1024), Ok(()));
    assert_eq!(
        check_clip_size(42, 16 * 1024 * 1024 + 1),
        Err(ImageAnalysisError::ProcessingError {
            filename: "00000000-0000-0000-0000-00000000002a".to_owned(),
            error: "Video clip is 16777217 bytes, which exceeds the 16777216-byte limit".to_owned(),
        })
    );
    let manager = manager(&["h"], Interface::Llamacpp, None);
    assert!(matches!(
        manager.analyze_video_chunk(42, b"", "p", false),
        Err(ImageAnalysisError::EmptyFile { .. })
    ));
}

#[test]
fn replies_are_judged() {
    let judge = |reply| judge_reply(Interface::Llamacpp, "f", true, reply);
    assert!(matches!(
        judge(ServiceReply::TimedOut),
        ReplyOutcome::TryNext(ImageAnalysisError::AiRequestTimeout)
    ));
    match judge(ServiceReply::Failed { error: "refused".to_owned() }) {
        ReplyOutcome::TryNext(ImageAnalysisError::HttpError { status, filename, response }) => {
            assert_eq!((status, filename.as_str(), response.as_str()), (0, "f", "refused"));
        }
        other => panic!("{other:?}"),
    }
    match judge(answered(503, "busy")) {
        ReplyOutcome::TryNext(ImageAnalysisError::HttpError { status, response, .. }) => {
            assert_eq!((status, response.as_str()), (503, "busy"));
        }
        other => panic!("{other:?}"),
    }
    match judge(ServiceReply::Answered { status: 404, body: Err("cut".to_owned()) }) {
        ReplyOutcome::Finished(Err(ImageAnalysisError::HttpError { status, response, .. })) => {
            assert_eq!((status, response.as_str()), (404, ""));
        }
        other => panic!("{other:?}"),
    }
    match judge(ServiceReply::Answered { status: 200, body: Err("cut".to_owned()) }) {
        ReplyOutcome::Finished(Err(ImageAnalysisError::ProcessingError { filename, error })) => {
            assert_eq!((filename.as_str(), error.as_str()), ("f", "cut"));
        }
        other => panic!("{other:?}"),
    }
    assert!(matches!(
        judge(answered(200, "<html>")),
        ReplyOutcome::Finished(Err(ImageAnalysisError::JsonParsing { .. }))
    ));
    match judge(answered(200, "{}")) {
        ReplyOutcome::Finished(Err(ImageAnalysisError::JsonParsing { error, .. })) => {
            assert_eq!(error, "No content field found in response");
        }
        other => panic!("{other:?}"),
    }
    assert!(matches!(
        judge(completion(" \\t\u{2003}")),
        ReplyOutcome::Finished(Err(ImageAnalysisError::EmptyResponse { .. }))
    ));
    match judge(completion("  a cat\\n")) {
        ReplyOutcome::Finished(Ok(description)) => assert_eq!(description, "a cat"),
        other => panic!("{other:?}"),
    }
    assert!(matches!(
        judge_answer(Interface::Ollama, "f", false, Err("bad".to_owned())),
        ReplyOutcome::Finished(Err(ImageAnalysisError::JsonParsing { .. }))
    ));
}

#[test]
fn failed_hosts_are_passed_over_in_order_and_the_first_good_answer_counts() {
    let mut hosts = manager(&["a", "b", "c"], Interface::Llamacpp, Some(1));
    let request = hosts.analyze_image(7, b"x", "p");
    let replies = vec![answered(500, ""), ServiceReply::TimedOut, completion("found")];
    let (result, asked, sleeps) = run(&mut hosts, request, replies);
    assert_eq!(asked, ["a", "b", "c"]);
    assert_eq!(sleeps, 0);
    let result = result.expect("decided").expect("described");
    assert_eq!(result.description, "found");
    assert_eq!(result.asset_id, 7);
}

#[test]
fn limited_analyses_end_with_the_last_error() {
    let mut hosts = manager(&["a", "b"], Interface::Llamacpp, Some(2));
    let request = hosts.analyze_image(7, b"x", "p");
    let replies = vec![
        answered(500, "1"),
        answered(502, "2"),
        answered(503, "3"),
        answered(504, "4"),
        completion("too late"),
    ];
    let (result, asked, sleeps) = run(&mut hosts, request, replies);
    assert_eq!(asked.len(), 4);
    assert_eq!(sleeps, 1);
    match result {
        Some(Err(ImageAnalysisError::HttpError { status, response, .. })) => {
            assert_eq!((status, response.as_str()), (504, "4"));
        }
        other => panic!("{other:?}"),
    }
}

#[test]
fn hopeless_errors_are_not_retried() {
    let mut hosts = manager(&["a", "b"], Interface::Llamacpp, None);
    let request = hosts.analyze_image(7, b"x", "p");
    let (result, asked, sleeps) = run(
        &mut hosts,
        request,
        vec![answered(500, ""), completion(" "), completion("unasked")],
    );
    assert_eq!(asked, ["a", "b"]);
    assert_eq!(sleeps, 0);
    assert!(matches!(result, Some(Err(ImageAnalysisError::EmptyResponse { .. }))));

    let mut hosts = manager(&["a", "b"], Interface::Llamacpp, None);
    let request = hosts.analyze_image(7, b"x", "p");
    let (result, asked, _) = run(&mut hosts, request, vec![answered(401, "no")]);
    assert_eq!(asked, ["a"]);
    assert!(matches!(result, Some(Err(ImageAnalysisError::HttpError { status: 401, .. }))));
}

#[test]
fn empty_answers_fail_immediately() {
    for (reply, empty) in [
        (answered(200, r#"{"message":{"content":" "}}"#), true),
        (answered(200, r#"{"message":{}}"#), false),
    ] {
        let mut hosts = manager(&["http://a", "http://b"], Interface::Ollama, Some(1));
        let request = hosts.analyze_image(0, b"x", "p");
        let good = answered(200, r#"{"message":{"content":"ok"}}"#);
        let (result, asked, sleeps) = run(&mut hosts, request, vec![reply, good]);
        assert_eq!(asked, ["http://a"]);
        assert_eq!(sleeps, 0);
        match result {
            Some(Err(ImageAnalysisError::EmptyResponse { filename })) => {
                assert!(empty);
                assert_eq!(filename, "00000000-0000-0000-0000-000000000000");
            }
            Some(Err(ImageAnalysisError::JsonParsing { error, .. })) => {
                assert!(!empty);
                assert_eq!(error, "No content field found in response");
            }
            other => panic!("{other:?}"),
        }
        assert_eq!(hosts.get_available_host(2), Ok("http://a".to_owned()));
    }
}

#[test]
fn without_hosts_every_round_is_empty() {
    let mut none = manager(&[], Interface::Llamacpp, Some(1));
    let request = none.analyze_image(7, b"x", "p");
    let (result, asked, _) = run(&mut none, request, vec![]);
    assert!(asked.is_empty());
    assert!(matches!(result, Some(Err(ImageAnalysisError::AllHostsUnavailable))));
    assert!(matches!(
        none.get_available_host(0),
        Err(ImageAnalysisError::AllHostsUnavailable)
    ));
}

#[test]
fn marks_expire_and_the_oldest_is_asked_when_all_are_marked() {
    let mut hosts = manager(&["a", "b"], Interface::Ollama, None);
    assert_eq!(hosts.get_available_host(0), Ok("a".to_owned()));
    hosts.mark_host_unavailable("a", 10 * SECOND);
    assert_eq!(hosts.get_available_host(11 * SECOND), Ok("b".to_owned()));
    hosts.mark_host_unavailable("b", 5 * SECOND);
    assert_eq!(hosts.get_available_host(12 * SECOND), Ok("b".to_owned()));
    assert_eq!(hosts.get_available_host(65 * SECOND - 1), Ok("b".to_owned()));
    assert_eq!(hosts.get_available_host(65 * SECOND), Ok("b".to_owned()));
    assert_eq!(hosts.get_available_host(70 * SECOND - 1), Ok("b".to_owned()));
    assert_eq!(hosts.get_available_host(70 * SECOND), Ok("a".to_owned()));
    hosts.mark_host_unavailable("a", 80 * SECOND);
    hosts.mark_host_unavailable("a", 90 * SECOND);
    hosts.mark_host_unavailable("b", 85 * SECOND);
    assert_eq!(hosts.get_available_host(91 * SECOND), Ok("b".to_owned()));
}

#[test]
fn errors_tell_whether_another_try_may_help() {
    let http = |status| ImageAnalysisError::HttpError {
        status,
        filename: String::new(),
        response: String::new(),
    };
    assert!(ImageAnalysisError::AllHostsUnavailable.is_retryable());
    assert!(ImageAnalysisError::AiRequestTimeout.is_retryable());
    assert!(http(0).is_retryable());
    assert!(http(500).is_retryable());
    assert!(http(599).is_retryable());
    assert!(!http(499).is_retryable());
    assert!(!http(404).is_retryable());
    assert!(!ImageAnalysisError::EmptyResponse { filename: String::new() }.is_retryable());
    assert!(!ImageAnalysisError::InvalidUuid { filename: String::new() }.is_retryable());
    let e = ImageAnalysisError::IoError { path: "p".to_owned(), error: "e".to_owned() };
    assert_eq!(e.duplicate(), e);
}
