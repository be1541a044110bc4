use immich_analyze::download::{Download, DownloadEvent, DownloadPhase, Removal};
use immich_analyze::error::ImageAnalysisError;
use immich_analyze::immich_api::{AssetRef, AssetResponse, ExifInfo, ImmichApiProvider};
use immich_analyze::json::Json;
use immich_analyze::keyed_call::{
    conclude_existence, judge_description, judge_existence, judge_metadata, judge_preview,
    judge_update, preview_file_name, ApiReply, KeyedCall, PreviewOutcome, Verdict,
};
use immich_analyze::ready::PingReply;
use immich_analyze::search::{AssetSearch, AssetSearchResponse, AssetSearchResult, SearchStep};

const ID: &str = "00000000-0000-0000-0000-00000000002a";

fn provider(keys: &[&str]) -> ImmichApiProvider {
    let keys: Vec<String> = keys.iter().map(|key| key.to_string()).collect();
    let errors: Vec<Option<String>> = keys.iter().map(|_| None).collect();
    match ImmichApiProvider::new("http://immich.example:2283", &keys, &errors) {
        Ok(provider) => provider,
        Err(e) => panic!("{e:?}"),
    }
}

fn failure(base: &str, keys: &[&str], errors: &[Option<&str>]) -> ImageAnalysisError {
    let keys: Vec<String> = keys.iter().map(|key| key.to_string()).collect();
    let errors: Vec<Option<String>> =
        errors.iter().map(|error| error.map(|text| text.to_owned())).collect();
    match ImmichApiProvider::new(base, &keys, &errors) {
        Ok(_) => panic!("expected an error"),
        Err(e) => e,
    }
}

/// A file that a download writes to, and the bodies that the server sends.
struct Simulated {
    file: Option<Vec<u8>>,
    opened_over_existing: bool,
}

impl Simulated {
    fn run(&mut self, mut download: Download, bodies: Vec<Vec<DownloadEvent>>) -> (Result<(), ImageAnalysisError>, Vec<usize>) {
        let mut bodies = bodies.into_iter();
        let mut body = Vec::new().into_iter();
        let mut asked = Vec::new();
        loop {
            let event = match download.phase() {
                DownloadPhase::Clearing { .. }
                | DownloadPhase::CleaningUp { .. }
                | DownloadPhase::ClearingLast => match self.file.take() {
                    Some(_) => DownloadEvent::Removed(Removal::Removed),
                    None => DownloadEvent::Removed(Removal::NotFound),
                },
                DownloadPhase::Asking { key } => {
                    asked.push(*key);
                    body = bodies.next().expect("a body for every key").into_iter();
                    body.next().expect("an answer")
                }
                DownloadPhase::Opening { .. } => {
                    self.opened_over_existing |= self.file.is_some();
                    self.file = Some(Vec::new());
                    DownloadEvent::Opened
                }
                DownloadPhase::Receiving { .. } => body.next().expect("more of the body"),
                DownloadPhase::Writing { chunk, .. } => {
                    self.file.as_mut().expect("an open file").extend_from_slice(chunk);
                    DownloadEvent::Written
                }
                DownloadPhase::Flushing { .. } => DownloadEvent::Flushed,
                DownloadPhase::Finished(result) => return (result.clone(), asked),
            };
            download = download.on_event(event);
        }
    }
}

fn simulated() -> Simulated {
    Simulated { file: Some(b"left over".to_vec()), opened_over_existing: false }
}

fn ok(content_length: Option<u64>) -> DownloadEvent {
    DownloadEvent::Answered { status: 200, content_length }
}

fn chunk(bytes: &[u8]) -> DownloadEvent {
    DownloadEvent::Chunk { bytes: bytes.to_vec() }
}

fn download(keys: &[&str], max_bytes: u64) -> Download {
    match provider(keys).download_original(42, "/tmp/original.bin", max_bytes) {
        Ok(download) => download,
        Err(e) => panic!("{e:?}"),
    }
}

#[test]
fn download_original_rejects_overlimit_chunked_body_and_cleans_up() {
    let mut disk = simulated();
    let (result, _) =
        disk.run(download(&["key"], 4), vec![vec![ok(None), chunk(b"ab"), chunk(b"cde")]]);
    let err = result.expect_err("expected overlimit");
    assert!(matches!(err, ImageAnalysisError::ProcessingError { .. }));
    assert!(disk.file.is_none());
    assert_eq!(
        err,
        ImageAnalysisError::ProcessingError {
            filename: ID.to_owned(),
            error: "Original file exceeds the configured maximum of 4 bytes after 5 bytes".to_owned(),
        }
    );
}

#[test]
fn download_original_retries_after_partial_transfer_and_preserves_second_body() {
    let mut disk = simulated();
    let (result, asked) = disk.run(
        download(&["key-one", "key-two"], 16),
        vec![
            vec![ok(None), chunk(b"abc"), DownloadEvent::BodyFailed { error: "eof".to_owned() }],
            vec![ok(Some(4)), chunk(b"WXYZ"), DownloadEvent::BodyEnded],
        ],
    );
    result.expect("second key should succeed");
    assert_eq!(asked, [0, 1]);
    assert_eq!(disk.file.as_deref(), Some(b"WXYZ".as_slice()));
    assert!(!disk.opened_over_existing);
}

#[test]
fn download_original_returns_empty_file_for_empty_body() {
    let mut disk = simulated();
    let (result, _) =
        disk.run(download(&["key"], 16), vec![vec![ok(Some(0)), DownloadEvent::BodyEnded]]);
    let err = result.expect_err("expected empty file");
    assert!(matches!(err, ImageAnalysisError::EmptyFile { .. }));
    assert!(disk.file.is_none());
}

#[test]
fn downloads_start_at_the_original_of_the_asset() {
    assert_eq!(
        download(&["key"], 1).url(),
        "http://immich.example:2283/api/assets/00000000-0000-0000-0000-00000000002a/original"
    );
}

#[test]
fn announced_sizes_over_the_limit_are_refused_at_once() {
    let mut disk = simulated();
    let (result, asked) = disk.run(download(&["a", "b"], 4), vec![vec![ok(Some(5))]]);
    assert_eq!(asked, [0]);
    assert_eq!(
        result,
        Err(ImageAnalysisError::ProcessingError {
            filename: ID.to_owned(),
            error: "Original file exceeds the configured maximum of 4 bytes (Content-Length: 5 bytes)"
                .to_owned(),
        })
    );
    assert!(disk.file.is_none());
}

#[test]
fn downloads_report_the_last_key_when_all_fail() {
    let mut disk = simulated();
    let (result, asked) = disk.run(
        download(&["a", "b"], 4),
        vec![
            vec![DownloadEvent::NoResponse { error: "refused".to_owned() }],
            vec![DownloadEvent::Answered { status: 403, content_length: None }],
        ],
    );
    assert_eq!(asked, [0, 1]);
    assert_eq!(
        result,
        Err(ImageAnalysisError::HttpError {
            status: 403,
            filename: ID.to_owned(),
            response: "403 Forbidden".to_owned(),
        })
    );
    assert!(disk.file.is_none());
}

#[test]
fn downloads_stop_when_the_destination_cannot_be_removed() {
    let start = download(&["a", "b"], 4);
    let end = start.on_event(DownloadEvent::Removed(Removal::Failed { error: "busy".to_owned() }));
    match end.phase() {
        DownloadPhase::Finished(result) => assert_eq!(
            *result,
            Err(ImageAnalysisError::IoError {
                path: "/tmp/original.bin".to_owned(),
                error: "busy".to_owned(),
            })
        ),
        other => panic!("{other:?}"),
    }
}

#[test]
fn write_errors_end_a_download() {
    let mut state = download(&["a", "b"], 4)
        .on_event(DownloadEvent::Removed(Removal::NotFound))
        .on_event(ok(None))
        .on_event(DownloadEvent::Opened)
        .on_event(chunk(b"abc"));
    assert!(matches!(state.phase(), DownloadPhase::Writing { downloaded: 3, .. }));
    state = state
        .on_event(DownloadEvent::WriteFailed { error: "disk full".to_owned() })
        .on_event(DownloadEvent::Removed(Removal::Removed));
    match state.phase() {
        DownloadPhase::Finished(Err(ImageAnalysisError::ProcessingError { error, .. })) => {
            assert_eq!(error, "disk full");
        }
        other => panic!("{other:?}"),
    }
}

#[test]
fn providers_need_a_url_and_usable_keys() {
    assert!(matches!(
        failure("not a url", &["key"], &[None]),
        ImageAnalysisError::InvalidConfig { .. }
    ));
    assert_eq!(failure("http://x", &["good", "bad\n"], &[None, None]), ImageAnalysisError::InvalidApiKey);
    assert_eq!(
        failure("http://x", &["good", "bad\n"], &[Some("no tls"), None]),
        ImageAnalysisError::HttpClientError { error: "no tls".to_owned() }
    );
    assert_eq!(
        failure("http://x", &[], &[]),
        ImageAnalysisError::InvalidConfig { error: "At least one API key is required".to_owned() }
    );
    assert_eq!(provider(&["a\tb", "ä"]).key_count(), 2);
    assert_eq!(provider(&["a\tb", "ä"]).api_key(1), "ä");
    assert_eq!(provider(&["a"]).base_url(), "http://immich.example:2283/");
    assert_eq!(provider(&["a", "b"]).clone().api_key(1), "b");
}

#[test]
fn debug_texts_show_the_url_and_the_number_of_keys_only() {
    let url = "Url { scheme: \"http\", cannot_be_a_base: false, username: \"\", password: None, host: Some(Domain(\"immich.example\")), port: Some(2283), path: \"/\", query: None, fragment: None }";
    let text = format!("ImmichApiProvider {{ base_url: {url}, clients: \"2 clients\" }}");
    assert_eq!(provider(&["secret-one", "secret-two"]).debug_text(), text);
    assert_eq!(provider(&["other", "keys"]).debug_text(), text);
    assert_ne!(provider(&["one"]).debug_text(), text);
}

fn call(result: Result<KeyedCall, ImageAnalysisError>) -> KeyedCall {
    match result {
        Ok(call) => call,
        Err(e) => panic!("{e:?}"),
    }
}

fn refused<T>(status: u16, body: &str) -> ApiReply<T> {
    ApiReply::Refused { status, body: Ok(body.to_owned()) }
}

#[test]
fn calls_ask_the_endpoints_of_the_asset() {
    let provider = provider(&["a"]);
    let asset = "http://immich.example:2283/api/assets/00000000-0000-0000-0000-00000000002a";
    assert_eq!(call(provider.has_description(42)).url(), asset);
    assert_eq!(call(provider.asset_exists(42)).url(), asset);
    assert_eq!(call(provider.get_asset_metadata(42)).url(), asset);
    assert_eq!(
        call(provider.get_preview_path(42)).url(),
        format!("{asset}/thumbnail?size=preview")
    );
    assert_eq!(preview_file_name(42), format!("{ID}_preview.tmp"));
    let (update, body) = match provider.update_description(42, "a \"cat\"") {
        Ok(update) => update,
        Err(e) => panic!("{e:?}"),
    };
    assert_eq!(update.url(), asset);
    assert_eq!(body.get("description").and_then(Json::as_text), Some("a \"cat\""));
}

#[test]
fn the_first_key_that_settles_decides() {
    let mut update = call(provider(&["a", "b", "c"]).has_description(42));
    assert_eq!(update.next_key(), Some(0));
    let verdict = judge_update(update.filename(), refused(403, "no"));
    assert!(update.on_verdict(verdict).is_none());
    assert_eq!(update.next_key(), Some(1));
    let verdict = judge_update(update.filename(), ApiReply::Granted(()));
    let settled = update.on_verdict(verdict);
    assert_eq!(settled, Some(Ok(())));
    assert_eq!(update.conclude(settled), Ok(()));
}

#[test]
fn the_error_of_the_last_key_is_reported() {
    let mut update = call(provider(&["a", "b"]).has_description(42));
    let verdict = judge_update(update.filename(), refused(403, "no"));
    assert!(update.on_verdict(verdict).is_none());
    let verdict = judge_update(update.filename(), ApiReply::NoResponse { error: "down".to_owned() });
    assert!(update.on_verdict(verdict).is_none());
    assert_eq!(update.next_key(), None);
    assert_eq!(
        update.conclude::<()>(None),
        Err(ImageAnalysisError::HttpError {
            status: 0,
            filename: ID.to_owned(),
            response: "down".to_owned(),
        })
    );
    let fresh = call(provider(&["a"]).has_description(42));
    assert_eq!(
        fresh.conclude::<()>(None),
        Err(ImageAnalysisError::HttpError {
            status: 0,
            filename: ID.to_owned(),
            response: "No API keys available".to_owned(),
        })
    );
}

fn asset(description: Option<&str>) -> AssetResponse {
    AssetResponse {
        id: ID.to_owned(),
        exif_info: Some(ExifInfo {
            description: description.map(|text| text.to_owned()),
            city: None,
            state: None,
            country: None,
            make: None,
            model: None,
            date_time_original: None,
            lens_model: None,
            exposure_time: None,
            f_number: Some("1.8".to_owned()),
            focal_length: None,
            iso: Some(100),
            rating: None,
            time_zone: None,
        }),
    }
}

#[test]
fn descriptions_count_when_they_are_not_empty() {
    let judge = |asset| match judge_description("f", ApiReply::Granted(Ok(asset))) {
        Verdict::Settled(Ok(described)) => described,
        other => panic!("{other:?}"),
    };
    assert!(judge(asset(Some("a cat"))));
    assert!(!judge(asset(Some(""))));
    assert!(!judge(asset(None)));
    assert!(!judge(AssetResponse { id: ID.to_owned(), exif_info: None }));
    assert!(matches!(
        judge_description("f", ApiReply::Granted(Err("bad".to_owned()))),
        Verdict::Settled(Err(ImageAnalysisError::JsonParsing { .. }))
    ));
    assert!(matches!(judge_description("f", refused(500, "")), Verdict::NextKey(_)));
    assert!(matches!(
        judge_metadata("f", ApiReply::Granted(Err("bad".to_owned()))),
        Verdict::Settled(Err(ImageAnalysisError::JsonParsing { .. }))
    ));
}

#[test]
fn missing_assets_are_told_from_refusals() {
    let settled = |reply| match judge_existence("f", reply) {
        Verdict::Settled(Ok(found)) => Some(found),
        Verdict::NextKey(_) => None,
        other => panic!("{other:?}"),
    };
    assert_eq!(settled(ApiReply::Granted(())), Some(true));
    assert_eq!(settled(refused(404, "Not found")), Some(false));
    assert_eq!(settled(refused(404, "")), None);
    assert_eq!(settled(refused(404, "not found")), None);
    assert_eq!(settled(refused(400, "{\"message\":\"Not found or no access\"}")), Some(false));
    assert_eq!(settled(refused(400, "bad request")), None);
    assert_eq!(settled(ApiReply::Refused { status: 400, body: Err("cut".to_owned()) }), None);
    assert_eq!(settled(refused(500, "Not found")), None);
    assert_eq!(settled(ApiReply::NoResponse { error: "down".to_owned() }), None);
    assert_eq!(conclude_existence(None), Ok(true));
    assert_eq!(conclude_existence(Some(Ok(false))), Ok(false));
}

#[test]
fn previews_that_were_sent_settle_the_call() {
    assert!(matches!(
        judge_preview("f", ApiReply::Granted(PreviewOutcome::Saved)),
        Verdict::Settled(Ok(()))
    ));
    assert!(matches!(
        judge_preview("f", ApiReply::Granted(PreviewOutcome::Unreadable { error: "cut".to_owned() })),
        Verdict::Settled(Err(ImageAnalysisError::HttpError { status: 0, .. }))
    ));
    assert!(matches!(
        judge_preview("f", ApiReply::Granted(PreviewOutcome::Unwritten { error: "full".to_owned() })),
        Verdict::Settled(Err(ImageAnalysisError::ProcessingError { .. }))
    ));
    assert!(matches!(judge_preview("f", refused(404, "")), Verdict::NextKey(_)));
}

type PageReply = ApiReply<Result<AssetSearchResponse, String>>;

fn page(ids: &[&str], next: Option<&str>) -> PageReply {
    let items = ids
        .iter()
        .map(|id| AssetResponse { id: id.to_string(), exif_info: None })
        .collect();
    ApiReply::Granted(Ok(AssetSearchResponse {
        assets: AssetSearchResult { items, next_page: next.map(|text| text.to_owned()) },
    }))
}

fn number(body: &Json, name: &str) -> String {
    match body.get(name) {
        Some(Json::Number(n)) => n.clone(),
        other => panic!("{other:?}"),
    }
}

fn list(search: AssetSearch, replies: Vec<PageReply>) -> (Result<Vec<AssetRef>, ImageAnalysisError>, Vec<(usize, String)>) {
    let mut search = search;
    let mut asked = Vec::new();
    for reply in replies {
        asked.push((search.key(), number(&search.body(), "page")));
        match search.on_reply(reply) {
            SearchStep::Ask(next) => search = next,
            SearchStep::Done(result) => return (result, asked),
        }
    }
    panic!("the listing goes on");
}

#[test]
fn listings_read_every_page_of_every_library() {
    let search = match provider(&["a", "b"]).get_assets() {
        Ok(search) => search,
        Err(e) => panic!("{e:?}"),
    };
    assert_eq!(search.url(), "http://immich.example:2283/api/search/metadata");
    let body = search.body();
    assert_eq!(number(&body, "size"), "1000");
    assert_eq!(body.get("withExif"), Some(&Json::Bool(true)));
    assert_eq!(body.get("createdAfter"), None);
    let (result, asked) = list(
        search,
        vec![
            page(&["00000000-0000-0000-0000-000000000001", "00000000000000000000000000000002"], Some("2")),
            page(&["00000000-0000-0000-0000-000000000003"], None),
            page(&[], Some("2")),
        ],
    );
    assert_eq!(
        result,
        Ok(vec![AssetRef { id: 1 }, AssetRef { id: 2 }, AssetRef { id: 3 }])
    );
    assert_eq!(
        asked,
        [(0, "1".to_owned()), (0, "2".to_owned()), (1, "1".to_owned())]
    );
}

#[test]
fn listings_fall_back_on_the_other_keys() {
    let search = match provider(&["a", "b", "c"]).get_assets() {
        Ok(search) => search,
        Err(e) => panic!("{e:?}"),
    };
    let (result, asked) = list(
        search,
        vec![
            page(&[], None),
            refused(500, "1"),
            ApiReply::NoResponse { error: "2".to_owned() },
            refused(503, "3"),
        ],
    );
    assert_eq!(asked.iter().map(|(key, _)| *key).collect::<Vec<_>>(), [0, 1, 0, 2]);
    assert_eq!(
        result,
        Err(ImageAnalysisError::HttpError {
            status: 503,
            filename: "assets_list".to_owned(),
            response: "3".to_owned(),
        })
    );
}

#[test]
fn incremental_listings_fail_at_once() {
    let search = match provider(&["a", "b"]).get_assets_since_timestamp("2024-01-01T00:00:00.000Z") {
        Ok(search) => search,
        Err(e) => panic!("{e:?}"),
    };
    assert_eq!(
        search.body().get("createdAfter").and_then(Json::as_text),
        Some("2024-01-01T00:00:00.000Z")
    );
    let (result, asked) = list(search, vec![refused(500, "down")]);
    assert_eq!(asked.len(), 1);
    assert!(matches!(result, Err(ImageAnalysisError::HttpError { status: 500, .. })));
}

#[test]
fn listings_refuse_unreadable_pages() {
    let begin = || match provider(&["a"]).get_assets() {
        Ok(search) => search,
        Err(e) => panic!("{e:?}"),
    };
    let (result, _) = list(begin(), vec![page(&["00000000-0000-0000-0000-000000000001", "nonsense"], None)]);
    assert_eq!(result, Err(ImageAnalysisError::InvalidUuid { filename: "nonsense".to_owned() }));
    let (result, _) = list(begin(), vec![ApiReply::Granted(Err("bad".to_owned()))]);
    assert_eq!(
        result,
        Err(ImageAnalysisError::JsonParsing {
            filename: "assets_list".to_owned(),
            error: "bad".to_owned(),
        })
    );
}

#[test]
fn waiting_ends_with_a_pong() {
    let mut wait = match provider(&["a", "b"]).wait_until_ready(120, 5) {
        Ok(wait) => wait,
        Err(e) => panic!("{e:?}"),
    };
    assert_eq!(wait.url(), "http://immich.example:2283/api/server/ping");
    assert_eq!(wait.next_key(), Some(0));
    assert!(!wait.on_reply(PingReply::Answered { status: 502, body: Ok("pong".to_owned()) }));
    assert_eq!(wait.last_error(), "HTTP 502 Bad Gateway");
    assert!(!wait.on_reply(PingReply::Answered { status: 200, body: Ok("starting".to_owned()) }));
    assert_eq!(wait.last_error(), "unexpected response: starting");
    assert_eq!(wait.next_key(), None);
    assert_eq!(wait.end_round(119_999_999_999), Ok(5));
    assert_eq!(wait.next_key(), Some(0));
    assert!(wait.on_reply(PingReply::Answered { status: 200, body: Ok("{\"res\":\"pong\"}".to_owned()) }));
}

#[test]
fn waiting_times_out_with_the_last_error() {
    let mut wait = match provider(&["a"]).wait_until_ready(120, 5) {
        Ok(wait) => wait,
        Err(e) => panic!("{e:?}"),
    };
    assert!(!wait.on_reply(PingReply::NoResponse { error: "refused".to_owned() }));
    assert_eq!(
        wait.end_round(120_000_000_000),
        Err(ImageAnalysisError::HttpClientError {
            error: "Timed out waiting for Immich after 120s: refused".to_owned(),
        })
    );
    let mut forever = match provider(&["a"]).wait_until_ready(0, 7) {
        Ok(wait) => wait,
        Err(e) => panic!("{e:?}"),
    };
    for _ in 0..3 {
        assert!(!forever.on_reply(PingReply::NoResponse { error: "refused".to_owned() }));
        assert_eq!(forever.end_round(u128::MAX), Ok(7));
    }
    assert!(forever.on_reply(PingReply::Answered { status: 200, body: Ok("pong".to_owned()) }));
}
