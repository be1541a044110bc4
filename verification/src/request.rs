//! One analysis by an AI service, step by step: hosts are asked in turn until
//! one gives a usable answer, in as many rounds as the settings allow. The
//! caller sends the requests, waits, and hands back what came of it.
use crate::encoding;
use crate::encoding::base64_encode;
use crate::error::{ErrorView, ImageAnalysisError};
use crate::error;
use crate::host_manager::HostManager;
use crate::host_manager;
use crate::http;
use crate::http::is_success;
use crate::ids;
use crate::ids::id_text;
use crate::interface;
use crate::interface::{build_video_body, response_finish_reason, Interface};
use crate::json;
use crate::json::{parse_json, Json, JsonView};
use crate::text;
use crate::text::{decimal_text, same_text, trim_text, trim_trailing};
use vstd::prelude::*;
use vstd::string::StringExecFns;

verus! {

/// The description of an asset that a model gave.
#[derive(Debug, PartialEq, Eq)]
pub struct ImageAnalysisResult {
    pub description: String,
    pub asset_id: u128,
}

/// What came of sending a request to an AI host.
#[derive(Debug)]
pub enum ServiceReply {
    /// No answer came in time.
    TimedOut,
    /// The request failed before an answer came.
    Failed { error: String },
    /// An answer came; its body could be read or not.
    Answered { status: u16, body: Result<String, String> },
}

/// The mathematical content of a [`ServiceReply`].
pub enum ServiceReplyView {
    TimedOut,
    Failed { error: Seq<char> },
    Answered { status: u16, body: Result<Seq<char>, Seq<char>> },
}

impl View for ServiceReply {
    type V = ServiceReplyView;

    open spec fn view(&self) -> ServiceReplyView {
        match self {
            ServiceReply::TimedOut => ServiceReplyView::TimedOut,
            ServiceReply::Failed { error } => ServiceReplyView::Failed { error: error@ },
            ServiceReply::Answered { status, body } => ServiceReplyView::Answered {
                status: *status,
                body: http::text_result_view(*body),
            },
        }
    }
}

/// What a reply means for the analysis.
#[derive(Debug)]
pub enum ReplyOutcome {
    /// The analysis is over, with a description or an error.
    Finished(Result<String, ImageAnalysisError>),
    /// The next host may do better.
    TryNext(ImageAnalysisError),
}

/// The mathematical content of a [`ReplyOutcome`].
pub enum ReplyOutcomeView {
    Finished(Result<Seq<char>, ErrorView>),
    TryNext(ErrorView),
}

impl View for ReplyOutcome {
    type V = ReplyOutcomeView;

    open spec fn view(&self) -> ReplyOutcomeView {
        match self {
            ReplyOutcome::Finished(result) => ReplyOutcomeView::Finished(
                error::result_view(*result, |text: String| text@),
            ),
            ReplyOutcome::TryNext(e) => ReplyOutcomeView::TryNext(e@),
        }
    }
}

/// An error of a single host: over with it, unless another try may help.
pub open spec fn fail_or_retry(e: ErrorView) -> ReplyOutcomeView {
    if e.retryable() {
        ReplyOutcomeView::TryNext(e)
    } else {
        ReplyOutcomeView::Finished(Err(e))
    }
}

/// What a successful answer means, given what was read in it. It ends the
/// analysis in any case: an answer that is not JSON, that has no content or only
/// white space, or that was cut off at the token limit for a video, fails at once,
/// and no other host is asked.
pub open spec fn judged_answer(
    interface: Interface,
    filename: Seq<char>,
    reject_truncated: bool,
    parsed: Result<JsonView, Seq<char>>,
) -> ReplyOutcomeView {
    match parsed {
        Err(error) => fail_or_retry(ErrorView::JsonParsing { filename, error }),
        Ok(answer) => if reject_truncated && interface::finish_reason(answer) == Some("length"@) {
            ReplyOutcomeView::Finished(
                Err(
                    ErrorView::ProcessingError {
                        filename,
                        error: "AI response was truncated (finish_reason=length)"@,
                    },
                ),
            )
        } else {
            match interface::answer_content(interface, answer) {
                None => ReplyOutcomeView::Finished(
                    Err(
                        ErrorView::JsonParsing {
                            filename,
                            error: "No content field found in response"@,
                        },
                    ),
                ),
                Some(content) => if text::trimmed(content).len() == 0 {
                    ReplyOutcomeView::Finished(Err(ErrorView::EmptyResponse { filename }))
                } else {
                    ReplyOutcomeView::Finished(Ok(text::trimmed(content)))
                },
            }
        },
    }
}

/// What a reply of a host means.
pub open spec fn judged_reply(
    interface: Interface,
    filename: Seq<char>,
    reject_truncated: bool,
    reply: ServiceReplyView,
) -> ReplyOutcomeView {
    match reply {
        ServiceReplyView::TimedOut => ReplyOutcomeView::TryNext(ErrorView::AiRequestTimeout),
        ServiceReplyView::Failed { error } => ReplyOutcomeView::TryNext(
            ErrorView::HttpError { status: 0, filename, response: error },
        ),
        ServiceReplyView::Answered { status, body } => if http::success(status) {
            match body {
                Err(error) => ReplyOutcomeView::Finished(
                    Err(ErrorView::ProcessingError { filename, error }),
                ),
                Ok(t) => judged_answer(interface, filename, reject_truncated, json::json_parse(t)),
            }
        } else {
            fail_or_retry(
                ErrorView::HttpError {
                    status,
                    filename,
                    response: match body {
                        Ok(t) => t,
                        Err(_) => Seq::empty(),
                    },
                },
            )
        },
    }
}

fn fail_or_retry_exec(e: ImageAnalysisError) -> (outcome: ReplyOutcome)
    ensures
        outcome@ == fail_or_retry(e@),
{
    if e.is_retryable() {
        ReplyOutcome::TryNext(e)
    } else {
        ReplyOutcome::Finished(Err(e))
    }
}

/// Decides what a successful answer means, given what was read in it.
pub fn judge_answer(
    interface: Interface,
    filename: &str,
    reject_truncated: bool,
    parsed: Result<Json, String>,
) -> (outcome: ReplyOutcome)
    ensures
        outcome@ == judged_answer(
            interface,
            filename@,
            reject_truncated,
            json::parsed_view(parsed),
        ),
{
    let filename = filename.to_owned();
    match parsed {
        Err(error) => fail_or_retry_exec(ImageAnalysisError::JsonParsing { filename, error }),
        Ok(answer) => {
            if reject_truncated {
                let reason = response_finish_reason(&answer);
                let cut_off = match reason {
                    Some(reason) => same_text(reason, "length"),
                    None => false,
                };
                if cut_off {
                    return ReplyOutcome::Finished(
                        Err(
                            ImageAnalysisError::ProcessingError {
                                filename,
                                error: "AI response was truncated (finish_reason=length)".to_owned(),
                            },
                        ),
                    );
                }
            }
            match interface.parse_response(&answer) {
                None => ReplyOutcome::Finished(
                    Err(
                        ImageAnalysisError::JsonParsing {
                            filename,
                            error: "No content field found in response".to_owned(),
                        },
                    ),
                ),
                Some(content) => {
                    let description = trim_text(content);
                    if description.as_str().is_empty() {
                        ReplyOutcome::Finished(
                            Err(ImageAnalysisError::EmptyResponse { filename }),
                        )
                    } else {
                        ReplyOutcome::Finished(Ok(description))
                    }
                },
            }
        },
    }
}

/// Decides what a reply of a host means.
pub fn judge_reply(
    interface: Interface,
    filename: &str,
    reject_truncated: bool,
    reply: ServiceReply,
) -> (outcome: ReplyOutcome)
    ensures
        outcome@ == judged_reply(interface, filename@, reject_truncated, reply@),
{
    match reply {
        ServiceReply::TimedOut => ReplyOutcome::TryNext(ImageAnalysisError::AiRequestTimeout),
        ServiceReply::Failed { error } => ReplyOutcome::TryNext(
            ImageAnalysisError::HttpError {
                status: 0,
                filename: filename.to_owned(),
                response: error,
            },
        ),
        ServiceReply::Answered { status, body } => {
            if is_success(status) {
                match body {
                    Err(error) => ReplyOutcome::Finished(
                        Err(
                            ImageAnalysisError::ProcessingError {
                                filename: filename.to_owned(),
                                error,
                            },
                        ),
                    ),
                    Ok(answer) => judge_answer(
                        interface,
                        filename,
                        reject_truncated,
                        parse_json(answer.as_str()),
                    ),
                }
            } else {
                let response = match body {
                    Ok(answer) => answer,
                    Err(_) => String::new(),
                };
                fail_or_retry_exec(
                    ImageAnalysisError::HttpError {
                        status,
                        filename: filename.to_owned(),
                        response,
                    },
                )
            }
        },
    }
}


/// What to do next in an analysis.
#[derive(Debug)]
pub enum RequestAction {
    /// Post the body to `url`, a URL of `host`, and wait for the answer.
    Send { host: String, url: String, authorization: Option<String>, timeout_secs: u64 },
    /// Wait before the next round over the hosts.
    Sleep { delay: u128 },
    /// The analysis is over.
    Done(Result<ImageAnalysisResult, ImageAnalysisError>),
}

/// The content of the result of an analysis: the description and the asset.
pub open spec fn analysis_view(result: Result<ImageAnalysisResult, ImageAnalysisError>) -> Result<
    (Seq<char>, u128),
    ErrorView,
> {
    error::result_view(result, |r: ImageAnalysisResult| (r.description@, r.asset_id))
}

/// An analysis under way: what is sent, the round, how many hosts were asked in
/// it, and the last error.
#[derive(Debug)]
pub struct AnalysisRequest {
    asset_id: u128,
    filename: String,
    body: Json,
    reject_truncated: bool,
    attempt: u32,
    tried: usize,
    last_error: Option<ImageAnalysisError>,
}

/// The mathematical content of an [`AnalysisRequest`].
pub struct AnalysisRequestView {
    pub asset_id: u128,
    pub body: JsonView,
    pub reject_truncated: bool,
    pub attempt: u32,
    pub tried: usize,
    pub last_error: Option<ErrorView>,
}

impl View for AnalysisRequest {
    type V = AnalysisRequestView;

    closed spec fn view(&self) -> AnalysisRequestView {
        AnalysisRequestView {
            asset_id: self.asset_id,
            body: self.body@,
            reject_truncated: self.reject_truncated,
            attempt: self.attempt,
            tried: self.tried,
            last_error: error::error_option_view(self.last_error),
        }
    }
}

/// An analysis that has not asked any host yet.
pub open spec fn fresh_request(
    asset_id: u128,
    body: JsonView,
    reject_truncated: bool,
) -> AnalysisRequestView {
    AnalysisRequestView {
        asset_id,
        body,
        reject_truncated,
        attempt: 1,
        tried: 0,
        last_error: None,
    }
}

/// What the end of a round over the hosts leads to.
pub enum RoundEnd {
    /// The analysis failed.
    Over(ErrorView),
    /// Another round follows.
    Again(AnalysisRequestView),
}

impl AnalysisRequestView {
    /// The same analysis after a host has failed with `error`.
    pub open spec fn after_failure(self, error: ErrorView) -> AnalysisRequestView {
        AnalysisRequestView {
            tried: (self.tried + 1) as usize,
            last_error: Some(error),
            ..self
        }
    }

    /// What the end of a round leads to: an error that is not worth another try
    /// ends the analysis; otherwise another round follows while the limit allows it.
    pub open spec fn round_end(self, limit: Option<u32>) -> RoundEnd {
        let next = AnalysisRequestView {
            attempt: if self.attempt == u32::MAX {
                u32::MAX
            } else {
                (self.attempt + 1) as u32
            },
            tried: 0,
            ..self
        };
        match self.last_error {
            Some(e) => if !e.retryable() {
                RoundEnd::Over(e)
            } else if limit is None || self.attempt < limit->0 {
                RoundEnd::Again(next)
            } else {
                RoundEnd::Over(e)
            },
            None => if limit is None || self.attempt < limit->0 {
                RoundEnd::Again(next)
            } else {
                RoundEnd::Over(ErrorView::AllHostsUnavailable)
            },
        }
    }
}

/// The URL that an analysis is posted to on `host`.
pub open spec fn request_url(interface: Interface, host: Seq<char>) -> Seq<char> {
    text::without_trailing(host, '/') + interface::endpoint_path(interface)
}

impl AnalysisRequest {
    /// The file name is the identifier of the asset.
    pub closed spec fn wf(&self) -> bool {
        self.filename@ == ids::hyphenated(self.asset_id)
    }

    /// An analysis that has not asked any host yet.
    pub fn new(asset_id: u128, body: Json, reject_truncated: bool) -> (request: AnalysisRequest)
        ensures
            request.wf(),
            request@ == fresh_request(asset_id, body@, reject_truncated),
    {
        AnalysisRequest {
            asset_id,
            filename: id_text(asset_id),
            body,
            reject_truncated,
            attempt: 1,
            tried: 0,
            last_error: None,
        }
    }

    /// The JSON to post.
    pub fn body(&self) -> (body: &Json)
        ensures
            body@ == self@.body,
    {
        &self.body
    }

    /// Ends a round over the hosts: the error of the analysis, or `None` if
    /// another round follows.
    fn end_round(&mut self, limit: Option<u32>) -> (error: Option<ImageAnalysisError>)
        requires
            old(self).wf(),
        ensures
            final(self).wf(),
            match old(self)@.round_end(limit) {
                RoundEnd::Over(e) => error is Some && error->0@ == e && final(self)@ == old(self)@,
                RoundEnd::Again(next) => error is None && final(self)@ == next,
            },
    {
        let hopeless = match &self.last_error {
            Some(e) => !e.is_retryable(),
            None => false,
        };
        let again = match limit {
            None => true,
            Some(limit) => self.attempt < limit,
        };
        if hopeless || !again {
            return match &self.last_error {
                Some(e) => Some(e.duplicate()),
                None => Some(ImageAnalysisError::AllHostsUnavailable),
            };
        }
        self.attempt = self.attempt.saturating_add(1);
        self.tried = 0;
        None
    }
}

impl HostManager {
    /// Decides the next step of an analysis at the moment `now`: to ask a host
    /// while the round has hosts left to ask, and otherwise what the end of the
    /// round leads to.
    pub fn next_action(&mut self, request: &mut AnalysisRequest, now: u128) -> (action:
        RequestAction)
        requires
            old(self).wf(),
            old(request).wf(),
        ensures
            final(self).wf(),
            final(request).wf(),
            old(request)@.tried < old(self)@.hosts.len() ==> {
                &&& final(request)@ == old(request)@
                &&& final(self)@ == old(self)@.with_unavailable(old(self)@.recent(now))
                &&& action matches RequestAction::Send { host, url, authorization, timeout_secs }
                &&& host_manager::host_to_ask(old(self)@.hosts, old(self)@.recent(now), host@)
                &&& url@ == request_url(old(self)@.interface, host@)
                &&& text::option_view(authorization) == old(self)@.authorization()
                &&& timeout_secs == old(self)@.answer_timeout()
            },
            old(request)@.tried >= old(self)@.hosts.len() ==> {
                &&& final(self)@ == old(self)@
                &&& match old(request)@.round_end(old(self)@.max_retries) {
                    RoundEnd::Over(e) => {
                        &&& final(request)@ == old(request)@
                        &&& action matches RequestAction::Done(result)
                        &&& analysis_view(result) == Err::<(Seq<char>, u128), ErrorView>(e)
                    },
                    RoundEnd::Again(next) => {
                        &&& final(request)@ == next
                        &&& action == (RequestAction::Sleep { delay: old(self)@.retry_delay })
                    },
                }
            },
    {
        if request.tried < self.host_count() {
            match self.get_available_host(now) {
                Ok(host) => {
                    let interface = self.interface();
                    let mut url = trim_trailing(host.as_str(), '/');
                    url.append(interface.endpoint());
                    let authorization = self.authorization();
                    let timeout_secs: u64 = self.answer_timeout();
                    RequestAction::Send { host, url, authorization, timeout_secs }
                },
                Err(e) => RequestAction::Done(Err(e)),
            }
        } else {
            let limit = self.max_retries();
            match request.end_round(limit) {
                Some(e) => RequestAction::Done(Err(e)),
                None => RequestAction::Sleep { delay: self.retry_delay() },
            }
        }
    }

    /// Takes the reply of a host, which came at the moment `now`: the result of
    /// the analysis if the reply decides it. Otherwise the host is marked
    /// unavailable, and the analysis goes on.
    pub fn on_reply(
        &mut self,
        request: &mut AnalysisRequest,
        host: &str,
        reply: ServiceReply,
        now: u128,
    ) -> (result: Option<Result<ImageAnalysisResult, ImageAnalysisError>>)
        requires
            old(self).wf(),
            old(request).wf(),
            old(request)@.tried < old(self)@.hosts.len(),
        ensures
            final(self).wf(),
            final(request).wf(),
            match old(request)@.judged(old(self)@.interface, reply@) {
                ReplyOutcomeView::Finished(Ok(description)) => {
                    &&& result is Some
                    &&& analysis_view(result->0) == Ok::<(Seq<char>, u128), ErrorView>(
                        (description, old(request)@.asset_id),
                    )
                    &&& final(self)@ == old(self)@
                    &&& final(request)@ == old(request)@
                },
                ReplyOutcomeView::Finished(Err(e)) => {
                    &&& result is Some
                    &&& analysis_view(result->0) == Err::<(Seq<char>, u128), ErrorView>(e)
                    &&& final(self)@ == old(self)@
                    &&& final(request)@ == old(request)@
                },
                ReplyOutcomeView::TryNext(e) => {
                    &&& result is None
                    &&& final(self)@ == old(self)@.with_unavailable(
                        old(self)@.unavailable.insert(host@, now),
                    )
                    &&& final(request)@ == old(request)@.after_failure(e)
                },
            },
    {
        proof {
            self.lemma_host_count();
        }
        match judge_reply(
            self.interface(),
            request.filename.as_str(),
            request.reject_truncated,
            reply,
        ) {
            ReplyOutcome::Finished(Ok(description)) => Some(
                Ok(ImageAnalysisResult { description, asset_id: request.asset_id }),
            ),
            ReplyOutcome::Finished(Err(e)) => Some(Err(e)),
            ReplyOutcome::TryNext(e) => {
                self.mark_host_unavailable(host, now);
                request.tried = request.tried + 1;
                request.last_error = Some(e);
                None
            },
        }
    }
}

impl AnalysisRequestView {
    /// What a reply means for the analysis.
    pub open spec fn judged(self, interface: Interface, reply: ServiceReplyView) -> ReplyOutcomeView {
        judged_reply(interface, ids::hyphenated(self.asset_id), self.reject_truncated, reply)
    }
}

/// The largest video clip that is sent, in bytes.
pub const MAX_VIDEO_CLIP_BYTES: u64 = 16777216;

/// What is wrong with a video clip of `size` bytes, if anything.
pub open spec fn clip_error(filename: Seq<char>, size: u64) -> Option<ErrorView> {
    if size == 0 {
        Some(ErrorView::EmptyFile { filename })
    } else if size > MAX_VIDEO_CLIP_BYTES {
        Some(
            ErrorView::ProcessingError {
                filename,
                error: "Video clip is "@ + text::decimal(size as nat)
                    + " bytes, which exceeds the 16777216-byte limit"@,
            },
        )
    } else {
        None
    }
}

/// Checks that a video clip of `size` bytes can be sent: it is neither empty nor
/// larger than [`MAX_VIDEO_CLIP_BYTES`].
pub fn check_clip_size(asset_id: u128, size: u64) -> (checked: Result<(), ImageAnalysisError>)
    ensures
        match clip_error(ids::hyphenated(asset_id), size) {
            Some(e) => checked is Err && checked->Err_0@ == e,
            None => checked is Ok,
        },
{
    if size == 0 {
        return Err(ImageAnalysisError::EmptyFile { filename: id_text(asset_id) });
    }
    if size > MAX_VIDEO_CLIP_BYTES {
        let mut error = "Video clip is ".to_owned();
        error.append(decimal_text(size).as_str());
        error.append(" bytes, which exceeds the 16777216-byte limit");
        return Err(ImageAnalysisError::ProcessingError { filename: id_text(asset_id), error });
    }
    Ok(())
}

impl HostManager {
    /// Starts the analysis of an image, given by the bytes of its file.
    pub fn analyze_image(&self, asset_id: u128, image: &[u8], prompt: &str) -> (request:
        AnalysisRequest)
        requires
            encoding::base64_len(image@.len()) <= isize::MAX,
        ensures
            request.wf(),
            request@ == fresh_request(
                asset_id,
                interface::image_body(
                    self@.interface,
                    self@.model_name,
                    prompt@,
                    encoding::base64(image@),
                ),
                false,
            ),
    {
        let base64_image = base64_encode(image);
        let body = self.interface().build_request_body(
            self.model_name(),
            prompt,
            base64_image.as_str(),
        );
        AnalysisRequest::new(asset_id, body, false)
    }

    /// Starts the analysis of a video clip, given by the bytes of its file. An
    /// answer that is cut off will be refused.
    pub fn analyze_video_chunk(
        &self,
        asset_id: u128,
        clip_bytes: &[u8],
        prompt: &str,
        has_audio: bool,
    ) -> (request: Result<AnalysisRequest, ImageAnalysisError>)
        ensures
            match clip_error(ids::hyphenated(asset_id), clip_bytes@.len() as u64) {
                Some(e) => request is Err && request->Err_0@ == e,
                None => request is Ok && request->Ok_0.wf() && request->Ok_0@ == fresh_request(
                    asset_id,
                    interface::video_body(
                        self@.model_name,
                        prompt@,
                        encoding::base64(clip_bytes@),
                        has_audio,
                    ),
                    true,
                ),
            },
    {
        let size: u64 = clip_bytes.len() as u64;
        match check_clip_size(asset_id, size) {
            Err(e) => Err(e),
            Ok(()) => {
                let base64_clip = base64_encode(clip_bytes);
                let body = build_video_body(
                    self.model_name(),
                    prompt,
                    base64_clip.as_str(),
                    has_audio,
                );
                Ok(AnalysisRequest::new(asset_id, body, true))
            },
        }
    }
}

} // verus!
