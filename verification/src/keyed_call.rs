//! Requests about one asset, made with one API key after the other until a key
//! settles the matter.
use crate::error;
use crate::error::{ErrorView, ImageAnalysisError};
use crate::http;
use crate::ids;
use crate::ids::id_text;
use crate::immich_api;
use crate::immich_api::{AssetMetadata, AssetResponse, ImmichApiProvider};
use crate::json;
use crate::json::{Json, JsonView, MemberView};
use crate::text;
use crate::text::contains_text;
use vstd::prelude::*;
use vstd::string::StringExecFns;

verus! {

/// What came of a request that was made with one key. `T` is what was made of
/// the answer when its status reports success.
#[derive(Debug)]
pub enum ApiReply<T> {
    /// No answer came.
    NoResponse { error: String },
    /// The server refused; the body of the answer could be read or not.
    Refused { status: u16, body: Result<String, String> },
    /// The server did as asked.
    Granted(T),
}

/// What a reply means: the matter is settled, or the next key may do better.
#[derive(Debug)]
pub enum Verdict<T> {
    Settled(Result<T, ImageAnalysisError>),
    NextKey(ImageAnalysisError),
}

/// The mathematical content of a [`Verdict`].
pub enum VerdictView<T> {
    Settled(Result<T, ErrorView>),
    NextKey(ErrorView),
}

/// The content of a verdict.
pub open spec fn verdict_view<T>(verdict: Verdict<T>) -> VerdictView<T> {
    match verdict {
        Verdict::Settled(Ok(value)) => VerdictView::Settled(Ok(value)),
        Verdict::Settled(Err(e)) => VerdictView::Settled(Err(e@)),
        Verdict::NextKey(e) => VerdictView::NextKey(e@),
    }
}

/// The body of a refusal, or nothing if it could not be read.
pub open spec fn refusal_text(body: Result<String, String>) -> Seq<char> {
    match body {
        Ok(t) => t@,
        Err(_) => Seq::empty(),
    }
}

/// The error of a reply that did not grant the request.
pub open spec fn refusal<T>(filename: Seq<char>, reply: ApiReply<T>) -> Option<ErrorView> {
    match reply {
        ApiReply::NoResponse { error } => Some(
            ErrorView::HttpError { status: 0, filename, response: error@ },
        ),
        ApiReply::Refused { status, body } => Some(
            ErrorView::HttpError { status, filename, response: refusal_text(body) },
        ),
        ApiReply::Granted(_) => None,
    }
}

/// Splits a reply into what was granted and the error of what was not.
pub fn granted<T>(filename: &str, reply: ApiReply<T>) -> (outcome: Result<T, ImageAnalysisError>)
    ensures
        match refusal(filename@, reply) {
            Some(e) => outcome is Err && outcome->Err_0@ == e,
            None => reply == ApiReply::Granted(outcome->Ok_0) && outcome is Ok,
        },
{
    match reply {
        ApiReply::NoResponse { error } => Err(
            ImageAnalysisError::HttpError {
                status: 0,
                filename: filename.to_owned(),
                response: error,
            },
        ),
        ApiReply::Refused { status, body } => {
            let response = match body {
                Ok(t) => t,
                Err(_) => String::new(),
            };
            Err(ImageAnalysisError::HttpError { status, filename: filename.to_owned(), response })
        },
        ApiReply::Granted(value) => Ok(value),
    }
}

/// A request about one asset, and how many keys have been tried with it.
#[derive(Debug)]
pub struct KeyedCall {
    filename: String,
    url: String,
    keys: usize,
    tried: usize,
    last_error: Option<ImageAnalysisError>,
}

/// The mathematical content of a [`KeyedCall`].
pub struct KeyedCallView {
    pub filename: Seq<char>,
    pub url: Seq<char>,
    pub keys: usize,
    pub tried: usize,
    pub last_error: Option<ErrorView>,
}

impl View for KeyedCall {
    type V = KeyedCallView;

    closed spec fn view(&self) -> KeyedCallView {
        KeyedCallView {
            filename: self.filename@,
            url: self.url@,
            keys: self.keys,
            tried: self.tried,
            last_error: error::error_option_view(self.last_error),
        }
    }
}

impl KeyedCallView {
    /// The same call after a key has failed.
    pub open spec fn after_failure(self, e: ErrorView) -> KeyedCallView {
        KeyedCallView { tried: (self.tried + 1) as usize, last_error: Some(e), ..self }
    }

    /// The error of the call when every key has failed.
    pub open spec fn failure(self) -> ErrorView {
        match self.last_error {
            Some(e) => e,
            None => ErrorView::HttpError {
                status: 0,
                filename: self.filename,
                response: "No API keys available"@,
            },
        }
    }
}

/// A call that has not tried any key yet.
pub open spec fn fresh_call(asset_id: u128, url: Seq<char>, keys: usize) -> KeyedCallView {
    KeyedCallView { filename: ids::hyphenated(asset_id), url, keys, tried: 0, last_error: None }
}

/// The call that is begun on an endpoint of an asset, or why it cannot be.
pub open spec fn begun(
    asset_id: u128,
    keys: usize,
    joined: Result<Seq<char>, Seq<char>>,
) -> Result<KeyedCallView, ErrorView> {
    match immich_api::configured(joined) {
        Ok(url) => Ok(fresh_call(asset_id, url, keys)),
        Err(e) => Err(e),
    }
}

/// The content of a result of beginning a call.
pub open spec fn call_result_view(call: Result<KeyedCall, ImageAnalysisError>) -> Result<
    KeyedCallView,
    ErrorView,
> {
    error::result_view(call, |c: KeyedCall| c@)
}

impl KeyedCall {
    /// The key to try next, or `None` when every key has failed.
    pub fn next_key(&self) -> (key: Option<usize>)
        ensures
            key == if self@.tried < self@.keys {
                Some(self@.tried)
            } else {
                None::<usize>
            },
    {
        if self.tried < self.keys {
            Some(self.tried)
        } else {
            None
        }
    }

    /// The URL to ask.
    pub fn url(&self) -> (url: &str)
        ensures
            url@ == self@.url,
    {
        self.url.as_str()
    }

    /// The asset that the call is about, as errors name it.
    pub fn filename(&self) -> (filename: &str)
        ensures
            filename@ == self@.filename,
    {
        self.filename.as_str()
    }

    /// Takes what the reply to the key's request means: the result of the call
    /// if the matter is settled, or `None` if the next key is to be tried.
    pub fn on_verdict<T>(&mut self, verdict: Verdict<T>) -> (result: Option<
        Result<T, ImageAnalysisError>,
    >)
        requires
            old(self)@.tried < old(self)@.keys,
        ensures
            match verdict {
                Verdict::Settled(r) => result == Some(r) && final(self)@ == old(self)@,
                Verdict::NextKey(e) => result is None && final(self)@ == old(self)@.after_failure(
                    e@,
                ),
            },
    {
        match verdict {
            Verdict::Settled(r) => Some(r),
            Verdict::NextKey(e) => {
                self.tried = self.tried + 1;
                self.last_error = Some(e);
                None
            },
        }
    }

    /// Concludes a call: when no key has settled it, it fails.
    pub fn conclude<T>(&self, settled: Option<Result<T, ImageAnalysisError>>) -> (result: Result<
        T,
        ImageAnalysisError,
    >)
        ensures
            match settled {
                Some(r) => result == r,
                None => result is Err && result->Err_0@ == self@.failure(),
            },
    {
        match settled {
            Some(r) => r,
            None => Err(self.failure()),
        }
    }

    /// The error of the call when every key has failed: that of the last key.
    fn failure(&self) -> (e: ImageAnalysisError)
        ensures
            e@ == self@.failure(),
    {
        match &self.last_error {
            Some(e) => e.duplicate(),
            None => ImageAnalysisError::HttpError {
                status: 0,
                filename: self.filename.clone(),
                response: "No API keys available".to_owned(),
            },
        }
    }
}

/// The path of an asset.
pub open spec fn asset_path(asset_id: u128) -> Seq<char> {
    "/api/assets/"@ + ids::hyphenated(asset_id)
}

/// The JSON that replaces the description of an asset.
pub open spec fn description_body(description: Seq<char>) -> JsonView {
    json::object().with("description"@, JsonView::Text(description))
}

/// The name of the file that keeps the preview image of an asset.
pub open spec fn preview_name(asset_id: u128) -> Seq<char> {
    ids::hyphenated(asset_id) + "_preview.tmp"@
}

/// An asset has a description that is not empty.
pub open spec fn described(asset: AssetResponse) -> bool {
    &&& asset.exif_info is Some
    &&& asset.exif_info->0.description is Some
    &&& asset.exif_info->0.description->0@.len() > 0
}

/// A refusal that says that there is no such asset: a 400 or 404 with the
/// message "Not found".
pub open spec fn says_missing<T>(reply: ApiReply<T>) -> bool {
    &&& reply matches ApiReply::Refused { status, body }
    &&& status == 404 || status == 400
    &&& body is Ok
    &&& text::occurs("Not found"@, body->Ok_0@)
}

impl ImmichApiProvider {
    fn begin(&self, asset_id: u128, suffix: &str) -> (call: Result<KeyedCall, ImageAnalysisError>)
        ensures
            call_result_view(call) == begun(
                asset_id,
                self@.api_keys.len() as usize,
                http::url_join(self@.base_url, asset_path(asset_id) + suffix@),
            ),
    {
        let filename = id_text(asset_id);
        let mut reference = "/api/assets/".to_owned();
        reference.append(filename.as_str());
        reference.append(suffix);
        let keys: usize = self.key_count();
        match self.endpoint(reference.as_str()) {
            Ok(url) => Ok(KeyedCall { filename, url, keys, tried: 0, last_error: None }),
            Err(e) => Err(e),
        }
    }

    fn begin_on_asset(&self, asset_id: u128) -> (call: Result<KeyedCall, ImageAnalysisError>)
        ensures
            call_result_view(call) == begun(
                asset_id,
                self@.api_keys.len() as usize,
                http::url_join(self@.base_url, asset_path(asset_id)),
            ),
    {
        proof {
            reveal_strlit("");
            assert(asset_path(asset_id) + ""@ =~= asset_path(asset_id));
        }
        self.begin(asset_id, "")
    }

    /// Begins to fetch the preview image of an asset, which the caller saves in
    /// a temporary file. Tries all API keys until one succeeds.
    pub fn get_preview_path(&self, asset_id: u128) -> (call: Result<KeyedCall, ImageAnalysisError>)
        ensures
            call_result_view(call) == begun(
                asset_id,
                self@.api_keys.len() as usize,
                http::url_join(
                    self@.base_url,
                    asset_path(asset_id) + "/thumbnail?size=preview"@,
                ),
            ),
    {
        self.begin(asset_id, "/thumbnail?size=preview")
    }

    /// Begins to update the description of an asset; with the call comes the
    /// JSON to send. Tries all API keys until one succeeds.
    pub fn update_description(&self, asset_id: u128, description: &str) -> (call: Result<
        (KeyedCall, Json),
        ImageAnalysisError,
    >)
        ensures
            error::result_view(call, |c: (KeyedCall, Json)| c.0@) == begun(
                asset_id,
                self@.api_keys.len() as usize,
                http::url_join(self@.base_url, asset_path(asset_id)),
            ),
            call matches Ok(c) ==> c.1@ == description_body(description@),
    {
        match self.begin_on_asset(asset_id) {
            Ok(call) => {
                let body = Json::object().with("description", Json::text(description));
                Ok((call, body))
            },
            Err(e) => Err(e),
        }
    }

    /// Begins to check whether an asset already has a description.
    /// Tries all API keys until one succeeds.
    pub fn has_description(&self, asset_id: u128) -> (call: Result<KeyedCall, ImageAnalysisError>)
        ensures
            call_result_view(call) == begun(
                asset_id,
                self@.api_keys.len() as usize,
                http::url_join(self@.base_url, asset_path(asset_id)),
            ),
    {
        self.begin_on_asset(asset_id)
    }

    /// Begins to check whether an asset exists.
    /// Tries all API keys until one settles the matter.
    pub fn asset_exists(&self, asset_id: u128) -> (call: Result<KeyedCall, ImageAnalysisError>)
        ensures
            call_result_view(call) == begun(
                asset_id,
                self@.api_keys.len() as usize,
                http::url_join(self@.base_url, asset_path(asset_id)),
            ),
    {
        self.begin_on_asset(asset_id)
    }

    /// Begins to get full metadata for an asset including EXIF information.
    pub fn get_asset_metadata(&self, asset_id: u128) -> (call: Result<
        KeyedCall,
        ImageAnalysisError,
    >)
        ensures
            call_result_view(call) == begun(
                asset_id,
                self@.api_keys.len() as usize,
                http::url_join(self@.base_url, asset_path(asset_id)),
            ),
    {
        self.begin_on_asset(asset_id)
    }
}

/// The name of the file that keeps the preview image of an asset.
pub fn preview_file_name(asset_id: u128) -> (name: String)
    ensures
        name@ == preview_name(asset_id),
{
    let mut name = id_text(asset_id);
    name.append("_preview.tmp");
    name
}

/// What became of a preview image that the server sent.
#[derive(Debug)]
pub enum PreviewOutcome {
    /// The image could not be received.
    Unreadable { error: String },
    /// The image could not be written to the file.
    Unwritten { error: String },
    Saved,
}

/// What a reply to the request for a preview image means.
pub open spec fn judged_preview(filename: Seq<char>, reply: ApiReply<PreviewOutcome>) -> VerdictView<
    (),
> {
    match reply {
        ApiReply::Granted(PreviewOutcome::Saved) => VerdictView::Settled(Ok(())),
        ApiReply::Granted(PreviewOutcome::Unreadable { error }) => VerdictView::Settled(
            Err(ErrorView::HttpError { status: 0, filename, response: error@ }),
        ),
        ApiReply::Granted(PreviewOutcome::Unwritten { error }) => VerdictView::Settled(
            Err(ErrorView::ProcessingError { filename, error: error@ }),
        ),
        _ => VerdictView::NextKey(refusal(filename, reply)->0),
    }
}

/// Judges a reply to the request for a preview image. Once an image has been
/// sent, no other key is tried.
pub fn judge_preview(filename: &str, reply: ApiReply<PreviewOutcome>) -> (verdict: Verdict<()>)
    ensures
        verdict_view(verdict) == judged_preview(filename@, reply),
        match reply {
            ApiReply::Granted(PreviewOutcome::Saved) => verdict == Verdict::Settled(Ok(())),
            ApiReply::Granted(PreviewOutcome::Unreadable { error }) => {
                &&& verdict matches Verdict::Settled(Err(e))
                &&& e@ == (ErrorView::HttpError {
                    status: 0,
                    filename: filename@,
                    response: error@,
                })
            },
            ApiReply::Granted(PreviewOutcome::Unwritten { error }) => {
                &&& verdict matches Verdict::Settled(Err(e))
                &&& e@ == (ErrorView::ProcessingError { filename: filename@, error: error@ })
            },
            _ => {
                &&& verdict matches Verdict::NextKey(e)
                &&& Some(e@) == refusal(filename@, reply)
            },
        },
{
    match granted(filename, reply) {
        Ok(PreviewOutcome::Saved) => Verdict::Settled(Ok(())),
        Ok(PreviewOutcome::Unreadable { error }) => Verdict::Settled(
            Err(
                ImageAnalysisError::HttpError {
                    status: 0,
                    filename: filename.to_owned(),
                    response: error,
                },
            ),
        ),
        Ok(PreviewOutcome::Unwritten { error }) => Verdict::Settled(
            Err(ImageAnalysisError::ProcessingError { filename: filename.to_owned(), error }),
        ),
        Err(e) => Verdict::NextKey(e),
    }
}

/// What a reply to the request to update a description means.
pub open spec fn judged_update(filename: Seq<char>, reply: ApiReply<()>) -> VerdictView<()> {
    match reply {
        ApiReply::Granted(_) => VerdictView::Settled(Ok(())),
        _ => VerdictView::NextKey(refusal(filename, reply)->0),
    }
}

/// Judges a reply to the request to update a description.
pub fn judge_update(filename: &str, reply: ApiReply<()>) -> (verdict: Verdict<()>)
    ensures
        verdict_view(verdict) == judged_update(filename@, reply),
        match reply {
            ApiReply::Granted(_) => verdict == Verdict::Settled(Ok(())),
            _ => {
                &&& verdict matches Verdict::NextKey(e)
                &&& Some(e@) == refusal(filename@, reply)
            },
        },
{
    match granted(filename, reply) {
        Ok(()) => Verdict::Settled(Ok(())),
        Err(e) => Verdict::NextKey(e),
    }
}

/// What a reply to the question whether an asset has a description means.
pub open spec fn judged_description(
    filename: Seq<char>,
    reply: ApiReply<Result<AssetResponse, String>>,
) -> VerdictView<bool> {
    match reply {
        ApiReply::Granted(Ok(asset)) => VerdictView::Settled(Ok(described(asset))),
        ApiReply::Granted(Err(error)) => VerdictView::Settled(
            Err(ErrorView::JsonParsing { filename, error: error@ }),
        ),
        _ => VerdictView::NextKey(refusal(filename, reply)->0),
    }
}

/// Judges a reply to the question whether an asset has a description: `true` if
/// description exists and is non-empty, `false` otherwise. The answer may be
/// unreadable.
pub fn judge_description(filename: &str, reply: ApiReply<Result<AssetResponse, String>>) -> (verdict:
    Verdict<bool>)
    ensures
        verdict_view(verdict) == judged_description(filename@, reply),
        match reply {
            ApiReply::Granted(Ok(asset)) => verdict == Verdict::Settled(Ok(described(asset))),
            ApiReply::Granted(Err(error)) => {
                &&& verdict matches Verdict::Settled(Err(e))
                &&& e@ == (ErrorView::JsonParsing { filename: filename@, error: error@ })
            },
            _ => {
                &&& verdict matches Verdict::NextKey(e)
                &&& Some(e@) == refusal(filename@, reply)
            },
        },
{
    match granted(filename, reply) {
        Ok(Ok(asset)) => {
            let described = match &asset.exif_info {
                Some(exif) => match &exif.description {
                    Some(description) => !description.as_str().is_empty(),
                    None => false,
                },
                None => false,
            };
            Verdict::Settled(Ok(described))
        },
        Ok(Err(error)) => Verdict::Settled(
            Err(ImageAnalysisError::JsonParsing { filename: filename.to_owned(), error }),
        ),
        Err(e) => Verdict::NextKey(e),
    }
}

/// What a reply to the request for the metadata of an asset means.
pub open spec fn judged_metadata(
    filename: Seq<char>,
    reply: ApiReply<Result<AssetMetadata, String>>,
) -> VerdictView<AssetMetadata> {
    match reply {
        ApiReply::Granted(Ok(metadata)) => VerdictView::Settled(Ok(metadata)),
        ApiReply::Granted(Err(error)) => VerdictView::Settled(
            Err(ErrorView::JsonParsing { filename, error: error@ }),
        ),
        _ => VerdictView::NextKey(refusal(filename, reply)->0),
    }
}

/// Judges a reply to the request for the metadata of an asset, which may be unreadable.
pub fn judge_metadata(filename: &str, reply: ApiReply<Result<AssetMetadata, String>>) -> (verdict:
    Verdict<AssetMetadata>)
    ensures
        verdict_view(verdict) == judged_metadata(filename@, reply),
        match reply {
            ApiReply::Granted(Ok(metadata)) => verdict == Verdict::Settled(Ok(metadata)),
            ApiReply::Granted(Err(error)) => {
                &&& verdict matches Verdict::Settled(Err(e))
                &&& e@ == (ErrorView::JsonParsing { filename: filename@, error: error@ })
            },
            _ => {
                &&& verdict matches Verdict::NextKey(e)
                &&& Some(e@) == refusal(filename@, reply)
            },
        },
{
    match granted(filename, reply) {
        Ok(Ok(metadata)) => Verdict::Settled(Ok(metadata)),
        Ok(Err(error)) => Verdict::Settled(
            Err(ImageAnalysisError::JsonParsing { filename: filename.to_owned(), error }),
        ),
        Err(e) => Verdict::NextKey(e),
    }
}

/// What a reply to the question whether an asset exists means.
pub open spec fn judged_existence(filename: Seq<char>, reply: ApiReply<()>) -> VerdictView<bool> {
    match reply {
        ApiReply::Granted(_) => VerdictView::Settled(Ok(true)),
        _ => if says_missing(reply) {
            VerdictView::Settled(Ok(false))
        } else {
            VerdictView::NextKey(refusal(filename, reply)->0)
        },
    }
}

/// Judges a reply to the question whether an asset exists: `true` if the asset
/// exists, `false` if the server says that it does not. Any other refusal leaves
/// it to the next key.
pub fn judge_existence(filename: &str, reply: ApiReply<()>) -> (verdict: Verdict<bool>)
    ensures
        verdict_view(verdict) == judged_existence(filename@, reply),
        match reply {
            ApiReply::Granted(_) => verdict == Verdict::Settled(Ok(true)),
            _ => if says_missing(reply) {
                verdict == Verdict::Settled(Ok(false))
            } else {
                verdict matches Verdict::NextKey(e) && Some(e@) == refusal(filename@, reply)
            },
        },
{
    let missing = match &reply {
        ApiReply::Refused { status, body } => {
            if *status == 404 || *status == 400 {
                match body {
                    Ok(t) => contains_text(t.as_str(), "Not found"),
                    Err(_) => false,
                }
            } else {
                false
            }
        },
        _ => false,
    };
    if missing {
        return Verdict::Settled(Ok(false));
    }
    match granted(filename, reply) {
        Ok(()) => Verdict::Settled(Ok(true)),
        Err(e) => Verdict::NextKey(e),
    }
}

/// Concludes the question whether an asset exists. When no key has settled it,
/// the asset is taken to exist, so that no valid asset is passed over.
pub fn conclude_existence(settled: Option<Result<bool, ImageAnalysisError>>) -> (result: Result<
    bool,
    ImageAnalysisError,
>)
    ensures
        result == match settled {
            Some(r) => r,
            None => Ok(true),
        },
{
    match settled {
        Some(r) => r,
        None => Ok(true),
    }
}

/// What a series of verdicts, one for each key in order, leads to: the call as
/// it then stands, and the result if a key has settled the matter.
pub open spec fn swept<T>(call: KeyedCallView, verdicts: Seq<Verdict<T>>) -> (
    KeyedCallView,
    Option<Result<T, ImageAnalysisError>>,
)
    decreases verdicts.len(),
{
    if verdicts.len() == 0 || call.tried >= call.keys {
        (call, None)
    } else {
        match verdicts[0] {
            Verdict::Settled(r) => (call, Some(r)),
            Verdict::NextKey(e) => swept(call.after_failure(e@), verdicts.drop_first()),
        }
    }
}

/// The first key that settles the matter decides, and the keys after it are not tried.
pub proof fn law_first_settling_key_decides<T>(
    call: KeyedCallView,
    verdicts: Seq<Verdict<T>>,
    k: int,
)
    requires
        0 <= k < verdicts.len(),
        call.tried + k < call.keys,
        forall|j: int| 0 <= j < k ==> (#[trigger] verdicts[j]) is NextKey,
        verdicts[k] is Settled,
    ensures
        swept(call, verdicts).1 == Some(verdicts[k]->Settled_0),
        swept(call, verdicts).0.tried == call.tried + k,
    decreases k,
{
    if k > 0 {
        assert(verdicts[0] is NextKey);
        let rest = verdicts.drop_first();
        assert forall|j: int| 0 <= j < k - 1 implies (#[trigger] rest[j]) is NextKey by {
            assert(rest[j] == verdicts[j + 1]);
        }
        law_first_settling_key_decides(
            call.after_failure(verdicts[0]->NextKey_0@),
            rest,
            k - 1,
        );
    }
}

/// When every key fails, the call fails with the error of the last key.
pub proof fn law_last_error_is_reported<T>(call: KeyedCallView, verdicts: Seq<Verdict<T>>)
    requires
        verdicts.len() > 0,
        call.tried + verdicts.len() == call.keys,
        forall|j: int| 0 <= j < verdicts.len() ==> (#[trigger] verdicts[j]) is NextKey,
    ensures
        swept(call, verdicts).1 is None,
        swept(call, verdicts).0.tried == call.keys,
        swept(call, verdicts).0.failure() == verdicts.last()->NextKey_0@,
    decreases verdicts.len(),
{
    assert(verdicts[0] is NextKey);
    let next = call.after_failure(verdicts[0]->NextKey_0@);
    let rest = verdicts.drop_first();
    if verdicts.len() > 1 {
        assert forall|j: int| 0 <= j < rest.len() implies (#[trigger] rest[j]) is NextKey by {
            assert(rest[j] == verdicts[j + 1]);
        }
        assert(rest.last() == verdicts.last());
        law_last_error_is_reported(next, rest);
    } else {
        assert(swept(next, rest) == (next, None::<Result<T, ImageAnalysisError>>));
    }
}

/// A refusal, whatever its status, and a request without an answer leave the
/// matter to the next key: no preview, update, description or metadata is given up
/// for them. The error tells the status and the body.
pub proof fn law_refusals_leave_it_to_the_next_key(
    filename: Seq<char>,
    status: u16,
    body: Result<String, String>,
    error: String,
)
    ensures
        ({
            let refused = ErrorView::HttpError {
                status,
                filename,
                response: match body {
                    Ok(t) => t@,
                    Err(_) => Seq::empty(),
                },
            };
            &&& judged_preview(filename, ApiReply::Refused { status, body })
                == VerdictView::<()>::NextKey(refused)
            &&& judged_update(filename, ApiReply::Refused { status, body })
                == VerdictView::<()>::NextKey(refused)
            &&& judged_description(filename, ApiReply::Refused { status, body })
                == VerdictView::<bool>::NextKey(refused)
            &&& judged_metadata(filename, ApiReply::Refused { status, body })
                == VerdictView::<AssetMetadata>::NextKey(refused)
        }),
        ({
            let silent = ErrorView::HttpError { status: 0, filename, response: error@ };
            &&& judged_preview(filename, ApiReply::NoResponse { error }) == VerdictView::<()>::NextKey(
                silent,
            )
            &&& judged_update(filename, ApiReply::NoResponse { error }) == VerdictView::<()>::NextKey(
                silent,
            )
            &&& judged_description(filename, ApiReply::NoResponse { error })
                == VerdictView::<bool>::NextKey(silent)
            &&& judged_metadata(filename, ApiReply::NoResponse { error })
                == VerdictView::<AssetMetadata>::NextKey(silent)
            &&& judged_existence(filename, ApiReply::NoResponse { error })
                == VerdictView::<bool>::NextKey(silent)
        }),
{
}

/// What was granted settles the matter: an update has succeeded, metadata are
/// handed on as they are, and what cannot be read or saved is an error that no
/// other key can mend.
pub proof fn law_granted_requests_are_settled(
    filename: Seq<char>,
    metadata: AssetMetadata,
    error: String,
)
    ensures
        judged_update(filename, ApiReply::Granted(())) == VerdictView::<()>::Settled(Ok(())),
        judged_preview(filename, ApiReply::Granted(PreviewOutcome::Saved)) == VerdictView::<()>::Settled(
            Ok(()),
        ),
        judged_preview(filename, ApiReply::Granted(PreviewOutcome::Unreadable { error }))
            == VerdictView::<()>::Settled(
            Err(ErrorView::HttpError { status: 0, filename, response: error@ }),
        ),
        judged_preview(filename, ApiReply::Granted(PreviewOutcome::Unwritten { error }))
            == VerdictView::<()>::Settled(Err(ErrorView::ProcessingError { filename, error: error@ })),
        judged_metadata(filename, ApiReply::Granted(Ok(metadata))) == VerdictView::<AssetMetadata>::Settled(
            Ok(metadata),
        ),
        judged_metadata(filename, ApiReply::Granted(Err(error))) == VerdictView::<AssetMetadata>::Settled(
            Err(ErrorView::JsonParsing { filename, error: error@ }),
        ),
        judged_description(filename, ApiReply::Granted(Err(error))) == VerdictView::<bool>::Settled(
            Err(ErrorView::JsonParsing { filename, error: error@ }),
        ),
{
}

/// An asset has a description exactly if its EXIF data have one that is not empty.
pub proof fn law_descriptions_count_when_not_empty(filename: Seq<char>, asset: AssetResponse)
    ensures
        judged_description(filename, ApiReply::Granted(Ok(asset))) == VerdictView::<bool>::Settled(
            Ok(
                match asset.exif_info {
                    Some(exif) => match exif.description {
                        Some(description) => description@ != Seq::<char>::empty(),
                        None => false,
                    },
                    None => false,
                },
            ),
        ),
{
    if let Some(exif) = asset.exif_info {
        if let Some(description) = exif.description {
            if description@.len() == 0 {
                assert(description@ =~= Seq::<char>::empty());
            }
        }
    }
}

/// An asset exists if the server grants the request for it, and does not if the
/// server answers 400 or 404 with the message "Not found". Any other refusal
/// settles nothing.
pub proof fn law_existence_is_told(
    filename: Seq<char>,
    status: u16,
    a: Seq<char>,
    b: Seq<char>,
    text: String,
    error: String,
)
    ensures
        judged_existence(filename, ApiReply::Granted(())) == VerdictView::<bool>::Settled(Ok(true)),
        (status == 400 || status == 404) && text@ == a + "Not found"@ + b ==> judged_existence(
            filename,
            ApiReply::Refused { status, body: Ok(text) },
        ) == VerdictView::<bool>::Settled(Ok(false)),
        (status != 400 && status != 404) || !text::occurs("Not found"@, text@)
            ==> judged_existence(filename, ApiReply::Refused { status, body: Ok(text) })
            == VerdictView::<bool>::NextKey(
            ErrorView::HttpError { status, filename, response: text@ },
        ),
        judged_existence(filename, ApiReply::Refused { status, body: Err(error) })
            == VerdictView::<bool>::NextKey(
            ErrorView::HttpError { status, filename, response: Seq::empty() },
        ),
{
    text::law_texts_are_found(a, "Not found"@, b, text@);
}

/// A call is about its asset: it begins with the first key, and names the asset
/// by its identifier, in its paths, in its errors and in the file of its preview.
pub proof fn law_calls_are_about_their_asset(asset_id: u128, keys: usize, url: Seq<char>)
    ensures
        begun(asset_id, keys, Ok(url)) matches Ok(call) && call.tried == 0 && call.keys == keys
            && call.url == url && call.filename == ids::hyphenated(asset_id) && call.failure() == (
        ErrorView::HttpError {
            status: 0,
            filename: ids::hyphenated(asset_id),
            response: "No API keys available"@,
        }),
        forall|error: Seq<char>| #[trigger]
            begun(asset_id, keys, Err(error)) == Err::<KeyedCallView, ErrorView>(
                ErrorView::InvalidConfig { error },
            ),
        asset_path(asset_id) == "/api/assets/"@ + ids::hyphenated(asset_id),
        preview_name(asset_id) == ids::hyphenated(asset_id) + "_preview.tmp"@,
{
}

/// An update sends the description as it is, and nothing else.
pub proof fn law_updates_send_the_description(description: Seq<char>)
    ensures
        description_body(description) == JsonView::Object(
            seq![MemberView { name: "description"@, value: JsonView::Text(description) }],
        ),
{
    assert(description_body(description)->Object_0 =~= seq![
        MemberView { name: "description"@, value: JsonView::Text(description) },
    ]);
}

} // verus!
