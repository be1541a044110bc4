//! The download of an original file, step by step: every API key is tried until
//! one gives the whole file, and nothing partial is left behind. The caller
//! performs each action and hands back what came of it.
use crate::error;
use crate::error::{ErrorView, ImageAnalysisError};
use crate::http;
use crate::http::{is_success, status_text};
use crate::ids;
use crate::ids::id_text;
use crate::immich_api;
use crate::immich_api::ImmichApiProvider;
use crate::text;
use crate::text::decimal_text;
use vstd::prelude::*;
use vstd::string::StringExecFns;

verus! {

/// What came of removing the destination file.
#[derive(Debug)]
pub enum Removal {
    Removed,
    /// There was no such file.
    NotFound,
    Failed { error: String },
}

/// The mathematical content of a [`Removal`].
pub enum RemovalView {
    Removed,
    NotFound,
    Failed { error: Seq<char> },
}

impl View for Removal {
    type V = RemovalView;

    open spec fn view(&self) -> RemovalView {
        match self {
            Removal::Removed => RemovalView::Removed,
            Removal::NotFound => RemovalView::NotFound,
            Removal::Failed { error } => RemovalView::Failed { error: error@ },
        }
    }
}

/// The error of a removal: a file that is not there is as good as removed.
pub open spec fn removal_error(path: Seq<char>, removal: RemovalView) -> Option<ErrorView> {
    match removal {
        RemovalView::Failed { error } => Some(ErrorView::IoError { path, error }),
        _ => None,
    }
}

/// Takes what came of removing a partial download at `path`.
pub fn remove_partial_download(path: &str, removal: Removal) -> (result: Result<
    (),
    ImageAnalysisError,
>)
    ensures
        match removal_error(path@, removal@) {
            Some(e) => result is Err && result->Err_0@ == e,
            None => result is Ok,
        },
{
    match removal {
        Removal::Removed => Ok(()),
        Removal::NotFound => Ok(()),
        Removal::Failed { error } => Err(
            ImageAnalysisError::IoError { path: path.to_owned(), error },
        ),
    }
}

/// Something that happened to a download.
#[derive(Debug)]
pub enum DownloadEvent {
    Removed(Removal),
    NoResponse { error: String },
    Answered { status: u16, content_length: Option<u64> },
    Opened,
    OpenFailed { error: String },
    Chunk { bytes: Vec<u8> },
    BodyEnded,
    BodyFailed { error: String },
    Written,
    WriteFailed { error: String },
    Flushed,
    FlushFailed { error: String },
}

/// The mathematical content of a [`DownloadEvent`].
pub enum DownloadEventView {
    Removed(RemovalView),
    NoResponse { error: Seq<char> },
    Answered { status: u16, content_length: Option<u64> },
    Opened,
    OpenFailed { error: Seq<char> },
    Chunk { bytes: Seq<u8> },
    BodyEnded,
    BodyFailed { error: Seq<char> },
    Written,
    WriteFailed { error: Seq<char> },
    Flushed,
    FlushFailed { error: Seq<char> },
}

impl View for DownloadEvent {
    type V = DownloadEventView;

    open spec fn view(&self) -> DownloadEventView {
        match self {
            DownloadEvent::Removed(removal) => DownloadEventView::Removed(removal@),
            DownloadEvent::NoResponse { error } => DownloadEventView::NoResponse { error: error@ },
            DownloadEvent::Answered { status, content_length } => DownloadEventView::Answered {
                status: *status,
                content_length: *content_length,
            },
            DownloadEvent::Opened => DownloadEventView::Opened,
            DownloadEvent::OpenFailed { error } => DownloadEventView::OpenFailed { error: error@ },
            DownloadEvent::Chunk { bytes } => DownloadEventView::Chunk { bytes: bytes@ },
            DownloadEvent::BodyEnded => DownloadEventView::BodyEnded,
            DownloadEvent::BodyFailed { error } => DownloadEventView::BodyFailed { error: error@ },
            DownloadEvent::Written => DownloadEventView::Written,
            DownloadEvent::WriteFailed { error } => DownloadEventView::WriteFailed {
                error: error@,
            },
            DownloadEvent::Flushed => DownloadEventView::Flushed,
            DownloadEvent::FlushFailed { error } => DownloadEventView::FlushFailed {
                error: error@,
            },
        }
    }
}

/// Where a download stands, which is also what is to be done next.
#[derive(Debug)]
pub enum DownloadPhase {
    /// Remove the destination file, then ask with the key.
    Clearing { key: usize },
    /// Ask for the file with the key.
    Asking { key: usize },
    /// Create the destination file, which must not exist.
    Opening { key: usize },
    /// Wait for the next piece of the body.
    Receiving { key: usize, downloaded: u64 },
    /// Append the piece to the destination file.
    Writing { key: usize, downloaded: u64, chunk: Vec<u8> },
    /// Flush the destination file.
    Flushing { key: usize },
    /// Remove the destination file after a failure.
    CleaningUp { key: usize, failure: ImageAnalysisError },
    /// Remove the destination file after the last key.
    ClearingLast,
    /// The download is over.
    Finished(Result<(), ImageAnalysisError>),
}

/// The mathematical content of a [`DownloadPhase`].
pub enum DownloadPhaseView {
    Clearing { key: usize },
    Asking { key: usize },
    Opening { key: usize },
    Receiving { key: usize, downloaded: u64 },
    Writing { key: usize, downloaded: u64, chunk: Seq<u8> },
    Flushing { key: usize },
    CleaningUp { key: usize, failure: ErrorView },
    ClearingLast,
    Finished(Result<(), ErrorView>),
}

impl View for DownloadPhase {
    type V = DownloadPhaseView;

    open spec fn view(&self) -> DownloadPhaseView {
        match self {
            DownloadPhase::Clearing { key } => DownloadPhaseView::Clearing { key: *key },
            DownloadPhase::Asking { key } => DownloadPhaseView::Asking { key: *key },
            DownloadPhase::Opening { key } => DownloadPhaseView::Opening { key: *key },
            DownloadPhase::Receiving { key, downloaded } => DownloadPhaseView::Receiving {
                key: *key,
                downloaded: *downloaded,
            },
            DownloadPhase::Writing { key, downloaded, chunk } => DownloadPhaseView::Writing {
                key: *key,
                downloaded: *downloaded,
                chunk: chunk@,
            },
            DownloadPhase::Flushing { key } => DownloadPhaseView::Flushing { key: *key },
            DownloadPhase::CleaningUp { key, failure } => DownloadPhaseView::CleaningUp {
                key: *key,
                failure: failure@,
            },
            DownloadPhase::ClearingLast => DownloadPhaseView::ClearingLast,
            DownloadPhase::Finished(result) => DownloadPhaseView::Finished(
                error::result_view(*result, |unit: ()| unit),
            ),
        }
    }
}

impl DownloadPhaseView {
    /// The key that is being tried, if one is.
    pub open spec fn key(self) -> Option<usize> {
        match self {
            DownloadPhaseView::Clearing { key } => Some(key),
            DownloadPhaseView::Asking { key } => Some(key),
            DownloadPhaseView::Opening { key } => Some(key),
            DownloadPhaseView::Receiving { key, .. } => Some(key),
            DownloadPhaseView::Writing { key, .. } => Some(key),
            DownloadPhaseView::Flushing { key } => Some(key),
            DownloadPhaseView::CleaningUp { key, .. } => Some(key),
            _ => None,
        }
    }
}

/// A download under way.
#[derive(Debug)]
pub struct Download {
    filename: String,
    path: String,
    url: String,
    keys: usize,
    max_bytes: u64,
    phase: DownloadPhase,
    last_error: Option<ImageAnalysisError>,
}

/// The mathematical content of a [`Download`].
pub struct DownloadView {
    pub filename: Seq<char>,
    pub path: Seq<char>,
    pub url: Seq<char>,
    pub keys: usize,
    pub max_bytes: u64,
    pub phase: DownloadPhaseView,
    pub last_error: Option<ErrorView>,
}

impl View for Download {
    type V = DownloadView;

    closed spec fn view(&self) -> DownloadView {
        DownloadView {
            filename: self.filename@,
            path: self.path@,
            url: self.url@,
            keys: self.keys,
            max_bytes: self.max_bytes,
            phase: self.phase@,
            last_error: error::error_option_view(self.last_error),
        }
    }
}

/// The message for a file whose announced size is over the limit.
pub open spec fn announced_too_large(max_bytes: u64, content_length: u64) -> Seq<char> {
    "Original file exceeds the configured maximum of "@ + text::decimal(max_bytes as nat)
        + " bytes (Content-Length: "@ + text::decimal(content_length as nat) + " bytes)"@
}

/// The message for a file that turns out to be over the limit.
pub open spec fn received_too_large(max_bytes: u64, downloaded: u64) -> Seq<char> {
    "Original file exceeds the configured maximum of "@ + text::decimal(max_bytes as nat)
        + " bytes after "@ + text::decimal(downloaded as nat) + " bytes"@
}

impl DownloadView {
    /// Every key is one of the keys, and there is a key to every phase that has one.
    pub open spec fn keys_in_range(self) -> bool {
        self.phase.key() matches Some(key) ==> key < self.keys
    }

    /// The event is an outcome of what the phase asks for.
    pub open spec fn expects(self, event: DownloadEventView) -> bool {
        match self.phase {
            DownloadPhaseView::Clearing { .. } => event is Removed,
            DownloadPhaseView::Asking { .. } => {
                ||| event is NoResponse
                ||| event matches DownloadEventView::Answered { status, .. } && http::is_status(
                    status,
                )
            },
            DownloadPhaseView::Opening { .. } => event is Opened || event is OpenFailed,
            DownloadPhaseView::Receiving { .. } => event is Chunk || event is BodyEnded
                || event is BodyFailed,
            DownloadPhaseView::Writing { .. } => event is Written || event is WriteFailed,
            DownloadPhaseView::Flushing { .. } => event is Flushed || event is FlushFailed,
            DownloadPhaseView::CleaningUp { .. } => event is Removed,
            DownloadPhaseView::ClearingLast => event is Removed,
            DownloadPhaseView::Finished(_) => false,
        }
    }

    /// The download in another phase.
    pub open spec fn in_phase(self, phase: DownloadPhaseView) -> DownloadView {
        DownloadView { phase, ..self }
    }

    /// The download after `key` has failed with an error of the transport.
    pub open spec fn past(self, key: usize, e: ErrorView) -> DownloadView {
        DownloadView {
            phase: if key + 1 < self.keys {
                DownloadPhaseView::Clearing { key: (key + 1) as usize }
            } else {
                DownloadPhaseView::ClearingLast
            },
            last_error: Some(e),
            ..self
        }
    }

    /// The download that has to clean up after a failure.
    pub open spec fn failing(self, key: usize, failure: ErrorView) -> DownloadView {
        self.in_phase(DownloadPhaseView::CleaningUp { key, failure })
    }

    /// The download that has ended with an error.
    pub open spec fn failed(self, e: ErrorView) -> DownloadView {
        self.in_phase(DownloadPhaseView::Finished(Err(e)))
    }

    /// An error of processing this file.
    pub open spec fn processing(self, error: Seq<char>) -> ErrorView {
        ErrorView::ProcessingError { filename: self.filename, error }
    }

    /// An error of the transport of this file.
    pub open spec fn transport(self, status: u16, response: Seq<char>) -> ErrorView {
        ErrorView::HttpError { status, filename: self.filename, response }
    }

    /// The download after an answer to the request made with `key`.
    pub open spec fn after_answer(
        self,
        key: usize,
        status: u16,
        content_length: Option<u64>,
    ) -> DownloadView {
        if !http::success(status) {
            self.past(key, self.transport(status, http::status_display(status)))
        } else if content_length is Some && content_length->0 > self.max_bytes {
            self.failing(
                key,
                self.processing(announced_too_large(self.max_bytes, content_length->0)),
            )
        } else {
            self.in_phase(DownloadPhaseView::Opening { key })
        }
    }

    /// The download after a piece of the body.
    pub open spec fn after_chunk(self, key: usize, downloaded: u64, chunk: Seq<u8>) -> DownloadView {
        let total = downloaded + chunk.len();
        if total > u64::MAX {
            self.failing(key, self.processing("Original file size overflowed u64"@))
        } else if total > self.max_bytes {
            self.failing(
                key,
                self.processing(received_too_large(self.max_bytes, total as u64)),
            )
        } else {
            self.in_phase(DownloadPhaseView::Writing { key, downloaded: total as u64, chunk })
        }
    }

    /// The download after the removal before the request with `key`.
    pub open spec fn after_clearing(self, key: usize, removal: RemovalView) -> DownloadView {
        match removal_error(self.path, removal) {
            Some(e) => self.failed(e),
            None => self.in_phase(DownloadPhaseView::Asking { key }),
        }
    }

    /// The download after the removal that follows a failure: an error of the
    /// transport leads to the next key, any other ends the download.
    pub open spec fn after_cleanup(
        self,
        key: usize,
        failure: ErrorView,
        removal: RemovalView,
    ) -> DownloadView {
        match removal_error(self.path, removal) {
            Some(e) => self.failed(e),
            None => if failure is HttpError {
                self.past(key, failure)
            } else {
                self.failed(failure)
            },
        }
    }

    /// The download after the removal that follows the last key.
    pub open spec fn after_last(self, removal: RemovalView) -> DownloadView {
        match removal_error(self.path, removal) {
            Some(e) => self.failed(e),
            None => match self.last_error {
                Some(e) => self.failed(e),
                None => self.failed(self.transport(0, "No API keys available"@)),
            },
        }
    }

    /// The download after an event that it expects.
    pub open spec fn after(self, event: DownloadEventView) -> DownloadView {
        match (self.phase, event) {
            (DownloadPhaseView::Clearing { key }, DownloadEventView::Removed(removal)) => {
                self.after_clearing(key, removal)
            },
            (
                DownloadPhaseView::CleaningUp { key, failure },
                DownloadEventView::Removed(removal),
            ) => self.after_cleanup(key, failure, removal),
            (DownloadPhaseView::ClearingLast, DownloadEventView::Removed(removal)) => {
                self.after_last(removal)
            },
            (DownloadPhaseView::Asking { key }, DownloadEventView::NoResponse { error }) => {
                self.past(key, self.transport(0, error))
            },
            (
                DownloadPhaseView::Asking { key },
                DownloadEventView::Answered { status, content_length },
            ) => self.after_answer(key, status, content_length),
            (DownloadPhaseView::Opening { key }, DownloadEventView::Opened) => self.in_phase(
                DownloadPhaseView::Receiving { key, downloaded: 0 },
            ),
            (DownloadPhaseView::Opening { key }, DownloadEventView::OpenFailed { error }) => {
                self.failing(key, self.processing(error))
            },
            (
                DownloadPhaseView::Receiving { key, downloaded },
                DownloadEventView::Chunk { bytes },
            ) => self.after_chunk(key, downloaded, bytes),
            (DownloadPhaseView::Receiving { key, downloaded }, DownloadEventView::BodyEnded) => {
                if downloaded == 0 {
                    self.failing(key, ErrorView::EmptyFile { filename: self.filename })
                } else {
                    self.in_phase(DownloadPhaseView::Flushing { key })
                }
            },
            (DownloadPhaseView::Receiving { key, .. }, DownloadEventView::BodyFailed { error }) => {
                self.failing(key, self.transport(0, error))
            },
            (DownloadPhaseView::Writing { key, downloaded, .. }, DownloadEventView::Written) => {
                self.in_phase(DownloadPhaseView::Receiving { key, downloaded })
            },
            (DownloadPhaseView::Writing { key, .. }, DownloadEventView::WriteFailed { error }) => {
                self.failing(key, self.processing(error))
            },
            (DownloadPhaseView::Flushing { .. }, DownloadEventView::Flushed) => self.in_phase(
                DownloadPhaseView::Finished(Ok(())),
            ),
            (DownloadPhaseView::Flushing { key }, DownloadEventView::FlushFailed { error }) => {
                self.failing(key, self.processing(error))
            },
            _ => self,
        }
    }
}

/// A download that is about to begin.
pub open spec fn download_start(
    asset_id: u128,
    path: Seq<char>,
    url: Seq<char>,
    keys: usize,
    max_bytes: u64,
) -> DownloadView {
    DownloadView {
        filename: ids::hyphenated(asset_id),
        path,
        url,
        keys,
        max_bytes,
        phase: if keys == 0 {
            DownloadPhaseView::ClearingLast
        } else {
            DownloadPhaseView::Clearing { key: 0 }
        },
        last_error: None,
    }
}

/// The path of the original file of an asset.
pub open spec fn original_path(asset_id: u128) -> Seq<char> {
    "/api/assets/"@ + ids::hyphenated(asset_id) + "/original"@
}

impl ImmichApiProvider {
    /// Begins to download the original asset file to the destination that
    /// `path` shows.
    ///
    /// Tries all API keys until one succeeds.
    pub fn download_original(&self, asset_id: u128, path: &str, max_bytes: u64) -> (download: Result<
        Download,
        ImageAnalysisError,
    >)
        ensures
            match immich_api::configured(http::url_join(self@.base_url, original_path(asset_id))) {
                Ok(url) => download is Ok && download->Ok_0@ == download_start(
                    asset_id,
                    path@,
                    url,
                    self@.api_keys.len() as usize,
                    max_bytes,
                ) && download->Ok_0@.keys_in_range(),
                Err(e) => download is Err && download->Err_0@ == e,
            },
    {
        let filename = id_text(asset_id);
        let mut reference = "/api/assets/".to_owned();
        reference.append(filename.as_str());
        reference.append("/original");
        let keys: usize = self.key_count();
        match self.endpoint(reference.as_str()) {
            Ok(url) => Ok(
                Download {
                    filename,
                    path: path.to_owned(),
                    url,
                    keys,
                    max_bytes,
                    phase: if keys == 0 {
                        DownloadPhase::ClearingLast
                    } else {
                        DownloadPhase::Clearing { key: 0 }
                    },
                    last_error: None,
                },
            ),
            Err(e) => Err(e),
        }
    }
}

impl Download {
    /// What is to be done next.
    pub fn phase(&self) -> (phase: &DownloadPhase)
        ensures
            phase@ == self@.phase,
    {
        &self.phase
    }

    /// The URL of the file.
    pub fn url(&self) -> (url: &str)
        ensures
            url@ == self@.url,
    {
        self.url.as_str()
    }

    fn processing(&self, error: String) -> (e: ImageAnalysisError)
        ensures
            e@ == self@.processing(error@),
    {
        ImageAnalysisError::ProcessingError { filename: self.filename.clone(), error }
    }

    fn transport(&self, status: u16, response: String) -> (e: ImageAnalysisError)
        ensures
            e@ == self@.transport(status, response@),
    {
        ImageAnalysisError::HttpError { status, filename: self.filename.clone(), response }
    }

    fn pass(&mut self, key: usize, e: ImageAnalysisError)
        requires
            key < old(self)@.keys,
        ensures
            final(self)@ == old(self)@.past(key, e@),
    {
        self.phase =
        if key + 1 < self.keys {
            DownloadPhase::Clearing { key: key + 1 }
        } else {
            DownloadPhase::ClearingLast
        };
        self.last_error = Some(e);
    }

    fn fail(&mut self, key: usize, failure: ImageAnalysisError)
        ensures
            final(self)@ == old(self)@.failing(key, failure@),
    {
        self.phase = DownloadPhase::CleaningUp { key, failure };
    }

    fn on_answer(&mut self, key: usize, status: u16, content_length: Option<u64>)
        requires
            key < old(self)@.keys,
            http::is_status(status),
        ensures
            final(self)@ == old(self)@.after_answer(key, status, content_length),
    {
        if !is_success(status) {
            let e = self.transport(status, status_text(status));
            self.pass(key, e);
            return ;
        }
        if let Some(content_length) = content_length {
            if content_length > self.max_bytes {
                let mut error = "Original file exceeds the configured maximum of ".to_owned();
                error.append(decimal_text(self.max_bytes).as_str());
                error.append(" bytes (Content-Length: ");
                error.append(decimal_text(content_length).as_str());
                error.append(" bytes)");
                let e = self.processing(error);
                self.fail(key, e);
                return ;
            }
        }
        self.phase = DownloadPhase::Opening { key };
    }

    fn on_chunk(&mut self, key: usize, downloaded: u64, chunk: Vec<u8>)
        ensures
            final(self)@ == old(self)@.after_chunk(key, downloaded, chunk@),
    {
        let size: u64 = chunk.len() as u64;
        match downloaded.checked_add(size) {
            None => {
                let e = self.processing("Original file size overflowed u64".to_owned());
                self.fail(key, e);
            },
            Some(total) => {
                if total > self.max_bytes {
                    let mut error = "Original file exceeds the configured maximum of ".to_owned();
                    error.append(decimal_text(self.max_bytes).as_str());
                    error.append(" bytes after ");
                    error.append(decimal_text(total).as_str());
                    error.append(" bytes");
                    let e = self.processing(error);
                    self.fail(key, e);
                } else {
                    self.phase = DownloadPhase::Writing { key, downloaded: total, chunk };
                }
            },
        }
    }

    fn on_cleared(&mut self, key: usize, removal: Removal)
        ensures
            final(self)@ == old(self)@.after_clearing(key, removal@),
    {
        self.phase =
        match remove_partial_download(self.path.as_str(), removal) {
            Ok(()) => DownloadPhase::Asking { key },
            Err(e) => DownloadPhase::Finished(Err(e)),
        };
    }

    fn on_cleaned_up(&mut self, key: usize, failure: ImageAnalysisError, removal: Removal)
        requires
            key < old(self)@.keys,
        ensures
            final(self)@ == old(self)@.after_cleanup(key, failure@, removal@),
    {
        if let Err(e) = remove_partial_download(self.path.as_str(), removal) {
            self.phase = DownloadPhase::Finished(Err(e));
            return ;
        }
        let transport = match &failure {
            ImageAnalysisError::HttpError { .. } => true,
            _ => false,
        };
        if transport {
            self.pass(key, failure);
        } else {
            self.phase = DownloadPhase::Finished(Err(failure));
        }
    }

    fn on_last_cleared(&mut self, removal: Removal)
        ensures
            final(self)@ == old(self)@.after_last(removal@),
    {
        if let Err(e) = remove_partial_download(self.path.as_str(), removal) {
            self.phase = DownloadPhase::Finished(Err(e));
            return ;
        }
        let e = match &self.last_error {
            Some(e) => e.duplicate(),
            None => self.transport(0, "No API keys available".to_owned()),
        };
        self.phase = DownloadPhase::Finished(Err(e));
    }

    /// Takes an outcome of what the phase asks for, and goes on to the next phase.
    pub fn on_event(self, event: DownloadEvent) -> (next: Download)
        requires
            self@.keys_in_range(),
            self@.expects(event@),
        ensures
            next@ == self@.after(event@),
            next@.keys_in_range(),
    {
        let Download { filename, path, url, keys, max_bytes, phase, last_error } = self;
        let mut next = Download {
            filename,
            path,
            url,
            keys,
            max_bytes,
            phase: DownloadPhase::ClearingLast,
            last_error,
        };
        match (phase, event) {
            (DownloadPhase::Clearing { key }, DownloadEvent::Removed(removal)) => {
                next.on_cleared(key, removal);
            },
            (DownloadPhase::CleaningUp { key, failure }, DownloadEvent::Removed(removal)) => {
                next.on_cleaned_up(key, failure, removal);
            },
            (DownloadPhase::ClearingLast, DownloadEvent::Removed(removal)) => {
                next.on_last_cleared(removal);
            },
            (DownloadPhase::Asking { key }, DownloadEvent::NoResponse { error }) => {
                let e = next.transport(0, error);
                next.pass(key, e);
            },
            (DownloadPhase::Asking { key }, DownloadEvent::Answered { status, content_length }) => {
                next.on_answer(key, status, content_length);
            },
            (DownloadPhase::Opening { key }, DownloadEvent::Opened) => {
                next.phase = DownloadPhase::Receiving { key, downloaded: 0 };
            },
            (DownloadPhase::Opening { key }, DownloadEvent::OpenFailed { error }) => {
                let e = next.processing(error);
                next.fail(key, e);
            },
            (DownloadPhase::Receiving { key, downloaded }, DownloadEvent::Chunk { bytes }) => {
                next.on_chunk(key, downloaded, bytes);
            },
            (DownloadPhase::Receiving { key, downloaded }, DownloadEvent::BodyEnded) => {
                if downloaded == 0 {
                    let e = ImageAnalysisError::EmptyFile { filename: next.filename.clone() };
                    next.fail(key, e);
                } else {
                    next.phase = DownloadPhase::Flushing { key };
                }
            },
            (DownloadPhase::Receiving { key, .. }, DownloadEvent::BodyFailed { error }) => {
                let e = next.transport(0, error);
                next.fail(key, e);
            },
            (DownloadPhase::Writing { key, downloaded, .. }, DownloadEvent::Written) => {
                next.phase = DownloadPhase::Receiving { key, downloaded };
            },
            (DownloadPhase::Writing { key, .. }, DownloadEvent::WriteFailed { error }) => {
                let e = next.processing(error);
                next.fail(key, e);
            },
            (DownloadPhase::Flushing { .. }, DownloadEvent::Flushed) => {
                next.phase = DownloadPhase::Finished(Ok(()));
            },
            (DownloadPhase::Flushing { key }, DownloadEvent::FlushFailed { error }) => {
                let e = next.processing(error);
                next.fail(key, e);
            },
            _ => {},
        }
        next
    }
}

} // verus!
