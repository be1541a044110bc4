//! The errors of the analyzer, and which of them are worth another try.
use vstd::prelude::*;

verus! {

/// Why an analysis, or a request to the Immich server, did not succeed.
#[derive(Debug, Clone, PartialEq, Eq)]
pub enum ImageAnalysisError {
    /// No AI host can be asked.
    AllHostsUnavailable,
    /// The AI host did not answer in time.
    AiRequestTimeout,
    /// A request failed: `status` is the HTTP status, or 0 if no answer came.
    HttpError { status: u16, filename: String, response: String },
    /// An answer was not the JSON that was expected.
    JsonParsing { filename: String, error: String },
    /// The model answered with nothing but white space.
    EmptyResponse { filename: String },
    /// A media file holds no bytes.
    EmptyFile { filename: String },
    /// An asset could not be processed.
    ProcessingError { filename: String, error: String },
    /// An asset identifier is not a UUID.
    InvalidUuid { filename: String },
    /// A setting is unusable.
    InvalidConfig { error: String },
    /// An API key cannot be sent in an HTTP header.
    InvalidApiKey,
    /// The HTTP client failed on its own side.
    HttpClientError { error: String },
    /// A file could not be touched.
    IoError { path: String, error: String },
}

/// The mathematical content of an [`ImageAnalysisError`].
pub enum ErrorView {
    AllHostsUnavailable,
    AiRequestTimeout,
    HttpError { status: u16, filename: Seq<char>, response: Seq<char> },
    JsonParsing { filename: Seq<char>, error: Seq<char> },
    EmptyResponse { filename: Seq<char> },
    EmptyFile { filename: Seq<char> },
    ProcessingError { filename: Seq<char>, error: Seq<char> },
    InvalidUuid { filename: Seq<char> },
    InvalidConfig { error: Seq<char> },
    InvalidApiKey,
    HttpClientError { error: Seq<char> },
    IoError { path: Seq<char>, error: Seq<char> },
}

impl View for ImageAnalysisError {
    type V = ErrorView;

    open spec fn view(&self) -> ErrorView {
        match self {
            ImageAnalysisError::AllHostsUnavailable => ErrorView::AllHostsUnavailable,
            ImageAnalysisError::AiRequestTimeout => ErrorView::AiRequestTimeout,
            ImageAnalysisError::HttpError { status, filename, response } => ErrorView::HttpError {
                status: *status,
                filename: filename@,
                response: response@,
            },
            ImageAnalysisError::JsonParsing { filename, error } => ErrorView::JsonParsing {
                filename: filename@,
                error: error@,
            },
            ImageAnalysisError::EmptyResponse { filename } => ErrorView::EmptyResponse {
                filename: filename@,
            },
            ImageAnalysisError::EmptyFile { filename } => ErrorView::EmptyFile {
                filename: filename@,
            },
            ImageAnalysisError::ProcessingError { filename, error } => ErrorView::ProcessingError {
                filename: filename@,
                error: error@,
            },
            ImageAnalysisError::InvalidUuid { filename } => ErrorView::InvalidUuid {
                filename: filename@,
            },
            ImageAnalysisError::InvalidConfig { error } => ErrorView::InvalidConfig {
                error: error@,
            },
            ImageAnalysisError::InvalidApiKey => ErrorView::InvalidApiKey,
            ImageAnalysisError::HttpClientError { error } => ErrorView::HttpClientError {
                error: error@,
            },
            ImageAnalysisError::IoError { path, error } => ErrorView::IoError {
                path: path@,
                error: error@,
            },
        }
    }
}

impl ErrorView {
    /// Another try may help: the host could not be reached or was too slow, or
    /// it answered with a server error (5xx).
    pub open spec fn retryable(self) -> bool {
        match self {
            ErrorView::AllHostsUnavailable => true,
            ErrorView::AiRequestTimeout => true,
            ErrorView::HttpError { status, .. } => status == 0 || 500 <= status <= 599,
            _ => false,
        }
    }
}

impl ImageAnalysisError {
    /// Whether another try may help.
    pub fn is_retryable(&self) -> (retryable: bool)
        ensures
            retryable == self@.retryable(),
    {
        match self {
            ImageAnalysisError::AllHostsUnavailable => true,
            ImageAnalysisError::AiRequestTimeout => true,
            ImageAnalysisError::HttpError { status, .. } => *status == 0 || (500 <= *status
                && *status <= 599),
            _ => false,
        }
    }

    /// Another error with the same content.
    pub fn duplicate(&self) -> (copy: ImageAnalysisError)
        ensures
            copy@ == self@,
    {
        match self {
            ImageAnalysisError::AllHostsUnavailable => ImageAnalysisError::AllHostsUnavailable,
            ImageAnalysisError::AiRequestTimeout => ImageAnalysisError::AiRequestTimeout,
            ImageAnalysisError::HttpError { status, filename, response } => ImageAnalysisError::HttpError {
                status: *status,
                filename: filename.clone(),
                response: response.clone(),
            },
            ImageAnalysisError::JsonParsing { filename, error } => ImageAnalysisError::JsonParsing {
                filename: filename.clone(),
                error: error.clone(),
            },
            ImageAnalysisError::EmptyResponse { filename } => ImageAnalysisError::EmptyResponse {
                filename: filename.clone(),
            },
            ImageAnalysisError::EmptyFile { filename } => ImageAnalysisError::EmptyFile {
                filename: filename.clone(),
            },
            ImageAnalysisError::ProcessingError { filename, error } => ImageAnalysisError::ProcessingError {
                filename: filename.clone(),
                error: error.clone(),
            },
            ImageAnalysisError::InvalidUuid { filename } => ImageAnalysisError::InvalidUuid {
                filename: filename.clone(),
            },
            ImageAnalysisError::InvalidConfig { error } => ImageAnalysisError::InvalidConfig {
                error: error.clone(),
            },
            ImageAnalysisError::InvalidApiKey => ImageAnalysisError::InvalidApiKey,
            ImageAnalysisError::HttpClientError { error } => ImageAnalysisError::HttpClientError {
                error: error.clone(),
            },
            ImageAnalysisError::IoError { path, error } => ImageAnalysisError::IoError {
                path: path.clone(),
                error: error.clone(),
            },
        }
    }
}

/// The content of the error of a result, and the content of its value as `value` gives it.
pub open spec fn result_view<T, V>(
    result: Result<T, ImageAnalysisError>,
    value: spec_fn(T) -> V,
) -> Result<V, ErrorView> {
    match result {
        Ok(v) => Ok(value(v)),
        Err(e) => Err(e@),
    }
}

/// The content of an optional error.
pub open spec fn error_option_view(error: Option<ImageAnalysisError>) -> Option<ErrorView> {
    match error {
        Some(e) => Some(e@),
        None => None,
    }
}

} // verus!
