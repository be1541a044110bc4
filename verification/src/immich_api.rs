//! The REST API of the Immich server: what is asked of it, key by key, and what
//! its answers mean.
use crate::error;
use crate::error::{ErrorView, ImageAnalysisError};
use crate::http;
use crate::http::{is_header_text, join_url, parse_url};
use crate::text;
use crate::text::{copied_texts, decimal_text};
use vstd::prelude::*;
use vstd::string::StringExecFns;

verus! {

/// Reference to an asset with minimal metadata needed for processing.
#[derive(Debug, Clone, Copy, PartialEq, Eq, Structural)]
pub struct AssetRef {
    /// Unique identifier of the asset (UUID)
    pub id: u128,
}

/// What the server tells of an asset when it is listed.
#[derive(Debug, PartialEq, Eq)]
pub struct AssetResponse {
    pub id: String,
    pub exif_info: Option<ExifInfo>,
}

/// A person on an asset.
#[derive(Debug, PartialEq, Eq)]
pub struct PersonInfo {
    pub name: String,
    pub birth_date: Option<String>,
}

/// A tag of an asset.
#[derive(Debug, PartialEq, Eq)]
pub struct TagInfo {
    pub value: String,
}

/// EXIF data of an asset. The aperture and the focal length are kept in
/// decimal notation.
#[derive(Debug, PartialEq, Eq)]
pub struct ExifInfo {
    pub description: Option<String>,
    pub city: Option<String>,
    pub state: Option<String>,
    pub country: Option<String>,
    pub make: Option<String>,
    pub model: Option<String>,
    pub date_time_original: Option<String>,
    pub lens_model: Option<String>,
    pub exposure_time: Option<String>,
    pub f_number: Option<String>,
    pub focal_length: Option<String>,
    pub iso: Option<u32>,
    pub rating: Option<i8>,
    pub time_zone: Option<String>,
}

/// All that the server tells of an asset: its file, its dates, people, tags and
/// EXIF data.
#[derive(Debug, PartialEq, Eq)]
pub struct AssetMetadata {
    pub original_file_name: Option<String>,
    pub kind: Option<String>,
    pub file_created_at: Option<String>,
    pub local_date_time: Option<String>,
    pub height: Option<i32>,
    pub width: Option<i32>,
    pub original_mime_type: Option<String>,
    pub people: Vec<PersonInfo>,
    pub tags: Vec<TagInfo>,
    pub exif_info: Option<ExifInfo>,
}

/// Provider for accessing Immich data via the REST API.
/// Supports multiple API keys for multi-user setups.
#[derive(Clone)]
pub struct ImmichApiProvider {
    api_keys: Vec<String>,
    base_url: String,
    base_url_debug: String,
}

/// The mathematical content of an [`ImmichApiProvider`].
pub struct ProviderView {
    pub api_keys: Seq<Seq<char>>,
    pub base_url: Seq<char>,
    /// The base URL in the form that debug output shows.
    pub base_url_debug: Seq<char>,
}

impl View for ImmichApiProvider {
    type V = ProviderView;

    closed spec fn view(&self) -> ProviderView {
        ProviderView {
            api_keys: text::texts_view(self.api_keys@),
            base_url: self.base_url@,
            base_url_debug: self.base_url_debug@,
        }
    }
}

/// What is wrong with the API key `i`, if anything: it cannot be sent in a
/// header, or no HTTP client could be made for it.
pub open spec fn key_error(
    api_keys: Seq<Seq<char>>,
    client_errors: Seq<Option<String>>,
    i: int,
) -> Option<ErrorView> {
    if !http::header_text(api_keys[i]) {
        Some(ErrorView::InvalidApiKey)
    } else {
        match client_errors[i] {
            Some(error) => Some(ErrorView::HttpClientError { error: error@ }),
            None => None,
        }
    }
}

/// The error of the first of the API keys from `from` on that has one.
pub open spec fn first_key_error(
    api_keys: Seq<Seq<char>>,
    client_errors: Seq<Option<String>>,
    from: int,
) -> Option<ErrorView>
    decreases api_keys.len() - from,
{
    if from >= api_keys.len() {
        None
    } else if key_error(api_keys, client_errors, from) is Some {
        key_error(api_keys, client_errors, from)
    } else {
        first_key_error(api_keys, client_errors, from + 1)
    }
}

/// The provider for a base URL as it was read, or why there is none.
pub open spec fn assembled(
    base_url: Result<(Seq<char>, Seq<char>), Seq<char>>,
    api_keys: Seq<Seq<char>>,
    client_errors: Seq<Option<String>>,
) -> Result<ProviderView, ErrorView> {
    match base_url {
        Err(error) => Err(ErrorView::InvalidConfig { error }),
        Ok(url) => match first_key_error(api_keys, client_errors, 0) {
            Some(e) => Err(e),
            None => if api_keys.len() == 0 {
                Err(ErrorView::InvalidConfig { error: "At least one API key is required"@ })
            } else {
                Ok(ProviderView { api_keys, base_url: url.0, base_url_debug: url.1 })
            },
        },
    }
}

/// The debug text of a provider, from that of its base URL and the number of its keys.
pub open spec fn provider_text(base_url_debug: Seq<char>, keys: nat) -> Seq<char> {
    "ImmichApiProvider { base_url: "@ + base_url_debug + ", clients: \""@ + text::decimal(keys)
        + " clients\" }"@
}

/// The content of a result of making a provider.
pub open spec fn provider_result_view(
    result: Result<ImmichApiProvider, ImageAnalysisError>,
) -> Result<ProviderView, ErrorView> {
    error::result_view(result, |provider: ImmichApiProvider| provider@)
}

/// The URL that a joined reference gives, or the error of a configuration that
/// does not allow it.
pub open spec fn configured(joined: Result<Seq<char>, Seq<char>>) -> Result<Seq<char>, ErrorView> {
    match joined {
        Ok(url) => Ok(url),
        Err(error) => Err(ErrorView::InvalidConfig { error }),
    }
}

/// Takes the result of joining a URL: a failure means that the configuration is unusable.
pub fn configured_url(joined: Result<String, String>) -> (url: Result<String, ImageAnalysisError>)
    ensures
        error::result_view(url, |u: String| u@) == configured(http::text_result_view(joined)),
{
    match joined {
        Ok(url) => Ok(url),
        Err(error) => Err(ImageAnalysisError::InvalidConfig { error }),
    }
}

impl ImmichApiProvider {
    /// There is at least one API key, and every key can be sent in a header.
    pub closed spec fn wf(&self) -> bool {
        &&& self.api_keys@.len() > 0
        &&& forall|i: int|
            0 <= i < self.api_keys@.len() ==> http::header_text((#[trigger] self.api_keys@[i])@)
    }

    /// A provider has at least one API key, and every key can be sent in a header.
    pub proof fn lemma_wf(&self)
        requires
            self.wf(),
        ensures
            0 < self@.api_keys.len() <= usize::MAX,
            forall|i: int|
                0 <= i < self@.api_keys.len() ==> http::header_text(#[trigger] self@.api_keys[i]),
    {
        assert(self.api_keys@.len() == self.api_keys.len());
        assert forall|i: int| 0 <= i < self@.api_keys.len() implies http::header_text(
            #[trigger] self@.api_keys[i],
        ) by {
            assert(http::header_text(self.api_keys@[i]@));
        }
    }

    /// Makes a provider for a base URL as it was read: serialized, and in the
    /// form that debug output shows.
    pub fn assemble(
        base_url: Result<(String, String), String>,
        api_keys: &[String],
        client_errors: &[Option<String>],
    ) -> (provider: Result<ImmichApiProvider, ImageAnalysisError>)
        requires
            api_keys@.len() == client_errors@.len(),
        ensures
            provider_result_view(provider) == assembled(
                http::parsed_url_view(base_url),
                text::texts_view(api_keys@),
                client_errors@,
            ),
            provider matches Ok(p) ==> p.wf(),
    {
        let url = match base_url {
            Ok(url) => url,
            Err(error) => {
                return Err(ImageAnalysisError::InvalidConfig { error });
            },
        };
        let ghost keys = text::texts_view(api_keys@);
        let mut i: usize = 0;
        let total: usize = api_keys.len();
        while i < total
            invariant
                http::parsed_url_view(base_url) == Ok::<(Seq<char>, Seq<char>), Seq<char>>(
                    (url.0@, url.1@),
                ),
                i <= total == api_keys@.len(),
                api_keys@.len() == client_errors@.len(),
                keys == text::texts_view(api_keys@),
                first_key_error(keys, client_errors@, 0) == first_key_error(
                    keys,
                    client_errors@,
                    i as int,
                ),
                forall|j: int| 0 <= j < i ==> http::header_text(#[trigger] keys[j]),
            decreases total - i,
        {
            assert(keys[i as int] == api_keys@[i as int]@);
            if !is_header_text(api_keys[i].as_str()) {
                return Err(ImageAnalysisError::InvalidApiKey);
            }
            if let Some(error) = &client_errors[i] {
                return Err(ImageAnalysisError::HttpClientError { error: error.clone() });
            }
            i += 1;
        }
        if api_keys.len() == 0 {
            return Err(
                ImageAnalysisError::InvalidConfig {
                    error: "At least one API key is required".to_owned(),
                },
            );
        }
        let copy = copied_texts(api_keys);
        let provider = ImmichApiProvider {
            api_keys: copy,
            base_url: url.0,
            base_url_debug: url.1,
        };
        proof {
            assert(keys.len() == text::texts_view(copy@).len());
            assert forall|j: int| 0 <= j < provider.api_keys@.len() implies http::header_text(
                (#[trigger] provider.api_keys@[j])@,
            ) by {
                assert(keys[j] == text::texts_view(copy@)[j]);
                assert(http::header_text(keys[j]));
            }
        }
        Ok(provider)
    }

    /// Creates a new Immich API provider.
    ///
    /// # Arguments
    /// * `base_url_str` - Base URL of the Immich server
    /// * `api_keys` - List of API keys for authentication (created in Immich web UI)
    /// * `client_errors` - For each key, why no HTTP client could be made that sends it
    ///
    /// # Errors
    /// Returns an error if the URL is invalid or any API key contains invalid characters.
    pub fn new(base_url_str: &str, api_keys: &[String], client_errors: &[Option<String>]) -> (provider:
        Result<ImmichApiProvider, ImageAnalysisError>)
        requires
            api_keys@.len() == client_errors@.len(),
        ensures
            provider_result_view(provider) == assembled(
                http::url_parse(base_url_str@),
                text::texts_view(api_keys@),
                client_errors@,
            ),
            provider matches Ok(p) ==> p.wf(),
    {
        ImmichApiProvider::assemble(parse_url(base_url_str), api_keys, client_errors)
    }

    /// How many API keys there are.
    pub fn key_count(&self) -> (count: usize)
        ensures
            count == self@.api_keys.len(),
    {
        self.api_keys.len()
    }

    /// The API key `i`, which goes into the header `x-api-key`.
    pub fn api_key(&self, i: usize) -> (key: &str)
        requires
            i < self@.api_keys.len(),
        ensures
            key@ == self@.api_keys[i as int],
    {
        self.api_keys[i].as_str()
    }

    /// The base URL of the server.
    pub fn base_url(&self) -> (url: &str)
        ensures
            url@ == self@.base_url,
    {
        self.base_url.as_str()
    }

    /// The text that debug output shows of the provider: the base URL and the
    /// number of clients, one for each API key, but no key.
    pub fn debug_text(&self) -> (text: String)
        ensures
            text@ == provider_text(self@.base_url_debug, self@.api_keys.len()),
    {
        let mut text = "ImmichApiProvider { base_url: ".to_owned();
        text.append(self.base_url_debug.as_str());
        text.append(", clients: \"");
        text.append(decimal_text(self.api_keys.len() as u64).as_str());
        text.append(" clients\" }");
        text
    }

    /// The URL of an endpoint of the server.
    pub fn endpoint(&self, path: &str) -> (url: Result<String, ImageAnalysisError>)
        ensures
            error::result_view(url, |u: String| u@) == configured(
                http::url_join(self@.base_url, path@),
            ),
    {
        configured_url(join_url(self.base_url.as_str(), path))
    }
}

/// A text that a header can hold: no control character but tabs.
pub open spec fn sendable(key: Seq<char>) -> bool {
    forall|i: int|
        0 <= i < key.len() ==> (#[trigger] key[i] as u32 == 9 || (key[i] as u32 >= 32
            && key[i] as u32 != 127))
}

proof fn lemma_sendable(key: Seq<char>)
    ensures
        sendable(key) == http::header_text(key),
{
    if sendable(key) {
        assert forall|i: int| 0 <= i < key.len() implies http::header_char(#[trigger] key[i]) by {
            assert(key[i] as u32 == 9 || (key[i] as u32 >= 32 && key[i] as u32 != 127));
        }
    }
    if http::header_text(key) {
        assert forall|i: int| 0 <= i < key.len() implies (#[trigger] key[i] as u32 == 9 || (
        key[i] as u32 >= 32 && key[i] as u32 != 127)) by {
            assert(http::header_char(key[i]));
        }
    }
}

proof fn lemma_no_key_error(
    api_keys: Seq<Seq<char>>,
    client_errors: Seq<Option<String>>,
    from: int,
)
    requires
        0 <= from,
        forall|i: int|
            from <= i < api_keys.len() ==> sendable(#[trigger] api_keys[i])
                && client_errors[i] is None,
    ensures
        first_key_error(api_keys, client_errors, from) is None,
    decreases api_keys.len() - from,
{
    if from < api_keys.len() {
        assert(sendable(api_keys[from]));
        lemma_sendable(api_keys[from]);
        lemma_no_key_error(api_keys, client_errors, from + 1);
    }
}

proof fn lemma_first_key_error(
    api_keys: Seq<Seq<char>>,
    client_errors: Seq<Option<String>>,
    from: int,
    k: int,
)
    requires
        0 <= from <= k < api_keys.len(),
        forall|i: int|
            from <= i < k ==> sendable(#[trigger] api_keys[i]) && client_errors[i] is None,
        !sendable(api_keys[k]) || client_errors[k] is Some,
    ensures
        first_key_error(api_keys, client_errors, from) == Some(
            if !sendable(api_keys[k]) {
                ErrorView::InvalidApiKey
            } else {
                ErrorView::HttpClientError { error: client_errors[k]->0@ }
            },
        ),
    decreases k - from,
{
    lemma_sendable(api_keys[from]);
    if from < k {
        assert(sendable(api_keys[from]));
        lemma_first_key_error(api_keys, client_errors, from + 1, k);
    }
}

/// A provider is made exactly of a URL that can be read and at least one key, all
/// of which can be sent and have a client; it keeps the URL and all keys in order.
pub proof fn law_providers_keep_url_and_keys(
    url: (Seq<char>, Seq<char>),
    api_keys: Seq<Seq<char>>,
    client_errors: Seq<Option<String>>,
)
    requires
        api_keys.len() == client_errors.len(),
        forall|i: int|
            0 <= i < api_keys.len() ==> sendable(#[trigger] api_keys[i])
                && client_errors[i] is None,
    ensures
        api_keys.len() > 0 ==> assembled(Ok(url), api_keys, client_errors) == Ok::<
            ProviderView,
            ErrorView,
        >(ProviderView { api_keys, base_url: url.0, base_url_debug: url.1 }),
        api_keys.len() == 0 ==> assembled(Ok(url), api_keys, client_errors) == Err::<
            ProviderView,
            ErrorView,
        >(ErrorView::InvalidConfig { error: "At least one API key is required"@ }),
{
    lemma_no_key_error(api_keys, client_errors, 0);
}

/// A URL that cannot be read is reported first, and then the first key that
/// cannot be used: one that cannot be sent is invalid, one without a client has
/// the client's error.
pub proof fn law_first_fault_is_reported(
    base_url: Result<(Seq<char>, Seq<char>), Seq<char>>,
    api_keys: Seq<Seq<char>>,
    client_errors: Seq<Option<String>>,
    k: int,
)
    requires
        api_keys.len() == client_errors.len(),
        0 <= k < api_keys.len(),
        forall|i: int|
            0 <= i < k ==> sendable(#[trigger] api_keys[i]) && client_errors[i] is None,
        !sendable(api_keys[k]) || client_errors[k] is Some,
    ensures
        base_url matches Err(error) ==> assembled(base_url, api_keys, client_errors) == Err::<
            ProviderView,
            ErrorView,
        >(ErrorView::InvalidConfig { error }),
        base_url is Ok && !sendable(api_keys[k]) ==> assembled(base_url, api_keys, client_errors)
            == Err::<ProviderView, ErrorView>(ErrorView::InvalidApiKey),
        base_url is Ok && sendable(api_keys[k]) ==> assembled(base_url, api_keys, client_errors)
            == Err::<ProviderView, ErrorView>(
            ErrorView::HttpClientError { error: client_errors[k]->0@ },
        ),
{
    lemma_first_key_error(api_keys, client_errors, 0, k);
}

/// The debug text shows the base URL and the number of keys: providers with the
/// same of both have the same text, whatever their keys are.
pub proof fn law_debug_text_hides_the_keys(a: ProviderView, b: ProviderView)
    requires
        a.base_url_debug == b.base_url_debug,
        a.api_keys.len() == b.api_keys.len(),
    ensures
        provider_text(a.base_url_debug, a.api_keys.len()) == provider_text(
            b.base_url_debug,
            b.api_keys.len(),
        ),
        provider_text(a.base_url_debug, a.api_keys.len()) == "ImmichApiProvider { base_url: "@
            + a.base_url_debug + ", clients: \""@ + text::decimal(a.api_keys.len())
            + " clients\" }"@,
{
}

} // verus!
