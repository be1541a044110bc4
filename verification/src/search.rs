//! The listing of assets: every API key's library is read page by page.
use crate::error;
use crate::error::{ErrorView, ImageAnalysisError};
use crate::exact_time;
use crate::http;
use crate::ids;
use crate::ids::read_id;
use crate::immich_api;
use crate::immich_api::{AssetRef, AssetResponse, ImmichApiProvider};
use crate::json;
use crate::json::{Json, JsonView, MemberView};
use crate::keyed_call;
use crate::keyed_call::{granted, ApiReply};
use crate::text;
use vstd::prelude::*;

verus! {

/// How many assets a page has at most.
pub const PAGE_SIZE: u64 = 1000;

/// A page of the listing.
#[derive(Debug)]
pub struct AssetSearchResult {
    pub items: Vec<AssetResponse>,
    pub next_page: Option<String>,
}

/// The body of an answer to a search.
#[derive(Debug)]
pub struct AssetSearchResponse {
    pub assets: AssetSearchResult,
}

/// The identifiers on a page, as they are written there.
pub open spec fn item_ids(items: Seq<AssetResponse>) -> Seq<Seq<char>> {
    Seq::new(items.len(), |i: int| items[i].id@)
}

/// The assets that the identifiers stand for, up to the first that is not a UUID.
pub open spec fn readable_assets(ids: Seq<Seq<char>>) -> Seq<AssetRef>
    decreases ids.len(),
{
    if ids.len() == 0 {
        Seq::empty()
    } else {
        match ids::uuid_parse(ids[0]) {
            Some(id) => seq![AssetRef { id }] + readable_assets(ids.drop_first()),
            None => Seq::empty(),
        }
    }
}

/// The first of the identifiers that is not a UUID.
pub open spec fn unreadable_id(ids: Seq<Seq<char>>) -> Option<Seq<char>>
    decreases ids.len(),
{
    if ids.len() == 0 {
        None
    } else {
        match ids::uuid_parse(ids[0]) {
            Some(_) => unreadable_id(ids.drop_first()),
            None => Some(ids[0]),
        }
    }
}

/// The asset that an identifier stands for, as it was read, or the error that it is none.
pub fn asset_ref(id: &str, parsed: Option<u128>) -> (asset: Result<AssetRef, ImageAnalysisError>)
    ensures
        match parsed {
            Some(n) => asset == Ok::<AssetRef, ImageAnalysisError>(AssetRef { id: n }),
            None => asset is Err && asset->Err_0@ == (ErrorView::InvalidUuid { filename: id@ }),
        },
{
    match parsed {
        Some(n) => Ok(AssetRef { id: n }),
        None => Err(ImageAnalysisError::InvalidUuid { filename: id.to_owned() }),
    }
}

/// A listing under way: which key's library is read, at which page, how many
/// keys have been tried for that page, and the assets so far.
#[derive(Debug)]
pub struct AssetSearch {
    url: String,
    since: Option<String>,
    fallback: bool,
    keys: usize,
    owner: usize,
    page: usize,
    tried: usize,
    found: Vec<AssetRef>,
}

/// The mathematical content of an [`AssetSearch`].
#[verifier::ext_equal]
pub struct AssetSearchView {
    pub url: Seq<char>,
    pub since: Option<Seq<char>>,
    pub fallback: bool,
    pub keys: usize,
    pub owner: usize,
    pub page: usize,
    pub tried: usize,
    pub found: Seq<AssetRef>,
}

impl View for AssetSearch {
    type V = AssetSearchView;

    closed spec fn view(&self) -> AssetSearchView {
        AssetSearchView {
            url: self.url@,
            since: text::option_view(self.since),
            fallback: self.fallback,
            keys: self.keys,
            owner: self.owner,
            page: self.page,
            tried: self.tried,
            found: self.found@,
        }
    }
}

/// What a reply leads to.
#[derive(Debug)]
pub enum SearchStep {
    /// Ask for a page again.
    Ask(AssetSearch),
    /// The listing is over.
    Done(Result<Vec<AssetRef>, ImageAnalysisError>),
}

/// The mathematical content of a [`SearchStep`].
#[verifier::ext_equal]
pub enum SearchStepView {
    Ask(AssetSearchView),
    Done(Result<Seq<AssetRef>, ErrorView>),
}

impl View for SearchStep {
    type V = SearchStepView;

    open spec fn view(&self) -> SearchStepView {
        match self {
            SearchStep::Ask(search) => SearchStepView::Ask(search@),
            SearchStep::Done(result) => SearchStepView::Done(
                error::result_view(*result, |assets: Vec<AssetRef>| assets@),
            ),
        }
    }
}

/// The key to ask with when `tried` keys have failed: first the one whose
/// library is read, then the others in their order.
pub open spec fn key_to_ask(owner: usize, tried: usize) -> usize {
    if tried == 0 {
        owner
    } else if tried <= owner {
        (tried - 1) as usize
    } else {
        tried
    }
}

/// The request for a page.
pub open spec fn page_body(page: usize, since: Option<Seq<char>>) -> JsonView {
    let body = json::object().with("page"@, JsonView::Number(text::decimal(page as nat))).with(
        "size"@,
        JsonView::Number(text::decimal(PAGE_SIZE as nat)),
    ).with("withExif"@, JsonView::Bool(true));
    match since {
        Some(moment) => body.with("createdAfter"@, JsonView::Text(moment)),
        None => body,
    }
}

impl AssetSearchView {
    /// A library that exists is read, and keys are left to try.
    pub open spec fn wf(self) -> bool {
        self.owner < self.keys && self.tried < self.keys
    }

    /// What the end of a library leads to.
    pub open spec fn after_library(self) -> SearchStepView {
        if self.owner + 1 < self.keys {
            SearchStepView::Ask(
                AssetSearchView { owner: (self.owner + 1) as usize, page: 1, tried: 0, ..self },
            )
        } else {
            SearchStepView::Done(Ok(self.found))
        }
    }

    /// What a page leads to. A library ends with an empty page, or with one that
    /// announces no next page.
    pub open spec fn after_page(self, ids: Seq<Seq<char>>, last: bool) -> SearchStepView {
        if ids.len() == 0 {
            self.after_library()
        } else {
            match unreadable_id(ids) {
                Some(id) => SearchStepView::Done(Err(ErrorView::InvalidUuid { filename: id })),
                None => {
                    let more = AssetSearchView {
                        found: self.found + readable_assets(ids),
                        ..self
                    };
                    if last {
                        more.after_library()
                    } else {
                        SearchStepView::Ask(
                            AssetSearchView {
                                page: if self.page == usize::MAX {
                                    usize::MAX
                                } else {
                                    (self.page + 1) as usize
                                },
                                tried: 0,
                                ..more
                            },
                        )
                    }
                },
            }
        }
    }

    /// What the failure of a request for a page leads to.
    pub open spec fn after_failure(self, e: ErrorView) -> SearchStepView {
        if self.fallback && self.tried + 1 < self.keys {
            SearchStepView::Ask(AssetSearchView { tried: (self.tried + 1) as usize, ..self })
        } else {
            SearchStepView::Done(Err(e))
        }
    }

    /// What a reply leads to.
    pub open spec fn after(
        self,
        reply: ApiReply<Result<AssetSearchResponse, String>>,
    ) -> SearchStepView {
        match reply {
            ApiReply::Granted(Ok(response)) => self.after_page(
                item_ids(response.assets.items@),
                response.assets.next_page is None,
            ),
            ApiReply::Granted(Err(error)) => SearchStepView::Done(
                Err(ErrorView::JsonParsing { filename: "assets_list"@, error: error@ }),
            ),
            _ => self.after_failure(keyed_call::refusal("assets_list"@, reply)->0),
        }
    }
}

/// A listing that begins with the first page of the first key's library.
pub open spec fn search_start(
    url: Seq<char>,
    since: Option<Seq<char>>,
    fallback: bool,
    keys: usize,
) -> AssetSearchView {
    AssetSearchView {
        url,
        since,
        fallback,
        keys,
        owner: 0,
        page: 1,
        tried: 0,
        found: Seq::empty(),
    }
}

/// The content of a result of beginning a listing.
pub open spec fn search_result_view(search: Result<AssetSearch, ImageAnalysisError>) -> Result<
    AssetSearchView,
    ErrorView,
> {
    error::result_view(search, |s: AssetSearch| s@)
}

/// The listing that is begun on a search endpoint, or why it cannot be.
pub open spec fn search_begun(
    joined: Result<Seq<char>, Seq<char>>,
    since: Option<Seq<char>>,
    fallback: bool,
    keys: usize,
) -> Result<AssetSearchView, ErrorView> {
    match immich_api::configured(joined) {
        Ok(url) => Ok(search_start(url, since, fallback, keys)),
        Err(e) => Err(e),
    }
}

impl ImmichApiProvider {
    fn search_assets_paginated(&self, since: Option<String>, fallback: bool) -> (search: Result<
        AssetSearch,
        ImageAnalysisError,
    >)
        requires
            self.wf(),
        ensures
            search_result_view(search) == search_begun(
                http::url_join(self@.base_url, "/api/search/metadata"@),
                text::option_view(since),
                fallback,
                self@.api_keys.len() as usize,
            ),
            search matches Ok(s) ==> s@.wf(),
    {
        proof {
            self.lemma_wf();
        }
        let keys: usize = self.key_count();
        match self.endpoint("/api/search/metadata") {
            Ok(url) => {
                let search = AssetSearch {
                    url,
                    since,
                    fallback,
                    keys,
                    owner: 0,
                    page: 1,
                    tried: 0,
                    found: Vec::new(),
                };
                assert(search@ =~= search_start(
                    url@,
                    text::option_view(since),
                    fallback,
                    keys,
                ));
                Ok(search)
            },
            Err(e) => Err(e),
        }
    }

    /// Begins to fetch all assets from the Immich library.
    ///
    /// Fully paginates each API key separately (multi-user support).
    /// Tries all keys for each page request on failure.
    pub fn get_assets(&self) -> (search: Result<AssetSearch, ImageAnalysisError>)
        requires
            self.wf(),
        ensures
            search_result_view(search) == search_begun(
                http::url_join(self@.base_url, "/api/search/metadata"@),
                None,
                true,
                self@.api_keys.len() as usize,
            ),
            search matches Ok(s) ==> s@.wf(),
    {
        self.search_assets_paginated(None, true)
    }

    /// Begins to fetch the assets created after a specific timestamp.
    ///
    /// Uses the `createdAfter` filter to retrieve only assets added to Immich
    /// after the specified date. Fully paginates each API key separately
    /// (multi-user support).
    ///
    /// # Arguments
    /// * `since` - ISO 8601 formatted datetime string (e.g., "2024-01-15T10:30:00.000Z")
    pub fn get_assets_since_timestamp(&self, since: &str) -> (search: Result<
        AssetSearch,
        ImageAnalysisError,
    >)
        requires
            self.wf(),
        ensures
            search_result_view(search) == search_begun(
                http::url_join(self@.base_url, "/api/search/metadata"@),
                Some(since@),
                false,
                self@.api_keys.len() as usize,
            ),
            search matches Ok(s) ==> s@.wf(),
    {
        self.search_assets_paginated(Some(since.to_owned()), false)
    }
}

impl AssetSearch {
    /// The URL to post to.
    pub fn url(&self) -> (url: &str)
        ensures
            url@ == self@.url,
    {
        self.url.as_str()
    }

    /// The key to ask with.
    pub fn key(&self) -> (key: usize)
        ensures
            key == key_to_ask(self@.owner, self@.tried),
    {
        if self.tried == 0 {
            self.owner
        } else if self.tried <= self.owner {
            self.tried - 1
        } else {
            self.tried
        }
    }

    /// The JSON to post.
    pub fn body(&self) -> (body: Json)
        ensures
            body@ == page_body(self@.page, self@.since),
    {
        let body = Json::object().with("page", Json::number(self.page as u64)).with(
            "size",
            Json::number(PAGE_SIZE),
        ).with("withExif", Json::Bool(true));
        match &self.since {
            Some(moment) => body.with("createdAfter", Json::text(moment.as_str())),
            None => body,
        }
    }

    /// Goes on to the next key's library, or ends.
    fn end_library(self) -> (step: SearchStep)
        requires
            self@.wf(),
        ensures
            step@ == self@.after_library(),
            step matches SearchStep::Ask(next) ==> next@.wf(),
    {
        if self.owner + 1 < self.keys {
            SearchStep::Ask(AssetSearch { owner: self.owner + 1, page: 1, tried: 0, ..self })
        } else {
            SearchStep::Done(Ok(self.found))
        }
    }

    /// Adds the assets of a page.
    fn take_page(self, page: AssetSearchResult) -> (step: SearchStep)
        requires
            self@.wf(),
        ensures
            step@ == self@.after_page(item_ids(page.items@), page.next_page is None),
            step matches SearchStep::Ask(next) ==> next@.wf(),
    {
        let total: usize = page.items.len();
        if total == 0 {
            return self.end_library();
        }
        let ghost ids = item_ids(page.items@);
        let ghost before = self@;
        let mut search = self;
        let mut i: usize = 0;
        assert(ids.skip(0) =~= ids);
        while i < total
            invariant
                i <= total == page.items@.len(),
                ids == item_ids(page.items@),
                before == self@,
                search@ == (AssetSearchView { found: search@.found, ..before }),
                search@.found + readable_assets(ids.skip(i as int)) == before.found
                    + readable_assets(ids),
                unreadable_id(ids) == unreadable_id(ids.skip(i as int)),
                ids.len() > 0,
            decreases total - i,
        {
            let id = page.items[i].id.as_str();
            let ghost rest = ids.skip(i as int);
            assert(rest[0] == id@);
            assert(rest.drop_first() =~= ids.skip(i + 1));
            match asset_ref(id, read_id(id)) {
                Ok(asset) => {
                    let ghost found = search@.found;
                    search.found.push(asset);
                    assert(search@.found + readable_assets(ids.skip(i + 1)) =~= found + (
                    seq![asset] + readable_assets(ids.skip(i + 1))));
                },
                Err(e) => {
                    return SearchStep::Done(Err(e));
                },
            }
            i += 1;
        }
        assert(ids.skip(total as int).len() == 0);
        assert(search@.found =~= before.found + readable_assets(ids));
        if page.next_page.is_none() {
            search.end_library()
        } else {
            search.page = search.page.saturating_add(1);
            search.tried = 0;
            SearchStep::Ask(search)
        }
    }

    /// Takes the reply to the request for a page.
    pub fn on_reply(self, reply: ApiReply<Result<AssetSearchResponse, String>>) -> (step: SearchStep)
        requires
            self@.wf(),
        ensures
            step@ == self@.after(reply),
            step matches SearchStep::Ask(next) ==> next@.wf(),
    {
        match granted("assets_list", reply) {
            Ok(Ok(response)) => self.take_page(response.assets),
            Ok(Err(error)) => SearchStep::Done(
                Err(ImageAnalysisError::JsonParsing { filename: "assets_list".to_owned(), error }),
            ),
            Err(e) => {
                if self.fallback && self.tried + 1 < self.keys {
                    SearchStep::Ask(AssetSearch { tried: self.tried + 1, ..self })
                } else {
                    SearchStep::Done(Err(e))
                }
            },
        }
    }
}

/// What a series of replies leads to.
pub open spec fn listed(
    search: AssetSearchView,
    replies: Seq<ApiReply<Result<AssetSearchResponse, String>>>,
) -> SearchStepView
    decreases replies.len(),
{
    if replies.len() == 0 {
        SearchStepView::Ask(search)
    } else {
        match search.after(replies[0]) {
            SearchStepView::Ask(next) => listed(next, replies.drop_first()),
            done => done,
        }
    }
}

/// The assets on the page that a reply brings.
pub open spec fn page_assets(reply: ApiReply<Result<AssetSearchResponse, String>>) -> Seq<AssetRef> {
    match reply {
        ApiReply::Granted(Ok(response)) => readable_assets(item_ids(response.assets.items@)),
        _ => Seq::empty(),
    }
}

/// The assets on all pages that come until the listing is over, page after page.
pub open spec fn gathered(
    search: AssetSearchView,
    replies: Seq<ApiReply<Result<AssetSearchResponse, String>>>,
) -> Seq<AssetRef>
    decreases replies.len(),
{
    if replies.len() == 0 {
        Seq::empty()
    } else {
        match search.after(replies[0]) {
            SearchStepView::Ask(next) => page_assets(replies[0]) + gathered(
                next,
                replies.drop_first(),
            ),
            SearchStepView::Done(_) => page_assets(replies[0]),
        }
    }
}

/// A listing that succeeds holds the assets of every page that came, in the
/// order in which they came: none is lost, and none is added.
pub proof fn law_listing_gathers_every_page(
    search: AssetSearchView,
    replies: Seq<ApiReply<Result<AssetSearchResponse, String>>>,
    assets: Seq<AssetRef>,
)
    requires
        listed(search, replies) == SearchStepView::Done(Ok(assets)),
    ensures
        assets == search.found + gathered(search, replies),
    decreases replies.len(),
{
    let page = page_assets(replies[0]);
    match search.after(replies[0]) {
        SearchStepView::Ask(next) => {
            law_listing_gathers_every_page(next, replies.drop_first(), assets);
            assert(next.found =~= search.found + page);
            assert(assets =~= search.found + gathered(search, replies));
        },
        SearchStepView::Done(_) => {
            assert(assets =~= search.found + page);
        },
    }
}

/// Libraries are read one key after the other, each from its first page on and
/// page by page; only the end of the last key's library ends a listing without
/// an error. A listing fails only when a page could not be had or read, or names
/// an asset by something that is not a UUID.
pub proof fn law_libraries_are_read_to_their_end(
    search: AssetSearchView,
    reply: ApiReply<Result<AssetSearchResponse, String>>,
)
    requires
        search.wf(),
        search.page < usize::MAX,
    ensures
        match search.after(reply) {
            SearchStepView::Ask(next) => {
                ||| next.owner == search.owner && next.page == search.page + 1 && next.tried == 0
                ||| next.owner == search.owner && next.page == search.page && next.tried
                    == search.tried + 1
                ||| next.owner == search.owner + 1 && next.page == 1 && next.tried == 0
            },
            SearchStepView::Done(Ok(_)) => {
                &&& search.owner + 1 == search.keys
                &&& reply matches ApiReply::Granted(Ok(response))
                &&& response.assets.items@.len() == 0 || response.assets.next_page is None
            },
            SearchStepView::Done(Err(_)) => match reply {
                ApiReply::Granted(Ok(response)) => unreadable_id(
                    item_ids(response.assets.items@),
                ) is Some,
                _ => true,
            },
        },
{
}

/// `key` is asked with after some number of failures.
pub open spec fn takes_its_turn(search: AssetSearchView, key: usize) -> bool {
    exists|tried: usize| tried < search.keys && #[trigger] key_to_ask(search.owner, tried) == key
}

/// A listing that falls back on other keys gives a page up only when every key
/// has been tried for it: first the key whose library is read, then each of the
/// others, once.
pub proof fn law_fallback_tries_every_key(search: AssetSearchView, e: ErrorView)
    requires
        search.wf(),
        search.fallback,
    ensures
        search.after_failure(e) is Done <==> search.tried + 1 == search.keys,
        key_to_ask(search.owner, 0) == search.owner,
        forall|a: usize, b: usize|
            a < search.keys && b < search.keys && key_to_ask(search.owner, a) == key_to_ask(
                search.owner,
                b,
            ) ==> a == b,
        forall|key: usize| key < search.keys ==> #[trigger] takes_its_turn(search, key),
{
    assert forall|key: usize| key < search.keys implies #[trigger] takes_its_turn(search, key) by {
        let tried = if key == search.owner {
            0usize
        } else if key < search.owner {
            (key + 1) as usize
        } else {
            key
        };
        assert(key_to_ask(search.owner, tried) == key);
    }
}

/// Every page is asked for by its number, and filtered: the request is an object
/// of the page's number, the size 1000, the wish for EXIF data and, exactly if
/// the listing is one since a moment, that moment as `createdAfter`.
pub proof fn law_every_page_is_filtered(page: usize, since: Option<Seq<char>>)
    ensures
        ({
            let members = page_body(page, since)->Object_0;
            &&& page_body(page, since) is Object
            &&& members.len() == if since is Some {
                4int
            } else {
                3
            }
            &&& members[0].name == "page"@
            &&& members[0].value matches JsonView::Number(n)
            &&& exact_time::numeral(n)
            &&& exact_time::shortest(n, 1)
            &&& exact_time::spelled(n) == page
            &&& members[1] == (MemberView { name: "size"@, value: JsonView::Number("1000"@) })
            &&& members[2] == (MemberView { name: "withExif"@, value: JsonView::Bool(true) })
            &&& since matches Some(moment) ==> members[3] == (MemberView {
                name: "createdAfter"@,
                value: JsonView::Text(moment),
            })
        }),
{
    exact_time::law_decimal_spells_its_number(page as nat);
    reveal_strlit("1000");
    reveal_with_fuel(text::decimal, 5);
    assert(text::decimal(1000) =~= "1000"@);
}

/// The requests for two pages of a listing differ in the page's number only.
pub proof fn law_pages_differ_in_their_number_only(p: usize, q: usize, since: Option<Seq<char>>)
    ensures
        ({
            let a = page_body(p, since)->Object_0;
            let b = page_body(q, since)->Object_0;
            &&& a.len() == b.len()
            &&& forall|i: int| 1 <= i < a.len() ==> a[i] == #[trigger] b[i]
            &&& a[0].name == b[0].name
        }),
        p != q ==> page_body(p, since) != page_body(q, since),
{
    law_every_page_is_filtered(p, since);
    law_every_page_is_filtered(q, since);
    let a = page_body(p, since)->Object_0;
    let b = page_body(q, since)->Object_0;
    assert(a[2] == b[2]);
    if p != q {
        assert(a[0].value != b[0].value);
    }
}

/// A listing stays what it was begun as: whatever is answered, the moment since
/// which assets are listed, the address and the keys are kept, and assets that
/// were found stay found.
pub proof fn law_listing_keeps_its_purpose(
    search: AssetSearchView,
    reply: ApiReply<Result<AssetSearchResponse, String>>,
)
    ensures
        search.after(reply) matches SearchStepView::Ask(next) ==> {
            &&& next.since == search.since
            &&& next.url == search.url
            &&& next.keys == search.keys
            &&& next.fallback == search.fallback
            &&& search.found.is_prefix_of(next.found)
        },
        search.after(reply) matches SearchStepView::Done(Ok(found)) ==> search.found.is_prefix_of(
            found,
        ),
{
}

/// Every identifier is a UUID.
pub open spec fn all_readable(ids: Seq<Seq<char>>) -> bool {
    forall|i: int| 0 <= i < ids.len() ==> ids::uuid_parse(#[trigger] ids[i]) is Some
}

/// The assets are those that the identifiers stand for, one for one.
pub open spec fn stand_for(assets: Seq<AssetRef>, ids: Seq<Seq<char>>) -> bool {
    &&& assets.len() == ids.len()
    &&& forall|i: int|
        0 <= i < ids.len() ==> ids::uuid_parse(ids[i]) == Some((#[trigger] assets[i]).id)
}

proof fn lemma_readable(ids: Seq<Seq<char>>)
    requires
        all_readable(ids),
    ensures
        unreadable_id(ids) is None,
        stand_for(readable_assets(ids), ids),
    decreases ids.len(),
{
    if ids.len() > 0 {
        let rest = ids.drop_first();
        assert(ids::uuid_parse(ids[0]) is Some);
        assert forall|i: int| 0 <= i < rest.len() implies ids::uuid_parse(
            #[trigger] rest[i],
        ) is Some by {
            assert(rest[i] == ids[i + 1]);
        }
        lemma_readable(rest);
        let all = readable_assets(ids);
        let others = readable_assets(rest);
        assert forall|i: int| 0 <= i < ids.len() implies ids::uuid_parse(ids[i]) == Some(
            (#[trigger] all[i]).id,
        ) by {
            if i > 0 {
                assert(all[i] == others[i - 1]);
                assert(rest[i - 1] == ids[i]);
            }
        }
    }
}

proof fn lemma_unreadable(ids: Seq<Seq<char>>, k: int)
    requires
        0 <= k < ids.len(),
        ids::uuid_parse(ids[k]) is None,
        forall|i: int| 0 <= i < k ==> ids::uuid_parse(#[trigger] ids[i]) is Some,
    ensures
        unreadable_id(ids) == Some(ids[k]),
    decreases k,
{
    if k > 0 {
        assert(ids::uuid_parse(ids[0]) is Some);
        let rest = ids.drop_first();
        assert forall|i: int| 0 <= i < k - 1 implies ids::uuid_parse(
            #[trigger] rest[i],
        ) is Some by {
            assert(rest[i] == ids[i + 1]);
        }
        lemma_unreadable(rest, k - 1);
    }
}

/// What a page brings is added, asset for asset. Then the next page of the same
/// library is asked for if one is announced, and otherwise the first page of the
/// next key's library; after the last library the listing is what was found. An
/// empty page ends its library, whatever it announces.
pub proof fn law_pages_are_taken_in_full(search: AssetSearchView, response: AssetSearchResponse)
    requires
        search.wf(),
        all_readable(item_ids(response.assets.items@)),
    ensures
        ({
            let ids = item_ids(response.assets.items@);
            let more = ids.len() > 0 && response.assets.next_page is Some;
            match search.after(ApiReply::Granted(Ok(response))) {
                SearchStepView::Ask(next) => {
                    &&& more || search.owner + 1 < search.keys
                    &&& next.found.len() >= search.found.len()
                    &&& next.found.take(search.found.len() as int) == search.found
                    &&& stand_for(next.found.skip(search.found.len() as int), ids)
                    &&& next.tried == 0
                    &&& more ==> next.owner == search.owner && (search.page < usize::MAX
                        ==> next.page == search.page + 1)
                    &&& !more ==> next.owner == search.owner + 1 && next.page == 1
                },
                SearchStepView::Done(Ok(found)) => {
                    &&& !more
                    &&& search.owner + 1 == search.keys
                    &&& found.len() >= search.found.len()
                    &&& found.take(search.found.len() as int) == search.found
                    &&& stand_for(found.skip(search.found.len() as int), ids)
                },
                SearchStepView::Done(Err(_)) => false,
            }
        }),
{
    let ids = item_ids(response.assets.items@);
    let before = search.found;
    lemma_readable(ids);
    let new = readable_assets(ids);
    assert((before + new).take(before.len() as int) =~= before);
    assert((before + new).skip(before.len() as int) =~= new);
    assert(before.take(before.len() as int) =~= before);
    if ids.len() == 0 {
        assert(before.skip(before.len() as int) =~= new);
    }
}

/// A page that names an asset by something that is not a UUID ends the listing
/// with the first such name.
pub proof fn law_bad_names_are_reported(
    search: AssetSearchView,
    response: AssetSearchResponse,
    k: int,
)
    requires
        0 <= k < response.assets.items@.len(),
        ids::uuid_parse(response.assets.items@[k].id@) is None,
        forall|i: int|
            0 <= i < k ==> ids::uuid_parse((#[trigger] response.assets.items@[i]).id@) is Some,
    ensures
        search.after(ApiReply::Granted(Ok(response))) == SearchStepView::Done(
            Err(ErrorView::InvalidUuid { filename: response.assets.items@[k].id@ }),
        ),
{
    let ids = item_ids(response.assets.items@);
    assert forall|i: int| 0 <= i < k implies ids::uuid_parse(#[trigger] ids[i]) is Some by {
        assert(ids::uuid_parse(response.assets.items@[i].id@) is Some);
    }
    lemma_unreadable(ids, k);
}

/// A page that could not be had is asked for again with the next key, in a
/// listing that falls back and has keys left; otherwise the listing fails with
/// the error of that request. A page that is not readable fails the listing.
pub proof fn law_missing_pages_are_asked_for_again(
    search: AssetSearchView,
    reply: ApiReply<Result<AssetSearchResponse, String>>,
)
    requires
        search.wf(),
    ensures
        match reply {
            ApiReply::Granted(Ok(_)) => true,
            ApiReply::Granted(Err(error)) => search.after(reply) == SearchStepView::Done(
                Err(ErrorView::JsonParsing { filename: "assets_list"@, error: error@ }),
            ),
            _ => if search.fallback && search.tried + 1 < search.keys {
                search.after(reply) == SearchStepView::Ask(
                    AssetSearchView { tried: (search.tried + 1) as usize, ..search },
                )
            } else {
                &&& search.after(reply) matches SearchStepView::Done(Err(e))
                &&& match reply {
                    ApiReply::NoResponse { error } => e == (ErrorView::HttpError {
                        status: 0,
                        filename: "assets_list"@,
                        response: error@,
                    }),
                    ApiReply::Refused { status, body } => e == (ErrorView::HttpError {
                        status,
                        filename: "assets_list"@,
                        response: match body {
                            Ok(t) => t@,
                            Err(_) => Seq::empty(),
                        },
                    }),
                    _ => true,
                }
            },
        },
{
}

/// A listing begins at the first page of the first key's library, with nothing found.
pub proof fn law_listing_begins_at_the_beginning(
    url: Seq<char>,
    since: Option<Seq<char>>,
    fallback: bool,
    keys: usize,
)
    ensures
        search_begun(Ok(url), since, fallback, keys) matches Ok(search) && search.owner == 0
            && search.page == 1 && search.tried == 0 && search.found.len() == 0 && search.since
            == since && search.url == url && search.keys == keys && search.fallback == fallback
            && key_to_ask(search.owner, search.tried) == 0,
        forall|error: Seq<char>| #[trigger]
            search_begun(Err(error), since, fallback, keys) == Err::<AssetSearchView, ErrorView>(
                ErrorView::InvalidConfig { error },
            ),
{
}

} // verus!
