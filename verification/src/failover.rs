//! What holds of an analysis as a whole: how hosts are passed over, how rounds
//! are repeated, and which answer decides.
use crate::error::ErrorView;
use crate::host_manager;
use crate::host_manager::HostManagerView;
use crate::ids;
use crate::interface;
use crate::interface::Interface;
use crate::json;
use crate::json::JsonView;
use crate::request;
use crate::request::{AnalysisRequestView, ReplyOutcomeView, RoundEnd, ServiceReplyView};
use crate::text;
use crate::unavailable;
use vstd::prelude::*;

verus! {

/// How far an analysis has come.
pub enum Progress {
    /// A host is still to be asked.
    Waiting(AnalysisRequestView),
    /// The analysis is over.
    Over(Result<(Seq<char>, u128), ErrorView>),
}

/// How far an analysis comes with the given replies, one for each host that is
/// asked. There is at least one host.
pub open spec fn progress(
    hosts: nat,
    limit: Option<u32>,
    interface: Interface,
    request: AnalysisRequestView,
    replies: Seq<ServiceReplyView>,
) -> Progress
    decreases
            replies.len(),
            if request.tried < hosts {
                0int
            } else {
                1int
            },
{
    if request.tried < hosts {
        if replies.len() == 0 {
            Progress::Waiting(request)
        } else {
            match request.judged(interface, replies[0]) {
                ReplyOutcomeView::Finished(Ok(description)) => Progress::Over(
                    Ok((description, request.asset_id)),
                ),
                ReplyOutcomeView::Finished(Err(e)) => Progress::Over(Err(e)),
                ReplyOutcomeView::TryNext(e) => progress(
                    hosts,
                    limit,
                    interface,
                    request.after_failure(e),
                    replies.drop_first(),
                ),
            }
        }
    } else {
        match request.round_end(limit) {
            RoundEnd::Over(e) => Progress::Over(Err(e)),
            RoundEnd::Again(next) => if hosts == 0 {
                Progress::Waiting(next)
            } else {
                progress(hosts, limit, interface, next, replies)
            },
        }
    }
}

/// How many more hosts may be asked when at most `limit` rounds are made.
pub open spec fn asks_left(hosts: nat, limit: u32, request: AnalysisRequestView) -> int {
    (limit - request.attempt) * hosts + hosts - request.tried
}

proof fn lemma_asks_left(hosts: nat, limit: u32, request: AnalysisRequestView)
    requires
        hosts <= usize::MAX,
        1 <= request.attempt <= limit,
    ensures
        request.tried < hosts ==> forall|e: ErrorView| #[trigger]
            asks_left(hosts, limit, request.after_failure(e)) == asks_left(hosts, limit, request)
                - 1,
        request.tried == hosts && request.attempt < limit ==> asks_left(
            hosts,
            limit,
            (AnalysisRequestView { attempt: (request.attempt + 1) as u32, tried: 0, ..request }),
        ) == asks_left(hosts, limit, request),
        request.tried < hosts ==> asks_left(hosts, limit, request) > 0,
        request.tried <= hosts ==> asks_left(hosts, limit, request) >= 0,
        request.attempt == limit ==> asks_left(hosts, limit, request) == hosts - request.tried,
{
    let a = request.attempt as int;
    let l = limit as int;
    let h = hosts as int;
    assert((l - a) * h >= 0) by (nonlinear_arith)
        requires
            l >= a,
            h >= 0,
    ;
    assert((l - (a + 1)) * h + h == (l - a) * h) by (nonlinear_arith);
    assert(a == l ==> (l - a) * h == 0) by (nonlinear_arith);
}

proof fn lemma_ends(
    hosts: nat,
    limit: u32,
    interface: Interface,
    request: AnalysisRequestView,
    replies: Seq<ServiceReplyView>,
)
    requires
        0 < hosts <= usize::MAX,
        1 <= request.attempt <= limit,
        request.tried <= hosts,
        replies.len() >= asks_left(hosts, limit, request),
    ensures
        progress(hosts, Some(limit), interface, request, replies) is Over,
    decreases
            replies.len(),
            if request.tried < hosts {
                0int
            } else {
                1int
            },
{
    lemma_asks_left(hosts, limit, request);
    if request.tried < hosts {
        match request.judged(interface, replies[0]) {
            ReplyOutcomeView::TryNext(e) => {
                lemma_ends(
                    hosts,
                    limit,
                    interface,
                    request.after_failure(e),
                    replies.drop_first(),
                );
            },
            _ => {},
        }
    } else {
        match request.round_end(Some(limit)) {
            RoundEnd::Over(e) => {},
            RoundEnd::Again(next) => {
                lemma_ends(hosts, limit, interface, next, replies);
            },
        }
    }
}

/// With a limit of `limit` rounds, an analysis asks at most `limit` times as
/// many hosts as there are: after that many replies it is over, whatever they were.
pub proof fn law_limited_analysis_ends(
    hosts: nat,
    limit: u32,
    interface: Interface,
    asset_id: u128,
    body: JsonView,
    reject_truncated: bool,
    replies: Seq<ServiceReplyView>,
)
    requires
        0 < hosts <= usize::MAX,
        limit > 0,
        replies.len() >= limit * hosts,
    ensures
        progress(
            hosts,
            Some(limit),
            interface,
            request::fresh_request(asset_id, body, reject_truncated),
            replies,
        ) is Over,
{
    let request = request::fresh_request(asset_id, body, reject_truncated);
    assert((limit - 1) * hosts + hosts == limit * hosts) by (nonlinear_arith);
    lemma_ends(hosts, limit, interface, request, replies);
}

/// `reply` fails with an error that is worth another try.
pub open spec fn fails_for_now(
    interface: Interface,
    request: AnalysisRequestView,
    reply: ServiceReplyView,
) -> bool {
    request.judged(interface, reply) matches ReplyOutcomeView::TryNext(e) && e.retryable()
}

/// The result that a reply decides on.
pub open spec fn decided(
    interface: Interface,
    request: AnalysisRequestView,
    reply: ServiceReplyView,
) -> Result<(Seq<char>, u128), ErrorView> {
    match request.judged(interface, reply) {
        ReplyOutcomeView::Finished(Ok(description)) => Ok((description, request.asset_id)),
        ReplyOutcomeView::Finished(Err(e)) => Err(e),
        ReplyOutcomeView::TryNext(e) => Err(e),
    }
}

proof fn lemma_first_decides(
    hosts: nat,
    limit: Option<u32>,
    interface: Interface,
    request: AnalysisRequestView,
    replies: Seq<ServiceReplyView>,
    k: int,
)
    requires
        0 < hosts <= usize::MAX,
        request.tried <= hosts,
        1 <= request.attempt,
        limit is Some ==> request.attempt <= limit->0 && k < asks_left(hosts, limit->0, request),
        request.last_error is Some ==> request.last_error->0.retryable(),
        0 <= k < replies.len(),
        forall|j: int| 0 <= j < k ==> fails_for_now(interface, request, #[trigger] replies[j]),
        request.judged(interface, replies[k]) is Finished,
    ensures
        progress(hosts, limit, interface, request, replies) == Progress::Over(
            decided(interface, request, replies[k]),
        ),
    decreases
            k,
            if request.tried < hosts {
                0int
            } else {
                1int
            },
{
    if limit is Some {
        lemma_asks_left(hosts, limit->0, request);
    }
    if request.tried < hosts {
        if k > 0 {
            assert(fails_for_now(interface, request, replies[0]));
            let e = request.judged(interface, replies[0])->TryNext_0;
            let next = request.after_failure(e);
            let rest = replies.drop_first();
            assert(rest[k - 1] == replies[k]);
            assert forall|j: int| 0 <= j < k - 1 implies fails_for_now(
                interface,
                next,
                #[trigger] rest[j],
            ) by {
                assert(rest[j] == replies[j + 1]);
                assert(fails_for_now(interface, request, replies[j + 1]));
            }
            lemma_first_decides(hosts, limit, interface, next, rest, k - 1);
        }
    } else {
        let next = request.round_end(limit)->Again_0;
        assert forall|j: int| 0 <= j < k implies fails_for_now(
            interface,
            next,
            #[trigger] replies[j],
        ) by {
            assert(fails_for_now(interface, request, replies[j]));
        }
        lemma_first_decides(hosts, limit, interface, next, replies, k);
    }
}

/// Failover: while hosts fail with errors that are worth another try, the
/// analysis goes on, over all hosts and all rounds that the limit allows; the
/// first reply that decides gives the result.
pub proof fn law_first_deciding_reply_counts(
    hosts: nat,
    limit: Option<u32>,
    interface: Interface,
    asset_id: u128,
    body: JsonView,
    reject_truncated: bool,
    replies: Seq<ServiceReplyView>,
    k: int,
)
    requires
        0 < hosts <= usize::MAX,
        limit != Some(0u32),
        0 <= k < replies.len(),
        limit is Some ==> k < limit->0 * hosts,
        forall|j: int|
            0 <= j < k ==> fails_for_now(
                interface,
                request::fresh_request(asset_id, body, reject_truncated),
                #[trigger] replies[j],
            ),
        request::fresh_request(asset_id, body, reject_truncated).judged(
            interface,
            replies[k],
        ) is Finished,
    ensures
        progress(
            hosts,
            limit,
            interface,
            request::fresh_request(asset_id, body, reject_truncated),
            replies,
        ) == Progress::Over(
            decided(
                interface,
                request::fresh_request(asset_id, body, reject_truncated),
                replies[k],
            ),
        ),
{
    let request = request::fresh_request(asset_id, body, reject_truncated);
    if limit is Some {
        let l = limit->0;
        assert((l - 1) * hosts + hosts == l * hosts) by (nonlinear_arith);
    }
    lemma_first_decides(hosts, limit, interface, request, replies, k);
}

/// Only an error that is worth another try leads to the next host: an empty
/// answer, one that is not JSON or has no content, or a refusal of the request
/// does not.
pub proof fn law_only_retryable_errors_lead_on(
    interface: Interface,
    filename: Seq<char>,
    reject_truncated: bool,
    reply: ServiceReplyView,
)
    ensures
        request::judged_reply(interface, filename, reject_truncated, reply)
            matches ReplyOutcomeView::TryNext(e) ==> e.retryable(),
{
}

/// An error that is not worth another try fails immediately: the analysis ends
/// with it after the request that brought it, whatever the limit and however
/// many hosts are left.
pub proof fn law_hopeless_errors_are_not_retried(
    hosts: nat,
    limit: Option<u32>,
    interface: Interface,
    request: AnalysisRequestView,
    replies: Seq<ServiceReplyView>,
    e: ErrorView,
)
    requires
        request.tried < hosts,
        replies.len() > 0,
        decided(interface, request, replies[0]) == Err::<(Seq<char>, u128), ErrorView>(e),
        !e.retryable(),
    ensures
        progress(hosts, limit, interface, request, replies) == Progress::Over(
            Err::<(Seq<char>, u128), ErrorView>(e),
        ),
{
}

proof fn lemma_exhausted(
    hosts: nat,
    limit: u32,
    interface: Interface,
    request: AnalysisRequestView,
    replies: Seq<ServiceReplyView>,
)
    requires
        0 < hosts <= usize::MAX,
        1 <= request.attempt <= limit,
        request.tried <= hosts,
        request.tried == hosts ==> request.last_error is Some,
        request.last_error is Some ==> request.last_error->0.retryable(),
        forall|j: int|
            0 <= j < replies.len() ==> fails_for_now(interface, request, #[trigger] replies[j]),
    ensures
        ({
            let left = asks_left(hosts, limit, request);
            let end = progress(hosts, Some(limit), interface, request, replies);
            &&& replies.len() < left ==> end is Waiting
            &&& 0 < left <= replies.len() ==> end == Progress::Over(
                decided(interface, request, replies[left - 1]),
            )
            &&& left == 0 ==> end == Progress::Over(
                Err::<(Seq<char>, u128), ErrorView>(request.last_error->0),
            )
        }),
    decreases
            replies.len(),
            if request.tried < hosts {
                0int
            } else {
                1int
            },
{
    lemma_asks_left(hosts, limit, request);
    if request.tried < hosts {
        if replies.len() > 0 {
            assert(fails_for_now(interface, request, replies[0]));
            let e = request.judged(interface, replies[0])->TryNext_0;
            let next = request.after_failure(e);
            let rest = replies.drop_first();
            assert forall|j: int| 0 <= j < rest.len() implies fails_for_now(
                interface,
                next,
                #[trigger] rest[j],
            ) by {
                assert(rest[j] == replies[j + 1]);
                assert(fails_for_now(interface, request, replies[j + 1]));
            }
            lemma_exhausted(hosts, limit, interface, next, rest);
            lemma_asks_left(hosts, limit, next);
            let left = asks_left(hosts, limit, request);
            assert(asks_left(hosts, limit, next) == left - 1);
            if 1 < left <= replies.len() {
                assert(rest[left - 2] == replies[left - 1]);
            }
        }
    } else if request.attempt < limit {
        let next = request.round_end(Some(limit))->Again_0;
        assert forall|j: int| 0 <= j < replies.len() implies fails_for_now(
            interface,
            next,
            #[trigger] replies[j],
        ) by {
            assert(fails_for_now(interface, request, replies[j]));
        }
        lemma_exhausted(hosts, limit, interface, next, replies);
        lemma_asks_left(hosts, limit, next);
    }
}

/// While every reply is worth another try, every host is asked in every round
/// that the limit allows: the analysis goes on until exactly `limit` times as many
/// requests were made as there are hosts, and then ends with the error of the
/// last of them.
pub proof fn law_every_round_asks_every_host(
    hosts: nat,
    limit: u32,
    interface: Interface,
    asset_id: u128,
    body: JsonView,
    reject_truncated: bool,
    replies: Seq<ServiceReplyView>,
)
    requires
        0 < hosts <= usize::MAX,
        limit > 0,
        forall|j: int|
            0 <= j < replies.len() ==> fails_for_now(
                interface,
                request::fresh_request(asset_id, body, reject_truncated),
                #[trigger] replies[j],
            ),
    ensures
        ({
            let request = request::fresh_request(asset_id, body, reject_truncated);
            let end = progress(hosts, Some(limit), interface, request, replies);
            &&& replies.len() < limit * hosts ==> end is Waiting
            &&& replies.len() >= limit * hosts ==> end == Progress::Over(
                decided(interface, request, replies[limit * hosts - 1]),
            )
        }),
{
    let request = request::fresh_request(asset_id, body, reject_truncated);
    assert((limit - 1) * hosts + hosts == limit * hosts) by (nonlinear_arith);
    lemma_asks_left(hosts, limit, request);
    lemma_exhausted(hosts, limit, interface, request, replies);
}

/// Another round is made only after errors that are worth another try, and only
/// below the limit.
pub proof fn law_rounds_follow_retryable_errors(request: AnalysisRequestView, limit: Option<u32>)
    requires
        request.round_end(limit) is Again,
    ensures
        request.last_error is Some ==> request.last_error->0.retryable(),
        limit is Some ==> request.attempt < limit->0,
        request.round_end(limit)->Again_0.tried == 0,
        request.round_end(limit)->Again_0.body == request.body,
{
}

/// A host that has failed is not asked again before `unavailable_duration` has
/// passed, as long as another host is available.
pub proof fn law_failed_host_is_avoided(
    manager: HostManagerView,
    failed: Seq<char>,
    since: u128,
    now: u128,
    other: int,
    host: Seq<char>,
)
    requires
        unavailable::still_away(since, now, manager.unavailable_duration),
        0 <= other < manager.hosts.len(),
        !manager.with_unavailable(manager.unavailable.insert(failed, since)).recent(
            now,
        ).contains_key(manager.hosts[other]),
        host_manager::host_to_ask(
            manager.hosts,
            manager.with_unavailable(manager.unavailable.insert(failed, since)).recent(now),
            host,
        ),
    ensures
        host != failed,
        manager.hosts.contains(host),
{
    let marks = manager.with_unavailable(manager.unavailable.insert(failed, since)).recent(now);
    assert(marks.contains_key(failed));
    assert(!host_manager::none_available(manager.hosts, marks));
    let i = choose|i: int| #[trigger]
        host_manager::first_available(manager.hosts, marks, i) && manager.hosts[i] == host;
    assert(manager.hosts[i] == host);
}

/// A host recovers: once `unavailable_duration` has passed since its mark, the
/// host counts as available again.
pub proof fn law_host_recovers(manager: HostManagerView, host: Seq<char>, since: u128, now: u128)
    requires
        now >= since,
        now - since >= manager.unavailable_duration,
    ensures
        !manager.with_unavailable(manager.unavailable.insert(host, since)).recent(
            now,
        ).contains_key(host),
{
}

/// Hosts are passed over in their order: when exactly the first `k` hosts are
/// marked, the next one is asked.
pub proof fn law_hosts_are_asked_in_order(
    hosts: Seq<Seq<char>>,
    marks: Map<Seq<char>, u128>,
    k: int,
    host: Seq<char>,
)
    requires
        0 <= k < hosts.len(),
        forall|j: int| 0 <= j < k ==> marks.contains_key(#[trigger] hosts[j]),
        !marks.contains_key(hosts[k]),
        host_manager::host_to_ask(hosts, marks, host),
    ensures
        host == hosts[k],
{
    assert(!host_manager::none_available(hosts, marks));
    let i = choose|i: int| #[trigger]
        host_manager::first_available(hosts, marks, i) && hosts[i] == host;
    assert(i == k) by {
        if i < k {
            assert(marks.contains_key(hosts[i]));
        }
        if k < i {
            assert(marks.contains_key(hosts[k]));
        }
    }
}

/// An answer that was cut off at the token limit is refused for a video. For an
/// image it makes no difference, and an answer that was not cut off is judged
/// alike for both.
pub proof fn law_truncation_matters_to_videos_only(
    interface: Interface,
    filename: Seq<char>,
    answer: JsonView,
)
    ensures
        interface::finish_reason(answer) == Some("length"@) ==> request::judged_answer(
            interface,
            filename,
            true,
            Ok(answer),
        ) == ReplyOutcomeView::Finished(
            Err(
                ErrorView::ProcessingError {
                    filename,
                    error: "AI response was truncated (finish_reason=length)"@,
                },
            ),
        ),
        interface::finish_reason(answer) != Some("length"@) ==> request::judged_answer(
            interface,
            filename,
            true,
            Ok(answer),
        ) == request::judged_answer(interface, filename, false, Ok(answer)),
        (interface::answer_content(interface, answer) matches Some(content) && text::trimmed(
            content,
        ).len() > 0) ==> request::judged_answer(interface, filename, false, Ok(answer))
            == ReplyOutcomeView::Finished(
            Ok(text::trimmed(interface::answer_content(interface, answer)->0)),
        ),
{
}

/// A description is never empty, and neither starts nor ends with white space.
pub proof fn law_descriptions_are_trimmed(
    interface: Interface,
    filename: Seq<char>,
    reject_truncated: bool,
    reply: ServiceReplyView,
    description: Seq<char>,
)
    requires
        request::judged_reply(interface, filename, reject_truncated, reply)
            == ReplyOutcomeView::Finished(Ok(description)),
    ensures
        description.len() > 0,
        !text::is_white_space(description.first()),
        !text::is_white_space(description.last()),
{
    match reply {
        ServiceReplyView::Answered { status, body } => {
            let answer = json::json_parse(body->Ok_0)->Ok_0;
            let content = interface::answer_content(interface, answer)->0;
            text::lemma_trimmed(content);
        },
        _ => {},
    }
}

/// What every reply of a host means: no answer and a server error (5xx) lead on,
/// any other answer ends the analysis, and the error says what came.
pub proof fn law_replies_are_judged(
    interface: Interface,
    filename: Seq<char>,
    reject_truncated: bool,
    status: u16,
    body: Result<Seq<char>, Seq<char>>,
    error: Seq<char>,
)
    ensures
        request::judged_reply(interface, filename, reject_truncated, ServiceReplyView::TimedOut)
            == ReplyOutcomeView::TryNext(ErrorView::AiRequestTimeout),
        request::judged_reply(
            interface,
            filename,
            reject_truncated,
            ServiceReplyView::Failed { error },
        ) == ReplyOutcomeView::TryNext(
            ErrorView::HttpError { status: 0, filename, response: error },
        ),
        ({
            let outcome = request::judged_reply(
                interface,
                filename,
                reject_truncated,
                ServiceReplyView::Answered { status, body },
            );
            let refused = ErrorView::HttpError {
                status,
                filename,
                response: match body {
                    Ok(t) => t,
                    Err(_) => Seq::empty(),
                },
            };
            &&& 500 <= status <= 599 ==> outcome == ReplyOutcomeView::TryNext(refused)
            &&& (0 < status < 200 || 300 <= status < 500 || status >= 600) ==> outcome
                == ReplyOutcomeView::Finished(Err(refused))
            &&& 200 <= status <= 299 ==> outcome is Finished
            &&& 200 <= status <= 299 && body is Err ==> outcome == ReplyOutcomeView::Finished(
                Err(ErrorView::ProcessingError { filename, error: body->Err_0 }),
            )
            &&& 200 <= status <= 299 && body is Ok && json::json_parse(body->Ok_0) is Err
                ==> outcome == ReplyOutcomeView::Finished(
                Err(
                    ErrorView::JsonParsing {
                        filename,
                        error: json::json_parse(body->Ok_0)->Err_0,
                    },
                ),
            )
        }),
{
}

/// A description is the whole content of the answer but for the white space at
/// its two ends: no character that is not white space is lost.
pub proof fn law_descriptions_hold_the_content(
    interface: Interface,
    filename: Seq<char>,
    reject_truncated: bool,
    reply: ServiceReplyView,
    description: Seq<char>,
)
    requires
        request::judged_reply(interface, filename, reject_truncated, reply)
            == ReplyOutcomeView::Finished(Ok(description)),
    ensures
        ({
            &&& reply matches ServiceReplyView::Answered { status, body }
            &&& 200 <= status <= 299
            &&& body matches Ok(t)
            &&& json::json_parse(t) matches Ok(answer)
            &&& interface::answer_content(interface, answer) matches Some(content)
            &&& text::stands_between_blanks(content, description)
        }),
{
    match reply {
        ServiceReplyView::Answered { status, body } => {
            let answer = json::json_parse(body->Ok_0)->Ok_0;
            let content = interface::answer_content(interface, answer)->0;
            text::law_trimming_removes_white_space_only(content);
        },
        _ => {},
    }
}

/// Every successful answer with content is described by it: whatever white space
/// surrounds `middle` in the content, `middle` is the description. Only a video's
/// answer that was cut off is not.
pub proof fn law_content_gives_the_description(
    interface: Interface,
    filename: Seq<char>,
    reject_truncated: bool,
    status: u16,
    body: Seq<char>,
    answer: JsonView,
    before: Seq<char>,
    middle: Seq<char>,
    behind: Seq<char>,
)
    requires
        200 <= status <= 299,
        json::json_parse(body) == Ok::<JsonView, Seq<char>>(answer),
        interface::answer_content(interface, answer) == Some(before + middle + behind),
        text::blank(before),
        text::blank(behind),
        middle.len() > 0,
        !text::is_white_space(middle[0]),
        !text::is_white_space(middle[middle.len() - 1]),
        !(reject_truncated && interface::finish_reason(answer) == Some("length"@)),
    ensures
        request::judged_reply(
            interface,
            filename,
            reject_truncated,
            ServiceReplyView::Answered { status, body: Ok(body) },
        ) == ReplyOutcomeView::Finished(Ok(middle)),
{
    text::law_trimming_finds_the_middle(before, middle, behind);
}

/// A successful answer without content, or with nothing but white space, fails
/// the analysis, and says why.
pub proof fn law_answers_without_content_fail(
    interface: Interface,
    filename: Seq<char>,
    status: u16,
    body: Seq<char>,
    answer: JsonView,
)
    requires
        200 <= status <= 299,
        json::json_parse(body) == Ok::<JsonView, Seq<char>>(answer),
    ensures
        interface::answer_content(interface, answer) is None ==> request::judged_reply(
            interface,
            filename,
            false,
            ServiceReplyView::Answered { status, body: Ok(body) },
        ) == ReplyOutcomeView::Finished(
            Err(
                ErrorView::JsonParsing {
                    filename,
                    error: "No content field found in response"@,
                },
            ),
        ),
        (interface::answer_content(interface, answer) matches Some(content) && text::blank(
            content,
        )) ==> request::judged_reply(
            interface,
            filename,
            false,
            ServiceReplyView::Answered { status, body: Ok(body) },
        ) == ReplyOutcomeView::Finished(Err(ErrorView::EmptyResponse { filename })),
{
    if let Some(content) = interface::answer_content(interface, answer) {
        if text::blank(content) {
            let none = Seq::<char>::empty();
            text::law_trimming_finds_the_middle(content, none, none);
            assert(content + none + none =~= content);
        }
    }
}

/// The errors that are worth another try, and no others: no host could be asked,
/// a host was too slow, it could not be reached, or it failed on its side (5xx).
pub proof fn law_retryable_errors(
    status: u16,
    filename: Seq<char>,
    response: Seq<char>,
    error: ErrorView,
)
    ensures
        ErrorView::AllHostsUnavailable.retryable(),
        ErrorView::AiRequestTimeout.retryable(),
        (ErrorView::HttpError { status, filename, response }).retryable() <==> status == 0 || (500
            <= status && status <= 599),
        !(error is AllHostsUnavailable) && !(error is AiRequestTimeout) && !(error is HttpError)
            ==> !error.retryable(),
{
}

/// A request goes to the host as it is set up, without slashes at its end,
/// followed by the path of its kind of service.
pub proof fn law_requests_go_to_the_host(interface: Interface, host: Seq<char>)
    ensures
        ({
            let path = match interface {
                Interface::Ollama => "/api/chat"@,
                Interface::Llamacpp => "/v1/chat/completions"@,
            };
            let url = request::request_url(interface, host);
            let base = url.take(url.len() - path.len());
            &&& url.len() >= path.len()
            &&& url.skip(url.len() - path.len()) == path
            &&& base.len() <= host.len()
            &&& host.take(base.len() as int) == base
            &&& forall|i: int| base.len() <= i < host.len() ==> #[trigger] host[i] == '/'
            &&& base.len() > 0 ==> base[base.len() - 1] != '/'
        }),
{
    text::law_trailing_run_is_cut(host, '/');
    let base = text::without_trailing(host, '/');
    let url = request::request_url(interface, host);
    let path = interface::endpoint_path(interface);
    assert(url.take(url.len() - path.len()) =~= base);
    assert(url.skip(url.len() - path.len()) =~= path);
}

/// The API key is sent as a bearer token to services that take one, and to no
/// other; an answer is awaited one second longer than the timeout.
pub proof fn law_requests_carry_the_key_and_the_timeout(manager: HostManagerView)
    ensures
        manager.interface == Interface::Ollama ==> manager.authorization() is None,
        manager.api_key is None ==> manager.authorization() is None,
        manager.interface == Interface::Llamacpp ==> (manager.api_key matches Some(key)
            ==> manager.authorization() == Some("Bearer "@ + key)),
        manager.timeout < u64::MAX ==> manager.answer_timeout() == manager.timeout + 1,
        manager.timeout == u64::MAX ==> manager.answer_timeout() == u64::MAX,
{
}

/// A mark counts exactly as long as less than the unavailable time has passed
/// since it was made; the last mark of a host is the one that counts.
pub proof fn law_marks_count_for_their_time(
    manager: HostManagerView,
    host: Seq<char>,
    since: u128,
    now: u128,
)
    requires
        manager.unavailable.contains_key(host),
        manager.unavailable[host] == since,
        since <= now,
    ensures
        manager.recent(now).contains_key(host) <==> now - since < manager.unavailable_duration,
        manager.recent(now).contains_key(host) ==> manager.recent(now)[host] == since,
        forall|other: Seq<char>|
            !manager.unavailable.contains_key(other) ==> !(#[trigger] manager.recent(
                now,
            ).contains_key(other)),
{
}

/// A host that failed less than the unavailable time ago is not asked while
/// another host has not failed lately.
pub proof fn law_lately_failed_host_is_not_asked(
    manager: HostManagerView,
    failed: Seq<char>,
    now: u128,
    other: int,
    host: Seq<char>,
)
    requires
        manager.unavailable.contains_key(failed),
        manager.unavailable[failed] <= now,
        now - manager.unavailable[failed] < manager.unavailable_duration,
        0 <= other < manager.hosts.len(),
        !manager.unavailable.contains_key(manager.hosts[other]) || (
        manager.unavailable[manager.hosts[other]] <= now && now
            - manager.unavailable[manager.hosts[other]] >= manager.unavailable_duration),
        host_manager::host_to_ask(manager.hosts, manager.recent(now), host),
    ensures
        host != failed,
        manager.hosts.contains(host),
{
    let marks = manager.recent(now);
    assert(marks.contains_key(failed));
    assert(!marks.contains_key(manager.hosts[other]));
    assert(!host_manager::none_available(manager.hosts, marks));
    let i = choose|i: int| #[trigger]
        host_manager::first_available(manager.hosts, marks, i) && manager.hosts[i] == host;
    assert(manager.hosts[i] == host);
}

/// When every host has failed lately, one that failed longest ago is asked.
pub proof fn law_longest_failed_host_is_asked(
    hosts: Seq<Seq<char>>,
    marks: Map<Seq<char>, u128>,
    host: Seq<char>,
)
    requires
        forall|j: int| 0 <= j < hosts.len() ==> marks.contains_key(#[trigger] hosts[j]),
        host_manager::host_to_ask(hosts, marks, host),
    ensures
        marks.contains_key(host),
        forall|other: Seq<char>| #[trigger]
            marks.contains_key(other) ==> marks[host] <= marks[other],
{
    if exists|i: int| #[trigger] host_manager::first_available(hosts, marks, i) && hosts[i] == host {
        let i = choose|i: int| #[trigger]
            host_manager::first_available(hosts, marks, i) && hosts[i] == host;
        assert(marks.contains_key(hosts[i]));
    }
}

proof fn lemma_unlimited(
    hosts: nat,
    interface: Interface,
    request: AnalysisRequestView,
    replies: Seq<ServiceReplyView>,
)
    requires
        0 < hosts <= usize::MAX,
        request.tried <= hosts,
        request.last_error is Some ==> request.last_error->0.retryable(),
        forall|j: int|
            0 <= j < replies.len() ==> fails_for_now(interface, request, #[trigger] replies[j]),
    ensures
        progress(hosts, None, interface, request, replies) is Waiting,
    decreases
            replies.len(),
            if request.tried < hosts {
                0int
            } else {
                1int
            },
{
    if request.tried < hosts {
        if replies.len() > 0 {
            assert(fails_for_now(interface, request, replies[0]));
            let next = request.after_failure(request.judged(interface, replies[0])->TryNext_0);
            let rest = replies.drop_first();
            assert forall|j: int| 0 <= j < rest.len() implies fails_for_now(
                interface,
                next,
                #[trigger] rest[j],
            ) by {
                assert(rest[j] == replies[j + 1]);
                assert(fails_for_now(interface, request, replies[j + 1]));
            }
            lemma_unlimited(hosts, interface, next, rest);
        }
    } else {
        let next = request.round_end(None)->Again_0;
        assert forall|j: int| 0 <= j < replies.len() implies fails_for_now(
            interface,
            next,
            #[trigger] replies[j],
        ) by {
            assert(fails_for_now(interface, request, replies[j]));
        }
        lemma_unlimited(hosts, interface, next, replies);
    }
}

/// Without a limit, an analysis never gives up while every reply is worth another try.
pub proof fn law_unlimited_analysis_never_gives_up(
    hosts: nat,
    interface: Interface,
    asset_id: u128,
    body: JsonView,
    reject_truncated: bool,
    replies: Seq<ServiceReplyView>,
)
    requires
        0 < hosts <= usize::MAX,
        forall|j: int|
            0 <= j < replies.len() ==> fails_for_now(
                interface,
                request::fresh_request(asset_id, body, reject_truncated),
                #[trigger] replies[j],
            ),
    ensures
        progress(
            hosts,
            None,
            interface,
            request::fresh_request(asset_id, body, reject_truncated),
            replies,
        ) is Waiting,
{
    lemma_unlimited(
        hosts,
        interface,
        request::fresh_request(asset_id, body, reject_truncated),
        replies,
    );
}

/// A clip is sent exactly if it has from 1 byte to 16 MiB: an empty one is an
/// empty file, and the error of a larger one names its size.
pub proof fn law_clips_are_limited(filename: Seq<char>, size: u64)
    ensures
        request::clip_error(filename, size) is None <==> 1 <= size <= 16 * 1024 * 1024,
        size == 0 ==> request::clip_error(filename, size) == Some(
            ErrorView::EmptyFile { filename },
        ),
        size > 16 * 1024 * 1024 ==> request::clip_error(filename, size) == Some(
            ErrorView::ProcessingError {
                filename,
                error: "Video clip is "@ + text::decimal(size as nat)
                    + " bytes, which exceeds the 16777216-byte limit"@,
            },
        ),
{
}

/// A description is that of the asset that was asked about, and errors name it.
pub proof fn law_results_are_about_the_asset(
    hosts: nat,
    limit: Option<u32>,
    interface: Interface,
    request: AnalysisRequestView,
    replies: Seq<ServiceReplyView>,
    error: Seq<char>,
)
    requires
        0 < hosts <= usize::MAX,
        request.tried <= hosts,
    ensures
        progress(hosts, limit, interface, request, replies) matches Progress::Over(Ok(result))
            ==> result.1 == request.asset_id,
        request.judged(interface, ServiceReplyView::Failed { error }) == ReplyOutcomeView::TryNext(
            ErrorView::HttpError {
                status: 0,
                filename: ids::hyphenated(request.asset_id),
                response: error,
            },
        ),
    decreases
            replies.len(),
            if request.tried < hosts {
                0int
            } else {
                1int
            },
{
    if request.tried < hosts {
        if replies.len() > 0 {
            if let ReplyOutcomeView::TryNext(e) = request.judged(interface, replies[0]) {
                law_results_are_about_the_asset(
                    hosts,
                    limit,
                    interface,
                    request.after_failure(e),
                    replies.drop_first(),
                    error,
                );
            }
        }
    } else if let RoundEnd::Again(next) = request.round_end(limit) {
        law_results_are_about_the_asset(hosts, limit, interface, next, replies, error);
    }
}

} // verus!
