//! Waiting for the Immich server to answer.
use crate::error::{ErrorView, ImageAnalysisError};
use crate::http;
use crate::http::{is_success, status_text};
use crate::immich_api;
use crate::immich_api::ImmichApiProvider;
use crate::text;
use crate::text::{contains_text, decimal_text};
use vstd::prelude::*;
use vstd::string::StringExecFns;

verus! {

/// What came of a ping.
#[derive(Debug)]
pub enum PingReply {
    NoResponse { error: String },
    /// An answer came; its body could be read or not.
    Answered { status: u16, body: Result<String, String> },
}

/// The text of an answer, or nothing if it could not be read.
pub open spec fn body_text(body: Result<String, String>) -> Seq<char> {
    match body {
        Ok(t) => t@,
        Err(_) => Seq::empty(),
    }
}

/// A reply that shows that the server is ready: a success that says "pong".
pub open spec fn is_pong(reply: PingReply) -> bool {
    &&& reply matches PingReply::Answered { status, body }
    &&& http::success(status)
    &&& text::occurs("pong"@, body_text(body))
}

/// Why a reply does not show that the server is ready.
pub open spec fn ping_error(reply: PingReply) -> Seq<char> {
    match reply {
        PingReply::NoResponse { error } => error@,
        PingReply::Answered { status, body } => if http::success(status) {
            "unexpected response: "@ + body_text(body)
        } else {
            "HTTP "@ + http::status_display(status)
        },
    }
}

/// The wait has taken as long as it may: `timeout_secs` seconds, where 0 means
/// that there is no limit. `elapsed` is in nanoseconds.
pub open spec fn timed_out(timeout_secs: u64, elapsed: u128) -> bool {
    timeout_secs != 0 && elapsed >= timeout_secs * 1_000_000_000
}

/// The error of a wait that has taken too long.
pub open spec fn timeout_error(timeout_secs: u64, last_error: Seq<char>) -> ErrorView {
    ErrorView::HttpClientError {
        error: "Timed out waiting for Immich after "@ + text::decimal(timeout_secs as nat) + "s: "@
            + last_error,
    }
}

/// A wait under way: how many keys have been tried in the round, and why the
/// last of them did not find the server ready.
#[derive(Debug)]
pub struct ReadyWait {
    url: String,
    keys: usize,
    timeout_secs: u64,
    retry_interval: u64,
    tried: usize,
    last_error: String,
}

/// The mathematical content of a [`ReadyWait`].
#[verifier::ext_equal]
pub struct ReadyWaitView {
    pub url: Seq<char>,
    pub keys: usize,
    pub timeout_secs: u64,
    pub retry_interval: u64,
    pub tried: usize,
    pub last_error: Seq<char>,
}

impl View for ReadyWait {
    type V = ReadyWaitView;

    closed spec fn view(&self) -> ReadyWaitView {
        ReadyWaitView {
            url: self.url@,
            keys: self.keys,
            timeout_secs: self.timeout_secs,
            retry_interval: self.retry_interval,
            tried: self.tried,
            last_error: self.last_error@,
        }
    }
}

impl ReadyWaitView {
    /// The wait after a reply that does not show that the server is ready.
    pub open spec fn after_failure(self, reply: PingReply) -> ReadyWaitView {
        ReadyWaitView {
            tried: (self.tried + 1) as usize,
            last_error: ping_error(reply),
            ..self
        }
    }

    /// The wait at the start of a round over the keys.
    pub open spec fn new_round(self) -> ReadyWaitView {
        ReadyWaitView { tried: 0, last_error: Seq::empty(), ..self }
    }
}

impl ImmichApiProvider {
    /// Begins to wait for the Immich server to become reachable by pinging
    /// `/api/server/ping`.
    ///
    /// Retries until the server responds with `"pong"` or the timeout is exceeded.
    ///
    /// # Arguments
    /// * `timeout_secs` - maximum time to wait in seconds (0 = no limit)
    /// * `retry_interval` - seconds between retries
    pub fn wait_until_ready(&self, timeout_secs: u64, retry_interval: u64) -> (wait: Result<
        ReadyWait,
        ImageAnalysisError,
    >)
        ensures
            match immich_api::configured(http::url_join(self@.base_url, "/api/server/ping"@)) {
                Ok(url) => wait is Ok && wait->Ok_0@ == (ReadyWaitView {
                    url,
                    keys: self@.api_keys.len() as usize,
                    timeout_secs,
                    retry_interval,
                    tried: 0,
                    last_error: Seq::empty(),
                }),
                Err(e) => wait is Err && wait->Err_0@ == e,
            },
    {
        let keys: usize = self.key_count();
        match self.endpoint("/api/server/ping") {
            Ok(url) => {
                let last_error = String::new();
                assert(last_error@ =~= Seq::<char>::empty());
                Ok(ReadyWait { url, keys, timeout_secs, retry_interval, tried: 0, last_error })
            },
            Err(e) => Err(e),
        }
    }
}

impl ReadyWait {
    /// The key to ping with, or `None` when the round is over.
    pub fn next_key(&self) -> (key: Option<usize>)
        ensures
            key == if self@.tried < self@.keys {
                Some(self@.tried)
            } else {
                None::<usize>
            },
    {
        if self.tried < self.keys {
            Some(self.tried)
        } else {
            None
        }
    }

    /// The URL to ping.
    pub fn url(&self) -> (url: &str)
        ensures
            url@ == self@.url,
    {
        self.url.as_str()
    }

    /// Why the last ping of the round did not find the server ready.
    pub fn last_error(&self) -> (error: &str)
        ensures
            error@ == self@.last_error,
    {
        self.last_error.as_str()
    }

    /// Takes the reply to a ping, and tells whether the server is ready.
    pub fn on_reply(&mut self, reply: PingReply) -> (ready: bool)
        requires
            old(self)@.tried < old(self)@.keys,
            reply matches PingReply::Answered { status, .. } ==> http::is_status(status),
        ensures
            ready == is_pong(reply),
            final(self)@ == if is_pong(reply) {
                old(self)@
            } else {
                old(self)@.after_failure(reply)
            },
    {
        let error = match reply {
            PingReply::NoResponse { error } => error,
            PingReply::Answered { status, body } => {
                if is_success(status) {
                    let body = match body {
                        Ok(t) => t,
                        Err(_) => String::new(),
                    };
                    if contains_text(body.as_str(), "pong") {
                        return true;
                    }
                    let mut error = "unexpected response: ".to_owned();
                    error.append(body.as_str());
                    error
                } else {
                    let mut error = "HTTP ".to_owned();
                    error.append(status_text(status).as_str());
                    error
                }
            },
        };
        self.last_error = error;
        self.tried = self.tried + 1;
        false
    }

    /// Ends a round over the keys that did not find the server ready, when the
    /// wait has taken `elapsed` nanoseconds: the seconds to sleep before the
    /// next round, or the error that the timeout is exceeded.
    pub fn end_round(&mut self, elapsed: u128) -> (pause: Result<u64, ImageAnalysisError>)
        ensures
            if timed_out(old(self)@.timeout_secs, elapsed) {
                &&& pause matches Err(e)
                &&& e@ == timeout_error(old(self)@.timeout_secs, old(self)@.last_error)
                &&& final(self)@ == old(self)@
            } else {
                &&& pause == Ok::<u64, ImageAnalysisError>(old(self)@.retry_interval)
                &&& final(self)@ == old(self)@.new_round()
            },
    {
        if self.timeout_secs != 0 && elapsed >= self.timeout_secs as u128 * 1_000_000_000 {
            let mut error = "Timed out waiting for Immich after ".to_owned();
            error.append(decimal_text(self.timeout_secs).as_str());
            error.append("s: ");
            error.append(self.last_error.as_str());
            return Err(ImageAnalysisError::HttpClientError { error });
        }
        self.tried = 0;
        self.last_error = String::new();
        assert(self.last_error@ =~= Seq::<char>::empty());
        Ok(self.retry_interval)
    }
}

/// One of the replies is a "pong".
pub open spec fn has_pong(replies: Seq<PingReply>) -> bool {
    exists|i: int| 0 <= i < replies.len() && is_pong(#[trigger] replies[i])
}

/// The wait after the replies of a round, and whether the server is ready.
pub open spec fn round(wait: ReadyWaitView, replies: Seq<PingReply>) -> (ReadyWaitView, bool)
    decreases replies.len(),
{
    if replies.len() == 0 || wait.tried >= wait.keys {
        (wait, false)
    } else if is_pong(replies[0]) {
        (wait, true)
    } else {
        round(wait.after_failure(replies[0]), replies.drop_first())
    }
}

/// One key that gets a "pong" is enough: a round finds the server ready exactly
/// when one of its replies says so. Otherwise the error of the last reply is kept.
pub proof fn law_one_pong_is_enough(wait: ReadyWaitView, replies: Seq<PingReply>)
    requires
        wait.tried + replies.len() <= wait.keys,
    ensures
        round(wait, replies).1 <==> has_pong(replies),
        !round(wait, replies).1 && replies.len() > 0 ==> round(wait, replies).0.last_error
            == ping_error(replies.last()),
    decreases replies.len(),
{
    if replies.len() > 0 && !is_pong(replies[0]) {
        let rest = replies.drop_first();
        law_one_pong_is_enough(wait.after_failure(replies[0]), rest);
        if has_pong(replies) {
            let i = choose|i: int| 0 <= i < replies.len() && is_pong(#[trigger] replies[i]);
            assert(is_pong(rest[i - 1]));
        }
        if has_pong(rest) {
            let i = choose|i: int| 0 <= i < rest.len() && is_pong(#[trigger] rest[i]);
            assert(is_pong(replies[i + 1]));
        }
        if rest.len() > 0 {
            assert(rest.last() == replies.last());
        }
    }
}

/// A round over the keys: the replies, and how long the wait has then taken, in
/// nanoseconds.
pub struct WaitRound {
    pub replies: Seq<PingReply>,
    pub elapsed: u128,
}

/// How far a wait has come.
pub enum WaitProgress {
    /// Another round is to be made.
    Waiting(ReadyWaitView),
    /// The server is ready.
    Ready,
    /// The wait has failed.
    Failed(ErrorView),
}

/// How far a wait comes with one more round.
pub open spec fn after_round(wait: ReadyWaitView, made: WaitRound) -> WaitProgress {
    let end = round(wait, made.replies);
    if end.1 {
        WaitProgress::Ready
    } else if timed_out(end.0.timeout_secs, made.elapsed) {
        WaitProgress::Failed(timeout_error(end.0.timeout_secs, end.0.last_error))
    } else {
        WaitProgress::Waiting(end.0.new_round())
    }
}

/// How far a wait comes with a series of rounds.
pub open spec fn waited(wait: ReadyWaitView, rounds: Seq<WaitRound>) -> WaitProgress
    decreases rounds.len(),
{
    if rounds.len() == 0 {
        WaitProgress::Waiting(wait)
    } else {
        match waited(wait, rounds.drop_last()) {
            WaitProgress::Waiting(before) => after_round(before, rounds.last()),
            over => over,
        }
    }
}

/// Every round has asked with each key until one got a "pong".
pub open spec fn all_asked(keys: usize, rounds: Seq<WaitRound>) -> bool {
    forall|i: int|
        0 <= i < rounds.len() ==> {
            &&& (#[trigger] rounds[i]).replies.len() <= keys
            &&& has_pong(rounds[i].replies) || rounds[i].replies.len() == keys
        }
}

proof fn lemma_round_keeps(wait: ReadyWaitView, replies: Seq<PingReply>)
    ensures
        round(wait, replies).0.keys == wait.keys,
        round(wait, replies).0.timeout_secs == wait.timeout_secs,
        round(wait, replies).0.retry_interval == wait.retry_interval,
        round(wait, replies).0.url == wait.url,
    decreases replies.len(),
{
    if replies.len() > 0 && wait.tried < wait.keys && !is_pong(replies[0]) {
        lemma_round_keeps(wait.after_failure(replies[0]), replies.drop_first());
    }
}

proof fn lemma_still_waiting(wait: ReadyWaitView, rounds: Seq<WaitRound>)
    requires
        wait == wait.new_round(),
        all_asked(wait.keys, rounds),
    ensures
        waited(wait, rounds) matches WaitProgress::Waiting(next) ==> next == wait,
        waited(wait, rounds) is Waiting <==> (forall|i: int|
            0 <= i < rounds.len() ==> !has_pong((#[trigger] rounds[i]).replies) && !timed_out(
                wait.timeout_secs,
                rounds[i].elapsed,
            )),
    decreases rounds.len(),
{
    if rounds.len() > 0 {
        let front = rounds.drop_last();
        let last = rounds.last();
        assert forall|i: int| 0 <= i < front.len() implies {
            &&& (#[trigger] front[i]).replies.len() <= wait.keys
            &&& has_pong(front[i].replies) || front[i].replies.len() == wait.keys
        } by {
            assert(front[i] == rounds[i]);
        }
        lemma_still_waiting(wait, front);
        assert(rounds[rounds.len() - 1] == last);
        law_one_pong_is_enough(wait, last.replies);
        lemma_round_keeps(wait, last.replies);
        if waited(wait, front) is Waiting {
            assert(round(wait, last.replies).0.new_round() =~= wait);
            assert forall|i: int|
                0 <= i < rounds.len() && waited(wait, rounds) is Waiting implies !has_pong(
                (#[trigger] rounds[i]).replies,
            ) && !timed_out(wait.timeout_secs, rounds[i].elapsed) by {
                if i < front.len() {
                    assert(front[i] == rounds[i]);
                }
            }
        } else {
            let i = choose|i: int|
                0 <= i < front.len() && (has_pong((#[trigger] front[i]).replies) || timed_out(
                    wait.timeout_secs,
                    front[i].elapsed,
                ));
            assert(front[i] == rounds[i]);
        }
    }
}

/// A wait goes on exactly as long as no round has got a "pong" and none has
/// ended past the limit. So at least one round is made, whatever the limit.
pub proof fn law_wait_goes_on(wait: ReadyWaitView, rounds: Seq<WaitRound>)
    requires
        wait == wait.new_round(),
        all_asked(wait.keys, rounds),
    ensures
        waited(wait, rounds) is Waiting <==> (forall|i: int|
            0 <= i < rounds.len() ==> !has_pong((#[trigger] rounds[i]).replies) && !timed_out(
                wait.timeout_secs,
                rounds[i].elapsed,
            )),
        waited(wait, Seq::empty()) == WaitProgress::Waiting(wait),
{
    lemma_still_waiting(wait, rounds);
}

/// A wait ends with its last round: it succeeds exactly if that round got a
/// "pong", even past the limit. It fails exactly if that round got none and ended
/// past the limit, with the error of the last ping; without a limit it never fails.
pub proof fn law_wait_ends_with_its_last_round(wait: ReadyWaitView, rounds: Seq<WaitRound>)
    requires
        wait == wait.new_round(),
        wait.keys > 0,
        all_asked(wait.keys, rounds),
        rounds.len() > 0,
        waited(wait, rounds.drop_last()) is Waiting,
    ensures
        waited(wait, rounds) is Ready <==> has_pong(rounds.last().replies),
        waited(wait, rounds) is Failed <==> !has_pong(rounds.last().replies) && timed_out(
            wait.timeout_secs,
            rounds.last().elapsed,
        ),
        waited(wait, rounds) matches WaitProgress::Failed(e) ==> e == timeout_error(
            wait.timeout_secs,
            ping_error(rounds.last().replies.last()),
        ),
        wait.timeout_secs == 0 ==> !(waited(wait, rounds) is Failed),
{
    let front = rounds.drop_last();
    let last = rounds.last();
    assert forall|i: int| 0 <= i < front.len() implies {
        &&& (#[trigger] front[i]).replies.len() <= wait.keys
        &&& has_pong(front[i].replies) || front[i].replies.len() == wait.keys
    } by {
        assert(front[i] == rounds[i]);
    }
    lemma_still_waiting(wait, front);
    assert(rounds[rounds.len() - 1] == last);
    law_one_pong_is_enough(wait, last.replies);
    lemma_round_keeps(wait, last.replies);
}

/// Without a limit a wait never times out; with one it does not before the limit
/// is reached, and does at the end of every round from then on.
pub proof fn law_waits_as_long_as_allowed(timeout_secs: u64, earlier: u128, later: u128)
    requires
        earlier <= later,
    ensures
        !timed_out(0, later),
        timed_out(timeout_secs, earlier) ==> timed_out(timeout_secs, later),
        timeout_secs > 0 && earlier < timeout_secs * 1_000_000_000 ==> !timed_out(
            timeout_secs,
            earlier,
        ),
{
}

/// The server is ready exactly if it answers a ping with success (2xx) and a text
/// that holds "pong".
pub proof fn law_pongs_are_recognized(
    status: u16,
    a: Seq<char>,
    b: Seq<char>,
    text: String,
    error: String,
)
    ensures
        200 <= status <= 299 && text@ == a + "pong"@ + b ==> is_pong(
            PingReply::Answered { status, body: Ok(text) },
        ),
        !(200 <= status <= 299) || !text::occurs("pong"@, text@) ==> !is_pong(
            PingReply::Answered { status, body: Ok(text) },
        ),
        !is_pong(PingReply::Answered { status, body: Err(error) }),
        !is_pong(PingReply::NoResponse { error }),
{
    text::law_texts_are_found(a, "pong"@, b, text@);
    text::law_texts_are_found(a, "pong"@, b, Seq::empty());
    reveal_strlit("pong");
    if text::occurs("pong"@, Seq::empty()) {
        let at = choose|at: int| text::stands_at("pong"@, Seq::empty(), at);
        assert(text::stands_at("pong"@, Seq::empty(), at));
    }
}

/// A ping that does not find the server ready tells why: the failure of the
/// request, the status of the answer, or the text that came instead.
pub proof fn law_pings_tell_why(status: u16, text: String, error: String)
    ensures
        ping_error(PingReply::NoResponse { error }) == error@,
        !(200 <= status <= 299) ==> ping_error(PingReply::Answered { status, body: Ok(text) })
            == "HTTP "@ + http::status_display(status),
        200 <= status <= 299 ==> ping_error(PingReply::Answered { status, body: Ok(text) })
            == "unexpected response: "@ + text@,
{
}

/// A wait with a limit times out exactly from that many seconds on, and its error
/// names the limit and the last failure.
pub proof fn law_limit_is_in_seconds(timeout_secs: u64, elapsed: u128, last_error: Seq<char>)
    requires
        timeout_secs > 0,
    ensures
        timed_out(timeout_secs, elapsed) <==> elapsed >= timeout_secs * 1_000_000_000,
        timeout_error(timeout_secs, last_error) == (ErrorView::HttpClientError {
            error: "Timed out waiting for Immich after "@ + text::decimal(timeout_secs as nat)
                + "s: "@ + last_error,
        }),
{
}

} // verus!
