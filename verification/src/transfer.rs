//! What holds of a download as a whole: the destination file is complete or absent.
use crate::download;
use crate::download::{DownloadEventView, DownloadPhaseView, DownloadView, RemovalView};
use crate::error::ErrorView;
use crate::http;
use crate::text;
use vstd::prelude::*;

verus! {

/// The destination file, if it exists, and the body of the answer to the latest
/// request as far as it has come.
#[verifier::ext_equal]
pub struct Disk {
    pub file: Option<Seq<u8>>,
    pub body: Seq<u8>,
}

/// What an event says of the destination file. An action that fails may leave
/// anything behind.
pub open spec fn disk_step(
    phase: DownloadPhaseView,
    event: DownloadEventView,
    before: Disk,
    after: Disk,
) -> bool {
    match event {
        DownloadEventView::Removed(RemovalView::Failed { .. }) => after.body == before.body,
        DownloadEventView::Removed(_) => after.file is None && after.body == before.body,
        DownloadEventView::NoResponse { .. } => after == before,
        DownloadEventView::Answered { .. } => after.file == before.file && after.body
            == Seq::<u8>::empty(),
        DownloadEventView::Opened => after.file == Some(Seq::<u8>::empty()) && after.body
            == before.body,
        DownloadEventView::OpenFailed { .. } => after.body == before.body,
        DownloadEventView::Chunk { bytes } => after.file == before.file && after.body
            == before.body + bytes,
        DownloadEventView::BodyEnded => after == before,
        DownloadEventView::BodyFailed { .. } => after == before,
        DownloadEventView::Written => {
            &&& phase matches DownloadPhaseView::Writing { chunk, .. }
            &&& before.file is Some ==> after.file == Some(before.file->0 + chunk)
            &&& after.body == before.body
        },
        DownloadEventView::WriteFailed { .. } => after.body == before.body,
        DownloadEventView::Flushed => after == before,
        DownloadEventView::FlushFailed { .. } => after.body == before.body,
    }
}

/// A body that may be kept: not empty, and within the limit.
pub open spec fn acceptable(body: Seq<u8>, max_bytes: u64) -> bool {
    0 < body.len() <= max_bytes
}

/// What the phase of a download says of the destination file.
pub open spec fn consistent(download: DownloadView, disk: Disk) -> bool {
    match download.phase {
        DownloadPhaseView::Clearing { .. } => true,
        DownloadPhaseView::Asking { .. } => disk.file is None,
        DownloadPhaseView::Opening { .. } => disk.file is None && disk.body.len() == 0,
        DownloadPhaseView::Receiving { downloaded, .. } => disk.file == Some(disk.body)
            && disk.body.len() == downloaded <= download.max_bytes,
        DownloadPhaseView::Writing { downloaded, chunk, .. } => disk.file is Some && disk.body
            == disk.file->0 + chunk && disk.body.len() == downloaded <= download.max_bytes,
        DownloadPhaseView::Flushing { .. } => disk.file == Some(disk.body) && acceptable(
            disk.body,
            download.max_bytes,
        ),
        DownloadPhaseView::CleaningUp { .. } => true,
        DownloadPhaseView::ClearingLast => true,
        DownloadPhaseView::Finished(Ok(_)) => disk.file == Some(disk.body) && acceptable(
            disk.body,
            download.max_bytes,
        ),
        DownloadPhaseView::Finished(Err(e)) => e is IoError || disk.file is None,
    }
}

/// Every step of a download keeps phase and destination file consistent.
pub proof fn law_download_stays_consistent(
    download: DownloadView,
    event: DownloadEventView,
    before: Disk,
    after: Disk,
)
    requires
        download.expects(event),
        consistent(download, before),
        disk_step(download.phase, event, before, after),
    ensures
        consistent(download.after(event), after),
{
    match (download.phase, event) {
        (
            DownloadPhaseView::Receiving { key, downloaded },
            DownloadEventView::Chunk { bytes },
        ) => {
            assert(after.file->0 == before.body);
        },
        (DownloadPhaseView::Writing { key, downloaded, chunk }, DownloadEventView::Written) => {
            assert(after.file == Some(after.body));
        },
        (DownloadPhaseView::Opening { key }, DownloadEventView::Opened) => {
            assert(after.body =~= Seq::<u8>::empty());
        },
        _ => {},
    }
}

/// The download after a series of events.
pub open spec fn after_all(download: DownloadView, events: Seq<DownloadEventView>) -> DownloadView
    decreases events.len(),
{
    if events.len() == 0 {
        download
    } else {
        after_all(download, events.drop_last()).after(events.last())
    }
}

/// The events are what the download asks for one after the other, and `disks`
/// are the states of the disk before, between and after them.
pub open spec fn possible(
    download: DownloadView,
    events: Seq<DownloadEventView>,
    disks: Seq<Disk>,
) -> bool {
    &&& disks.len() == events.len() + 1
    &&& forall|i: int|
        0 <= i < events.len() ==> (#[trigger] after_all(download, events.take(i))).expects(
            events[i],
        ) && disk_step(
            after_all(download, events.take(i)).phase,
            events[i],
            disks[i],
            disks[i + 1],
        )
}

proof fn lemma_consistent(
    download: DownloadView,
    events: Seq<DownloadEventView>,
    disks: Seq<Disk>,
    n: int,
)
    requires
        consistent(download, disks[0]),
        possible(download, events, disks),
        0 <= n <= events.len(),
    ensures
        consistent(after_all(download, events.take(n)), disks[n]),
        after_all(download, events.take(n)).max_bytes == download.max_bytes,
    decreases n,
{
    if n > 0 {
        lemma_consistent(download, events, disks, n - 1);
        assert(events.take(n).drop_last() =~= events.take(n - 1));
        let earlier = after_all(download, events.take(n - 1));
        assert(events.take(n).last() == events[n - 1]);
        law_download_stays_consistent(earlier, events[n - 1], disks[n - 1], disks[n]);
    } else {
        assert(events.take(0).len() == 0);
    }
}

/// Whatever happens during a download, and whatever stood at the destination
/// before it: when it succeeds, the destination holds exactly the body of the
/// last answer, which is not empty and within the limit. When it fails, and the
/// failure is not that a file could not be removed, no file is left there.
pub proof fn law_download_is_complete_or_absent(
    asset_id: u128,
    path: Seq<char>,
    url: Seq<char>,
    keys: usize,
    max_bytes: u64,
    events: Seq<DownloadEventView>,
    disks: Seq<Disk>,
)
    requires
        possible(download::download_start(asset_id, path, url, keys, max_bytes), events, disks),
    ensures
        after_all(
            download::download_start(asset_id, path, url, keys, max_bytes),
            events,
        ).phase == DownloadPhaseView::Finished(Ok(())) ==> disks.last().file == Some(
            disks.last().body,
        ) && 0 < disks.last().body.len() <= max_bytes,
        after_all(
            download::download_start(asset_id, path, url, keys, max_bytes),
            events,
        ).phase matches DownloadPhaseView::Finished(Err(e)) ==> e is IoError
            || disks.last().file is None,
{
    let start = download::download_start(asset_id, path, url, keys, max_bytes);
    lemma_consistent(start, events, disks, events.len() as int);
    assert(events.take(events.len() as int) =~= events);
}

/// How many requests have been answered, or have failed.
pub open spec fn requests(events: Seq<DownloadEventView>) -> nat
    decreases events.len(),
{
    if events.len() == 0 {
        0
    } else {
        let last = events.last();
        requests(events.drop_last()) + if last is NoResponse || last is Answered {
            1nat
        } else {
            0
        }
    }
}

/// What the phase of a download says of the requests that were made: one with
/// each key before the current one.
pub open spec fn requests_match(download: DownloadView, made: nat) -> bool {
    match download.phase {
        DownloadPhaseView::Clearing { key } => made == key < download.keys,
        DownloadPhaseView::Asking { key } => made == key < download.keys,
        DownloadPhaseView::ClearingLast => made == download.keys,
        DownloadPhaseView::Finished(Ok(_)) => 0 < made <= download.keys,
        DownloadPhaseView::Finished(Err(e)) => made <= download.keys && (e is HttpError ==> made
            == download.keys),
        _ => download.phase.key() matches Some(key) && made == key + 1 && key < download.keys,
    }
}

proof fn lemma_requests_match(
    download: DownloadView,
    events: Seq<DownloadEventView>,
    disks: Seq<Disk>,
    n: int,
)
    requires
        requests_match(download, 0),
        possible(download, events, disks),
        0 <= n <= events.len(),
    ensures
        requests_match(after_all(download, events.take(n)), requests(events.take(n))),
        after_all(download, events.take(n)).keys == download.keys,
    decreases n,
{
    if n > 0 {
        lemma_requests_match(download, events, disks, n - 1);
        assert(events.take(n).drop_last() =~= events.take(n - 1));
        assert(events.take(n).last() == events[n - 1]);
        assert(after_all(download, events.take(n - 1)).expects(events[n - 1]));
    } else {
        assert(events.take(0).len() == 0);
    }
}

/// Every key is tried until one succeeds: at most one request is made with each
/// key, in their order, and a download gives up with an error of the transport
/// only when a request has been made with every key.
pub proof fn law_every_key_is_tried(
    asset_id: u128,
    path: Seq<char>,
    url: Seq<char>,
    keys: usize,
    max_bytes: u64,
    events: Seq<DownloadEventView>,
    disks: Seq<Disk>,
)
    requires
        possible(download::download_start(asset_id, path, url, keys, max_bytes), events, disks),
    ensures
        requests(events) <= keys,
        after_all(
            download::download_start(asset_id, path, url, keys, max_bytes),
            events,
        ).phase matches DownloadPhaseView::Asking { key } ==> key == requests(events),
        (after_all(
            download::download_start(asset_id, path, url, keys, max_bytes),
            events,
        ).phase matches DownloadPhaseView::Finished(Err(e)) && e is HttpError) ==> requests(
            events,
        ) == keys,
{
    let start = download::download_start(asset_id, path, url, keys, max_bytes);
    lemma_requests_match(start, events, disks, events.len() as int);
    assert(events.take(events.len() as int) =~= events);
}

/// A body that goes over the limit is refused before the piece that goes over
/// it is written, and so is a file that is announced with more.
pub proof fn law_oversized_files_are_refused(
    download: DownloadView,
    key: usize,
    downloaded: u64,
    bytes: Seq<u8>,
    status: u16,
    content_length: u64,
)
    ensures
        downloaded + bytes.len() > download.max_bytes ==> (download.after_chunk(
            key,
            downloaded,
            bytes,
        ).phase matches DownloadPhaseView::CleaningUp { failure, .. }
            && failure is ProcessingError),
        http::success(status) && content_length > download.max_bytes
            ==> (download.after_answer(key, status, Some(content_length)).phase
            matches DownloadPhaseView::CleaningUp { failure, .. } && failure is ProcessingError),
{
}

/// An answer without success, whatever its status, and a request without an
/// answer lead to the next key while there is one.
pub proof fn law_refusals_lead_to_the_next_key(
    download: DownloadView,
    key: usize,
    status: u16,
    content_length: Option<u64>,
    error: Seq<char>,
)
    requires
        download.phase == (DownloadPhaseView::Asking { key }),
        key + 1 < download.keys,
        status < 200 || status >= 300,
    ensures
        download.after(DownloadEventView::Answered { status, content_length }).phase == (
        DownloadPhaseView::Clearing { key: (key + 1) as usize }),
        download.after(DownloadEventView::NoResponse { error }).phase == (
        DownloadPhaseView::Clearing { key: (key + 1) as usize }),
{
}

/// A request that did not bring the file, for a reason that is not local.
pub enum Attempt {
    NoResponse { error: Seq<char> },
    Refused { status: u16, content_length: Option<u64> },
    /// The body broke off after some pieces.
    CutOff { status: u16, content_length: Option<u64>, chunks: Seq<Seq<u8>>, error: Seq<char> },
}

/// The bytes of all pieces, one after the other.
pub open spec fn bytes_of(chunks: Seq<Seq<u8>>) -> Seq<u8>
    decreases chunks.len(),
{
    if chunks.len() == 0 {
        Seq::empty()
    } else {
        bytes_of(chunks.drop_last()) + chunks.last()
    }
}

/// Every piece is received and written.
pub open spec fn pieces(chunks: Seq<Seq<u8>>) -> Seq<DownloadEventView>
    decreases chunks.len(),
{
    if chunks.len() == 0 {
        Seq::empty()
    } else {
        pieces(chunks.drop_last()) + seq![
            DownloadEventView::Chunk { bytes: chunks.last() },
            DownloadEventView::Written,
        ]
    }
}

/// An answer that promises a file within the limit.
pub open spec fn promising(status: u16, content_length: Option<u64>, max_bytes: u64) -> bool {
    &&& 200 <= status <= 299
    &&& content_length is Some ==> content_length->0 <= max_bytes
}

impl Attempt {
    /// The attempt can happen under the limit.
    pub open spec fn valid(self, max_bytes: u64) -> bool {
        match self {
            Attempt::NoResponse { .. } => true,
            Attempt::Refused { status, .. } => status < 200 || status >= 300,
            Attempt::CutOff { status, content_length, chunks, .. } => promising(
                status,
                content_length,
                max_bytes,
            ) && bytes_of(chunks).len() <= max_bytes,
        }
    }

    /// What happens during the attempt.
    pub open spec fn events(self) -> Seq<DownloadEventView> {
        let cleared = DownloadEventView::Removed(RemovalView::NotFound);
        match self {
            Attempt::NoResponse { error } => seq![
                cleared,
                DownloadEventView::NoResponse { error },
            ],
            Attempt::Refused { status, content_length } => seq![
                cleared,
                DownloadEventView::Answered { status, content_length },
            ],
            Attempt::CutOff { status, content_length, chunks, error } => seq![
                cleared,
                DownloadEventView::Answered { status, content_length },
                DownloadEventView::Opened,
            ] + pieces(chunks) + seq![
                DownloadEventView::BodyFailed { error },
                DownloadEventView::Removed(RemovalView::Removed),
            ],
        }
    }

    /// The error of the attempt.
    pub open spec fn error(self, filename: Seq<char>) -> ErrorView {
        match self {
            Attempt::NoResponse { error } => ErrorView::HttpError {
                status: 0,
                filename,
                response: error,
            },
            Attempt::Refused { status, .. } => ErrorView::HttpError {
                status,
                filename,
                response: http::status_display(status),
            },
            Attempt::CutOff { error, .. } => ErrorView::HttpError {
                status: 0,
                filename,
                response: error,
            },
        }
    }
}

/// What happens during all attempts, one after the other.
pub open spec fn all_events(attempts: Seq<Attempt>) -> Seq<DownloadEventView>
    decreases attempts.len(),
{
    if attempts.len() == 0 {
        Seq::empty()
    } else {
        all_events(attempts.drop_last()) + attempts.last().events()
    }
}

/// What happens when a file comes whole.
pub open spec fn delivery(
    status: u16,
    content_length: Option<u64>,
    chunks: Seq<Seq<u8>>,
) -> Seq<DownloadEventView> {
    seq![
        DownloadEventView::Removed(RemovalView::NotFound),
        DownloadEventView::Answered { status, content_length },
        DownloadEventView::Opened,
    ] + pieces(chunks) + seq![DownloadEventView::BodyEnded, DownloadEventView::Flushed]
}

proof fn lemma_append(
    download: DownloadView,
    first: Seq<DownloadEventView>,
    second: Seq<DownloadEventView>,
)
    ensures
        after_all(download, first + second) == after_all(after_all(download, first), second),
    decreases second.len(),
{
    if second.len() == 0 {
        assert(first + second =~= first);
    } else {
        let all = first + second;
        assert(all.drop_last() =~= first + second.drop_last());
        assert(all.last() == second.last());
        lemma_append(download, first, second.drop_last());
    }
}

proof fn lemma_two(download: DownloadView, a: DownloadEventView, b: DownloadEventView)
    ensures
        after_all(download, seq![a, b]) == download.after(a).after(b),
{
    let both = seq![a, b];
    assert(both.drop_last() =~= seq![a]);
    assert(seq![a].drop_last() =~= Seq::<DownloadEventView>::empty());
    assert(after_all(download, Seq::<DownloadEventView>::empty()) == download);
    assert(after_all(download, seq![a]) == download.after(a));
}

proof fn lemma_three(
    download: DownloadView,
    a: DownloadEventView,
    b: DownloadEventView,
    c: DownloadEventView,
)
    ensures
        after_all(download, seq![a, b, c]) == download.after(a).after(b).after(c),
{
    let all = seq![a, b, c];
    assert(all.drop_last() =~= seq![a, b]);
    lemma_two(download, a, b);
}

proof fn lemma_pieces(download: DownloadView, key: usize, chunks: Seq<Seq<u8>>)
    requires
        download.phase == (DownloadPhaseView::Receiving { key, downloaded: 0 }),
        bytes_of(chunks).len() <= download.max_bytes,
    ensures
        after_all(download, pieces(chunks)) == download.in_phase(
            DownloadPhaseView::Receiving { key, downloaded: bytes_of(chunks).len() as u64 },
        ),
    decreases chunks.len(),
{
    if chunks.len() > 0 {
        let front = chunks.drop_last();
        lemma_pieces(download, key, front);
        let chunk = DownloadEventView::Chunk { bytes: chunks.last() };
        lemma_append(download, pieces(front), seq![chunk, DownloadEventView::Written]);
        lemma_two(after_all(download, pieces(front)), chunk, DownloadEventView::Written);
    }
}

proof fn lemma_attempt(download: DownloadView, key: usize, attempt: Attempt)
    requires
        download.phase == (DownloadPhaseView::Clearing { key }),
        key < download.keys,
        attempt.valid(download.max_bytes),
    ensures
        after_all(download, attempt.events()) == download.past(
            key,
            attempt.error(download.filename),
        ),
{
    let cleared = DownloadEventView::Removed(RemovalView::NotFound);
    match attempt {
        Attempt::NoResponse { error } => {
            lemma_two(download, cleared, DownloadEventView::NoResponse { error });
        },
        Attempt::Refused { status, content_length } => {
            lemma_two(download, cleared, DownloadEventView::Answered { status, content_length });
        },
        Attempt::CutOff { status, content_length, chunks, error } => {
            let answered = DownloadEventView::Answered { status, content_length };
            let opening = seq![cleared, answered, DownloadEventView::Opened];
            let failed = DownloadEventView::BodyFailed { error };
            let removed = DownloadEventView::Removed(RemovalView::Removed);
            lemma_three(download, cleared, answered, DownloadEventView::Opened);
            let open = after_all(download, opening);
            lemma_append(download, opening, pieces(chunks));
            lemma_pieces(open, key, chunks);
            lemma_append(download, opening + pieces(chunks), seq![failed, removed]);
            lemma_two(after_all(open, pieces(chunks)), failed, removed);
        },
    }
}

proof fn lemma_attempts(start: DownloadView, attempts: Seq<Attempt>)
    requires
        start.phase == (DownloadPhaseView::Clearing { key: 0 }),
        attempts.len() <= start.keys,
        start.keys > 0,
        forall|i: int|
            0 <= i < attempts.len() ==> (#[trigger] attempts[i]).valid(start.max_bytes),
    ensures
        after_all(start, all_events(attempts)) == (DownloadView {
            phase: if attempts.len() < start.keys {
                DownloadPhaseView::Clearing { key: attempts.len() as usize }
            } else {
                DownloadPhaseView::ClearingLast
            },
            last_error: if attempts.len() == 0 {
                start.last_error
            } else {
                Some(attempts.last().error(start.filename))
            },
            ..start
        }),
    decreases attempts.len(),
{
    if attempts.len() > 0 {
        let front = attempts.drop_last();
        assert forall|i: int| 0 <= i < front.len() implies (#[trigger] front[i]).valid(
            start.max_bytes,
        ) by {
            assert(front[i] == attempts[i]);
        }
        lemma_attempts(start, front);
        lemma_append(start, all_events(front), attempts.last().events());
        assert(attempts[attempts.len() - 1].valid(start.max_bytes));
        lemma_attempt(
            after_all(start, all_events(front)),
            front.len() as usize,
            attempts.last(),
        );
    }
}

/// The first key that gives the whole file is enough: whatever kept the keys
/// before it from giving it, a refusal of any status, no answer or a body that
/// broke off, the download succeeds once a key's request is answered with success
/// and a body that is not empty and within the limit.
pub proof fn law_first_delivering_key_is_enough(
    asset_id: u128,
    path: Seq<char>,
    url: Seq<char>,
    keys: usize,
    max_bytes: u64,
    attempts: Seq<Attempt>,
    status: u16,
    content_length: Option<u64>,
    chunks: Seq<Seq<u8>>,
)
    requires
        attempts.len() < keys,
        forall|i: int| 0 <= i < attempts.len() ==> (#[trigger] attempts[i]).valid(max_bytes),
        promising(status, content_length, max_bytes),
        0 < bytes_of(chunks).len() <= max_bytes,
    ensures
        after_all(
            download::download_start(asset_id, path, url, keys, max_bytes),
            all_events(attempts) + delivery(status, content_length, chunks),
        ).phase == DownloadPhaseView::Finished(Ok(())),
{
    let start = download::download_start(asset_id, path, url, keys, max_bytes);
    let key = attempts.len() as usize;
    lemma_attempts(start, attempts);
    let ready = after_all(start, all_events(attempts));
    let cleared = DownloadEventView::Removed(RemovalView::NotFound);
    let answered = DownloadEventView::Answered { status, content_length };
    let opening = seq![cleared, answered, DownloadEventView::Opened];
    let ending = seq![DownloadEventView::BodyEnded, DownloadEventView::Flushed];
    lemma_append(start, all_events(attempts), delivery(status, content_length, chunks));
    lemma_three(ready, cleared, answered, DownloadEventView::Opened);
    let open = after_all(ready, opening);
    lemma_append(ready, opening, pieces(chunks));
    lemma_pieces(open, key, chunks);
    lemma_append(ready, opening + pieces(chunks), ending);
    lemma_two(
        after_all(open, pieces(chunks)),
        DownloadEventView::BodyEnded,
        DownloadEventView::Flushed,
    );
}

/// When no key gives the file, the download fails with the error of the last
/// key's request.
pub proof fn law_last_attempt_is_reported(
    asset_id: u128,
    path: Seq<char>,
    url: Seq<char>,
    keys: usize,
    max_bytes: u64,
    attempts: Seq<Attempt>,
    removal: RemovalView,
)
    requires
        keys > 0,
        attempts.len() == keys,
        forall|i: int| 0 <= i < attempts.len() ==> (#[trigger] attempts[i]).valid(max_bytes),
        !(removal is Failed),
    ensures
        after_all(
            download::download_start(asset_id, path, url, keys, max_bytes),
            all_events(attempts).push(DownloadEventView::Removed(removal)),
        ).phase == DownloadPhaseView::Finished(
            Err(attempts.last().error(crate::ids::hyphenated(asset_id))),
        ),
{
    let start = download::download_start(asset_id, path, url, keys, max_bytes);
    lemma_attempts(start, attempts);
    let all = all_events(attempts).push(DownloadEventView::Removed(removal));
    assert(all.drop_last() =~= all_events(attempts));
}

/// A failure on this side, an empty body and a body over the limit end the
/// download: the destination is removed, and no other key is tried.
pub proof fn law_local_failures_end_the_download(
    download: DownloadView,
    key: usize,
    event: DownloadEventView,
    removal: RemovalView,
)
    requires
        download.phase.key() == Some(key),
        download.expects(event),
        !(removal is Failed),
        match event {
            DownloadEventView::OpenFailed { .. } => true,
            DownloadEventView::WriteFailed { .. } => true,
            DownloadEventView::FlushFailed { .. } => true,
            DownloadEventView::BodyEnded => download.phase == (DownloadPhaseView::Receiving {
                key,
                downloaded: 0,
            }),
            DownloadEventView::Chunk { bytes } => download.phase matches
                DownloadPhaseView::Receiving { downloaded, .. } && downloaded + bytes.len()
                > download.max_bytes,
            DownloadEventView::Answered { status, content_length } => 200 <= status <= 299
                && content_length is Some && content_length->0 > download.max_bytes,
            _ => false,
        },
    ensures
        download.after(event).phase matches DownloadPhaseView::CleaningUp { failure, .. } && (
        failure is ProcessingError || failure == (ErrorView::EmptyFile {
            filename: download.filename,
        })) && download.after(event).after(DownloadEventView::Removed(removal)).phase
            == DownloadPhaseView::Finished(Err(failure)),
        event is BodyEnded ==> download.after(event).after(
            DownloadEventView::Removed(removal),
        ).phase == DownloadPhaseView::Finished(
            Err(ErrorView::EmptyFile { filename: download.filename }),
        ),
        event matches DownloadEventView::WriteFailed { error } ==> download.after(event).after(
            DownloadEventView::Removed(removal),
        ).phase == DownloadPhaseView::Finished(
            Err(ErrorView::ProcessingError { filename: download.filename, error }),
        ),
        event matches DownloadEventView::OpenFailed { error } ==> download.after(event).after(
            DownloadEventView::Removed(removal),
        ).phase == DownloadPhaseView::Finished(
            Err(ErrorView::ProcessingError { filename: download.filename, error }),
        ),
        event matches DownloadEventView::FlushFailed { error } ==> download.after(event).after(
            DownloadEventView::Removed(removal),
        ).phase == DownloadPhaseView::Finished(
            Err(ErrorView::ProcessingError { filename: download.filename, error }),
        ),
{
}

/// A destination that cannot be removed ends the download at once.
pub proof fn law_stuck_destination_ends_the_download(download: DownloadView, error: Seq<char>)
    requires
        download.phase is Clearing || download.phase is CleaningUp
            || download.phase is ClearingLast,
    ensures
        download.after(DownloadEventView::Removed(RemovalView::Failed { error })).phase
            == DownloadPhaseView::Finished(
            Err(ErrorView::IoError { path: download.path, error }),
        ),
{
}

/// The errors of files over the limit name the limit and the size, announced or
/// received, and an original is asked for by the identifier of its asset.
pub proof fn law_download_texts_name_sizes_and_asset(max_bytes: u64, size: u64, asset_id: u128)
    ensures
        download::announced_too_large(max_bytes, size)
            == "Original file exceeds the configured maximum of "@ + text::decimal(
            max_bytes as nat,
        ) + " bytes (Content-Length: "@ + text::decimal(size as nat) + " bytes)"@,
        download::received_too_large(max_bytes, size)
            == "Original file exceeds the configured maximum of "@ + text::decimal(
            max_bytes as nat,
        ) + " bytes after "@ + text::decimal(size as nat) + " bytes"@,
        download::original_path(asset_id) == "/api/assets/"@ + crate::ids::hyphenated(asset_id)
            + "/original"@,
{
}

} // verus!
