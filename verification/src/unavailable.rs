//! The hosts that failed lately, each with the moment when it did.
use crate::text::same_text;
use vstd::prelude::*;

verus! {

/// A host and the moment, in nanoseconds, when it was marked unavailable.
#[derive(Debug)]
pub struct HostMark {
    pub host: String,
    pub since: u128,
}

/// Whether `marks` holds `host` at index `i`.
pub open spec fn marked_at(marks: Seq<HostMark>, host: Seq<char>, i: int) -> bool {
    0 <= i < marks.len() && marks[i].host@ == host
}

/// The moment of each marked host.
pub open spec fn marks_map(marks: Seq<HostMark>) -> Map<Seq<char>, u128> {
    Map::new(
        |host: Seq<char>| exists|i: int| marked_at(marks, host, i),
        |host: Seq<char>| marks[choose|i: int| marked_at(marks, host, i)].since,
    )
}

/// No host is marked twice.
pub open spec fn distinct_hosts(marks: Seq<HostMark>) -> bool {
    forall|i: int, j: int|
        0 <= i < marks.len() && 0 <= j < marks.len() && #[trigger] marks[i].host@
            == #[trigger] marks[j].host@ ==> i == j
}

/// A host marked at `since` is still kept away from at `now`: less than
/// `duration` has passed.
pub open spec fn still_away(since: u128, now: u128, duration: u128) -> bool {
    (if now >= since {
        now - since
    } else {
        0
    }) < duration
}

/// The marks that still count at `now`.
pub open spec fn recent(marks: Map<Seq<char>, u128>, now: u128, duration: u128) -> Map<
    Seq<char>,
    u128,
> {
    Map::new(
        |host: Seq<char>| marks.contains_key(host) && still_away(marks[host], now, duration),
        |host: Seq<char>| marks[host],
    )
}

/// `host` is marked, and no host has been marked for longer.
pub open spec fn is_oldest(marks: Map<Seq<char>, u128>, host: Seq<char>) -> bool {
    &&& marks.contains_key(host)
    &&& forall|other: Seq<char>| #[trigger]
        marks.contains_key(other) ==> marks[host] <= marks[other]
}

/// `mark` is the mark at index `j` of `marks`, and still counts at `now`.
spec fn kept_from(
    marks: Seq<HostMark>,
    mark: HostMark,
    j: int,
    now: u128,
    duration: u128,
) -> bool {
    &&& 0 <= j < marks.len()
    &&& marks[j].host@ == mark.host@
    &&& marks[j].since == mark.since
    &&& still_away(mark.since, now, duration)
}

/// `mark` is one of the first `n` marks of `marks`, and still counts at `now`.
spec fn survives(
    marks: Seq<HostMark>,
    mark: HostMark,
    n: int,
    now: u128,
    duration: u128,
) -> bool {
    exists|j: int| j < n && kept_from(marks, mark, j, now, duration)
}

proof fn lemma_mark_in_map(marks: Seq<HostMark>, i: int)
    requires
        distinct_hosts(marks),
        0 <= i < marks.len(),
    ensures
        marks_map(marks).contains_key(marks[i].host@),
        marks_map(marks)[marks[i].host@] == marks[i].since,
{
    let host = marks[i].host@;
    assert(marked_at(marks, host, i));
    let k = choose|k: int| marked_at(marks, host, k);
    assert(marked_at(marks, host, k));
}

/// The hosts that failed lately.
#[derive(Debug)]
pub struct UnavailableHosts {
    marks: Vec<HostMark>,
}

impl View for UnavailableHosts {
    type V = Map<Seq<char>, u128>;

    closed spec fn view(&self) -> Map<Seq<char>, u128> {
        marks_map(self.marks@)
    }
}

impl UnavailableHosts {
    /// No host is marked twice.
    pub closed spec fn wf(&self) -> bool {
        distinct_hosts(self.marks@)
    }

    /// No host has failed yet.
    pub fn new() -> (hosts: UnavailableHosts)
        ensures
            hosts.wf(),
            hosts@ == Map::<Seq<char>, u128>::empty(),
    {
        let hosts = UnavailableHosts { marks: Vec::new() };
        assert(hosts@ =~= Map::<Seq<char>, u128>::empty());
        hosts
    }

    /// Where `host` is marked.
    fn position(&self, host: &str) -> (at: Option<usize>)
        requires
            self.wf(),
        ensures
            at matches Some(i) ==> marked_at(self.marks@, host@, i as int),
            at is None ==> !self@.contains_key(host@),
    {
        let mut i: usize = 0;
        while i < self.marks.len()
            invariant
                i <= self.marks@.len(),
                forall|k: int| 0 <= k < i ==> !marked_at(self.marks@, host@, k),
            decreases self.marks@.len() - i,
        {
            if same_text(self.marks[i].host.as_str(), host) {
                return Some(i);
            }
            i += 1;
        }
        None
    }

    /// Whether `host` is marked.
    pub fn contains(&self, host: &str) -> (marked: bool)
        requires
            self.wf(),
        ensures
            marked == self@.contains_key(host@),
    {
        match self.position(host) {
            Some(i) => {
                proof {
                    lemma_mark_in_map(self.marks@, i as int);
                }
                true
            },
            None => false,
        }
    }

    /// Marks `host` at the moment `now`, in place of an earlier mark.
    pub fn mark(&mut self, host: &str, now: u128)
        requires
            old(self).wf(),
        ensures
            final(self).wf(),
            final(self)@ == old(self)@.insert(host@, now),
    {
        let ghost before = self.marks@;
        match self.position(host) {
            Some(i) => {
                let name = host.to_owned();
                self.marks.set(i, HostMark { host: name, since: now });
                proof {
                    assert(self.marks@ =~= before.update(i as int, self.marks@[i as int]));
                    assert(distinct_hosts(self.marks@)) by {
                        assert forall|a: int, b: int|
                            0 <= a < self.marks@.len() && 0 <= b < self.marks@.len()
                                && #[trigger] self.marks@[a].host@ == #[trigger] self.marks@[b].host@
                            implies a == b by {
                            assert(before[a].host@ == self.marks@[a].host@);
                            assert(before[b].host@ == self.marks@[b].host@);
                        }
                    }
                    lemma_same_marks(before, self.marks@, host@, now, i as int);
                }
            },
            None => {
                let name = host.to_owned();
                self.marks.push(HostMark { host: name, since: now });
                proof {
                    let last = before.len() as int;
                    assert(forall|k: int| 0 <= k < before.len() ==> self.marks@[k] == before[k]);
                    assert(distinct_hosts(self.marks@)) by {
                        assert forall|a: int, b: int|
                            0 <= a < self.marks@.len() && 0 <= b < self.marks@.len()
                                && #[trigger] self.marks@[a].host@ == #[trigger] self.marks@[b].host@
                            implies a == b by {
                            if a < last && b == last {
                                assert(marked_at(before, host@, a));
                            }
                            if b < last && a == last {
                                assert(marked_at(before, host@, b));
                            }
                        }
                    }
                    lemma_same_marks(before, self.marks@, host@, now, last);
                }
            },
        }
    }

    /// Forgets the hosts whose marks no longer count at `now`.
    pub fn forget_expired(&mut self, now: u128, duration: u128)
        requires
            old(self).wf(),
        ensures
            final(self).wf(),
            final(self)@ == recent(old(self)@, now, duration),
    {
        let ghost before = self.marks@;
        let mut kept: Vec<HostMark> = Vec::new();
        let mut i: usize = 0;
        while i < self.marks.len()
            invariant
                self.marks@ == before,
                distinct_hosts(before),
                i <= before.len(),
                forall|k: int|
                    0 <= k < kept@.len() ==> survives(
                        before,
                        #[trigger] kept@[k],
                        i as int,
                        now,
                        duration,
                    ),
                forall|j: int|
                    0 <= j < i && still_away((#[trigger] before[j]).since, now, duration)
                        ==> exists|k: int| marked_at(kept@, before[j].host@, k),
                distinct_hosts(kept@),
            decreases before.len() - i,
        {
            let since = self.marks[i].since;
            let passed: u128 = now.saturating_sub(since);
            let ghost kept_before = kept@;
            if passed < duration {
                assert(still_away(before[i as int].since, now, duration));
                kept.push(HostMark { host: self.marks[i].host.clone(), since });
                proof {
                    let n = kept_before.len() as int;
                    assert(marked_at(kept@, before[i as int].host@, n));
                    assert(kept_from(before, kept@[n], i as int, now, duration));
                    assert forall|j: int|
                        0 <= j < i + 1 && still_away((#[trigger] before[j]).since, now, duration)
                        implies exists|k: int| marked_at(kept@, before[j].host@, k) by {
                        if j < i {
                            let k = choose|k: int| marked_at(kept_before, before[j].host@, k);
                            assert(marked_at(kept@, before[j].host@, k));
                        }
                    }
                    assert(distinct_hosts(kept@)) by {
                        assert forall|a: int, b: int|
                            0 <= a < kept@.len() && 0 <= b < kept@.len()
                                && #[trigger] kept@[a].host@ == #[trigger] kept@[b].host@
                            implies a == b by {
                            if a < n && b == n {
                                assert(survives(before, kept_before[a], i as int, now, duration));
                                let j = choose|j: int|
                                    j < i && kept_from(before, kept_before[a], j, now, duration);
                                assert(before[j].host@ == before[i as int].host@);
                            }
                            if b < n && a == n {
                                assert(survives(before, kept_before[b], i as int, now, duration));
                                let j = choose|j: int|
                                    j < i && kept_from(before, kept_before[b], j, now, duration);
                                assert(before[j].host@ == before[i as int].host@);
                            }
                        }
                    }
                }
            }
            proof {
                assert forall|k: int| 0 <= k < kept@.len() implies survives(
                    before,
                    #[trigger] kept@[k],
                    i + 1,
                    now,
                    duration,
                ) by {
                    if k < kept_before.len() {
                        assert(survives(before, kept_before[k], i as int, now, duration));
                        let j = choose|j: int|
                            j < i && kept_from(before, kept_before[k], j, now, duration);
                        assert(kept_from(before, kept@[k], j, now, duration));
                    }
                }
            }
            i += 1;
        }
        self.marks = kept;
        proof {
            let old_map = marks_map(before);
            let new_map = marks_map(self.marks@);
            let goal = recent(old_map, now, duration);
            assert forall|host: Seq<char>| #[trigger]
                new_map.contains_key(host) implies goal.contains_key(host) && goal[host]
                == new_map[host] by {
                let k = choose|k: int| marked_at(self.marks@, host, k);
                lemma_mark_in_map(self.marks@, k);
                assert(survives(before, self.marks@[k], before.len() as int, now, duration));
                let j = choose|j: int| kept_from(before, self.marks@[k], j, now, duration);
                lemma_mark_in_map(before, j);
            }
            assert forall|host: Seq<char>| #[trigger]
                goal.contains_key(host) implies new_map.contains_key(host) by {
                let j = choose|j: int| marked_at(before, host, j);
                lemma_mark_in_map(before, j);
                let k = choose|k: int| marked_at(self.marks@, before[j].host@, k);
                lemma_mark_in_map(self.marks@, k);
            }
            assert(new_map =~= goal);
        }
    }

    /// A host that has been marked for longest, if any is marked.
    pub fn oldest(&self) -> (host: Option<String>)
        requires
            self.wf(),
        ensures
            match host {
                Some(h) => is_oldest(self@, h@),
                None => self@ == Map::<Seq<char>, u128>::empty(),
            },
    {
        if self.marks.len() == 0 {
            assert(self@ =~= Map::<Seq<char>, u128>::empty());
            return None;
        }
        let mut best: usize = 0;
        let mut i: usize = 1;
        while i < self.marks.len()
            invariant
                self.marks@.len() > 0,
                best < self.marks@.len(),
                i <= self.marks@.len(),
                forall|k: int|
                    0 <= k < i ==> self.marks@[best as int].since <= (#[trigger] self.marks@[k]).since,
            decreases self.marks@.len() - i,
        {
            if self.marks[i].since < self.marks[best].since {
                best = i;
            }
            i += 1;
        }
        proof {
            lemma_mark_in_map(self.marks@, best as int);
            assert forall|other: Seq<char>| #[trigger] self@.contains_key(other) implies self@[
                self.marks@[best as int].host@] <= self@[other] by {
                let k = choose|k: int| marked_at(self.marks@, other, k);
                lemma_mark_in_map(self.marks@, k);
            }
        }
        Some(self.marks[best].host.clone())
    }
}

/// Marks that agree but for `host`, which stands in `after` at `at` with `now`.
proof fn lemma_same_marks(
    before: Seq<HostMark>,
    after: Seq<HostMark>,
    host: Seq<char>,
    now: u128,
    at: int,
)
    requires
        distinct_hosts(before),
        distinct_hosts(after),
        0 <= at < after.len(),
        after[at].host@ == host,
        after[at].since == now,
        before.len() <= after.len() <= before.len() + 1,
        forall|k: int| 0 <= k < before.len() && k != at ==> after[k] == #[trigger] before[k],
        at < before.len() ==> before[at].host@ == host,
        after.len() == before.len() + 1 ==> at == before.len(),
    ensures
        marks_map(after) == marks_map(before).insert(host, now),
{
    let old_map = marks_map(before);
    let new_map = marks_map(after);
    lemma_mark_in_map(after, at);
    assert forall|h: Seq<char>| #[trigger] new_map.contains_key(h) implies old_map.insert(
        host,
        now,
    ).contains_key(h) && old_map.insert(host, now)[h] == new_map[h] by {
        let k = choose|k: int| marked_at(after, h, k);
        lemma_mark_in_map(after, k);
        if h != host {
            assert(after[k] == before[k]);
            lemma_mark_in_map(before, k);
        }
    }
    assert forall|h: Seq<char>| #[trigger]
        old_map.insert(host, now).contains_key(h) implies new_map.contains_key(h) by {
        if h != host {
            let k = choose|k: int| marked_at(before, h, k);
            assert(after[k] == before[k]);
            lemma_mark_in_map(after, k);
        }
    }
    assert(new_map =~= old_map.insert(host, now));
}

} // verus!
