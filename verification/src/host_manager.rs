//! The AI hosts: which one to ask next, and what to send it.
use crate::error::{ErrorView, ImageAnalysisError};
use crate::interface::Interface;
use crate::text;
use crate::unavailable;
use crate::unavailable::UnavailableHosts;
use vstd::prelude::*;
use vstd::string::StringExecFns;

verus! {

/// The AI hosts of one kind of service, and how to use them. Moments and
/// durations are counted in nanoseconds.
#[derive(Debug)]
pub struct HostManager {
    hosts: Vec<String>,
    interface: Interface,
    model_name: String,
    timeout: u64,
    max_retries: Option<u32>,
    retry_delay: u128,
    unavailable_hosts: UnavailableHosts,
    unavailable_duration: u128,
    api_key: Option<String>,
}

/// The mathematical content of a [`HostManager`].
pub struct HostManagerView {
    pub hosts: Seq<Seq<char>>,
    pub interface: Interface,
    pub model_name: Seq<char>,
    pub timeout: u64,
    pub max_retries: Option<u32>,
    pub retry_delay: u128,
    pub unavailable: Map<Seq<char>, u128>,
    pub unavailable_duration: u128,
    pub api_key: Option<Seq<char>>,
}

impl View for HostManager {
    type V = HostManagerView;

    closed spec fn view(&self) -> HostManagerView {
        HostManagerView {
            hosts: text::texts_view(self.hosts@),
            interface: self.interface,
            model_name: self.model_name@,
            timeout: self.timeout,
            max_retries: self.max_retries,
            retry_delay: self.retry_delay,
            unavailable: self.unavailable_hosts@,
            unavailable_duration: self.unavailable_duration,
            api_key: text::option_view(self.api_key),
        }
    }
}

/// `hosts[i]` is the first host that is not marked unavailable.
pub open spec fn first_available(
    hosts: Seq<Seq<char>>,
    unavailable: Map<Seq<char>, u128>,
    i: int,
) -> bool {
    &&& 0 <= i < hosts.len()
    &&& !unavailable.contains_key(hosts[i])
    &&& forall|j: int| 0 <= j < i ==> unavailable.contains_key(#[trigger] hosts[j])
}

/// Every host is marked unavailable.
pub open spec fn none_available(
    hosts: Seq<Seq<char>>,
    unavailable: Map<Seq<char>, u128>,
) -> bool {
    forall|j: int| 0 <= j < hosts.len() ==> unavailable.contains_key(#[trigger] hosts[j])
}

/// `host` is the one to ask: the first that is available, or else one that has
/// been unavailable for longest.
pub open spec fn host_to_ask(
    hosts: Seq<Seq<char>>,
    unavailable: Map<Seq<char>, u128>,
    host: Seq<char>,
) -> bool {
    ||| exists|i: int| #[trigger] first_available(hosts, unavailable, i) && hosts[i] == host
    ||| none_available(hosts, unavailable) && unavailable::is_oldest(unavailable, host)
}

impl HostManagerView {
    /// The marks that still count at `now`.
    pub open spec fn recent(self, now: u128) -> Map<Seq<char>, u128> {
        unavailable::recent(self.unavailable, now, self.unavailable_duration)
    }

    /// The authorization that requests carry.
    pub open spec fn authorization(self) -> Option<Seq<char>> {
        match self.api_key {
            Some(key) => if self.interface == Interface::Llamacpp {
                Some("Bearer "@ + key)
            } else {
                None
            },
            None => None,
        }
    }

    /// The seconds to wait for an answer: one more than the timeout.
    pub open spec fn answer_timeout(self) -> u64 {
        if self.timeout == u64::MAX {
            u64::MAX
        } else {
            (self.timeout + 1) as u64
        }
    }

    /// The same hosts with other marks.
    pub open spec fn with_unavailable(self, unavailable: Map<Seq<char>, u128>) -> HostManagerView {
        HostManagerView { unavailable, ..self }
    }
}

impl HostManager {
    /// A limit on the attempts is not 0, and no host is marked twice.
    pub closed spec fn wf(&self) -> bool {
        &&& self.max_retries != Some(0u32)
        &&& self.unavailable_hosts.wf()
    }

    /// Hosts none of which has failed yet. `max_retries` limits the rounds over
    /// the hosts that one analysis makes; without it there is no limit.
    pub fn new(
        hosts: Vec<String>,
        interface: Interface,
        model_name: String,
        timeout: u64,
        max_retries: Option<u32>,
        retry_delay: u128,
        unavailable_duration: u128,
        api_key: Option<String>,
    ) -> (manager: HostManager)
        requires
            max_retries != Some(0u32),
        ensures
            manager.wf(),
            manager@ == (HostManagerView {
                hosts: text::texts_view(hosts@),
                interface,
                model_name: model_name@,
                timeout,
                max_retries,
                retry_delay,
                unavailable: Map::empty(),
                unavailable_duration,
                api_key: text::option_view(api_key),
            }),
    {
        HostManager {
            hosts,
            interface,
            model_name,
            timeout,
            max_retries,
            retry_delay,
            unavailable_hosts: UnavailableHosts::new(),
            unavailable_duration,
            api_key,
        }
    }

    /// Forgets the marks that have expired at `now`, and picks the host to ask.
    /// There is one whenever there are hosts at all.
    pub fn get_available_host(&mut self, now: u128) -> (host: Result<String, ImageAnalysisError>)
        requires
            old(self).wf(),
        ensures
            final(self).wf(),
            final(self)@ == old(self)@.with_unavailable(old(self)@.recent(now)),
            match host {
                Ok(h) => host_to_ask(old(self)@.hosts, old(self)@.recent(now), h@),
                Err(e) => e@ == ErrorView::AllHostsUnavailable,
            },
            host is Err <==> old(self)@.hosts.len() == 0 && old(self)@.recent(now) == Map::<
                Seq<char>,
                u128,
            >::empty(),
    {
        self.unavailable_hosts.forget_expired(now, self.unavailable_duration);
        let ghost away = self.unavailable_hosts@;
        let ghost hosts = self@.hosts;
        let mut i: usize = 0;
        while i < self.hosts.len()
            invariant
                self.wf(),
                self.unavailable_hosts@ == away,
                hosts == text::texts_view(self.hosts@),
                i <= self.hosts@.len(),
                self@ == old(self)@.with_unavailable(old(self)@.recent(now)),
                hosts == old(self)@.hosts,
                away == old(self)@.recent(now),
                forall|j: int| 0 <= j < i ==> away.contains_key(#[trigger] hosts[j]),
            decreases self.hosts@.len() - i,
        {
            if !self.unavailable_hosts.contains(self.hosts[i].as_str()) {
                assert(first_available(hosts, away, i as int));
                return Ok(self.hosts[i].clone());
            }
            assert(away.contains_key(hosts[i as int]));
            i += 1;
        }
        match self.unavailable_hosts.oldest() {
            Some(host) => Ok(host),
            None => {
                assert(hosts.len() == 0) by {
                    if hosts.len() > 0 {
                        assert(away.contains_key(hosts[0]));
                    }
                }
                Err(ImageAnalysisError::AllHostsUnavailable)
            },
        }
    }

    /// Marks `host` unavailable from the moment `now` on.
    pub fn mark_host_unavailable(&mut self, host: &str, now: u128)
        requires
            old(self).wf(),
        ensures
            final(self).wf(),
            final(self)@ == old(self)@.with_unavailable(
                old(self)@.unavailable.insert(host@, now),
            ),
    {
        self.unavailable_hosts.mark(host, now);
    }

    /// The hosts are as many as a list can hold.
    pub proof fn lemma_host_count(&self)
        ensures
            self@.hosts.len() <= usize::MAX,
    {
        assert(self.hosts@.len() == self.hosts.len());
    }

    /// How many hosts there are.
    pub fn host_count(&self) -> (count: usize)
        ensures
            count == self@.hosts.len(),
    {
        self.hosts.len()
    }

    /// The kind of service that the hosts run.
    pub fn interface(&self) -> (interface: Interface)
        ensures
            interface == self@.interface,
    {
        self.interface
    }

    /// The model that is asked for.
    pub fn model_name(&self) -> (name: &str)
        ensures
            name@ == self@.model_name,
    {
        self.model_name.as_str()
    }

    /// The limit on the rounds over the hosts, if there is one.
    pub fn max_retries(&self) -> (limit: Option<u32>)
        ensures
            limit == self@.max_retries,
    {
        self.max_retries
    }

    /// How long to wait between two rounds over the hosts.
    pub fn retry_delay(&self) -> (delay: u128)
        ensures
            delay == self@.retry_delay,
    {
        self.retry_delay
    }

    /// How many seconds to wait for an answer: one more than the timeout.
    pub fn answer_timeout(&self) -> (seconds: u64)
        ensures
            seconds == self@.answer_timeout(),
    {
        self.timeout.saturating_add(1)
    }

    /// The authorization that requests carry: the API key as a bearer token, if
    /// there is a key and the service takes one.
    pub fn authorization(&self) -> (header: Option<String>)
        ensures
            text::option_view(header) == self@.authorization(),
    {
        if self.interface.supports_bearer_auth() {
            match &self.api_key {
                Some(key) => {
                    let mut header = "Bearer ".to_owned();
                    header.append(key.as_str());
                    Some(header)
                },
                None => None,
            }
        } else {
            None
        }
    }
}

} // verus!
