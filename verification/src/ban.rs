//! Permanent bans for clients that keep failing authentication.
//!
//! A client is identified by a key: an IPv6 address by the text of its /48
//! network, anything else by its own text. A key that fails
//! `max_failures` times within the failure window is banned for good.
//!
//! Whatever changes the records takes the manager by exclusive reference:
//! the look at the window, the count and the ban are one step to every
//! other caller. A server that shares the manager keeps it behind a lock.

use crate::trusted::clock::{clock_elapsed, clock_start, duration_nanos};
use crate::trusted::maps::{
    counter_entries, counter_get, counter_insert, counter_new, failure_entries, failures_get,
    failures_insert, failures_new, failures_remove,
};
use crate::trusted::net::{ipv6_network, ipv6_network_text};
use dashmap::DashMap;
use std::time::Instant;
use vstd::prelude::*;

verus! {

/// Prefix length by which IPv6 clients are grouped.
pub const NETWORK_PREFIX_LEN: u8 = 48;

/// Nanoseconds in one hour.
pub const NANOS_PER_HOUR: u128 = 3_600_000_000_000;

/// The key under which a client is counted and banned.
#[derive(Debug)]
pub enum ClientKey {
    /// An address, or any other text, counted on its own.
    Address(String),
    /// An IPv6 network, counted as a whole.
    Network(String),
}

/// Mathematical value of a [`ClientKey`].
pub enum KeyView {
    Address(Seq<char>),
    Network(Seq<char>),
}

impl View for ClientKey {
    type V = KeyView;

    open spec fn view(&self) -> KeyView {
        match self {
            ClientKey::Address(s) => KeyView::Address(s@),
            ClientKey::Network(s) => KeyView::Network(s@),
        }
    }
}

/// The key that a client identifier is counted under.
pub open spec fn key_of(ip: Seq<char>) -> KeyView {
    match ipv6_network_text(ip, NETWORK_PREFIX_LEN) {
        Some(network) => KeyView::Network(network),
        None => KeyView::Address(ip),
    }
}

/// Derives the key of a client identifier.
pub fn client_key(ip: &str) -> (key: ClientKey)
    ensures
        key@ == key_of(ip@),
{
    match ipv6_network(ip, NETWORK_PREFIX_LEN) {
        Some(network) => ClientKey::Network(network),
        None => ClientKey::Address(String::from_str(ip)),
    }
}

/// Mathematical value of an [`IpBanManager`].
pub struct BanView {
    /// Per key: failures counted so far and the time of the first of them.
    pub failures: Map<KeyView, (u32, u128)>,
    /// Keys banned for good.
    pub banned: Set<KeyView>,
    /// Failures within one window that lead to a ban.
    pub max_failures: u32,
    /// Length of the failure window in nanoseconds.
    pub window: nat,
}

/// Time from `first` to `now`, zero where `now` is the earlier one.
pub open spec fn elapsed(now: u128, first: u128) -> nat {
    if now >= first {
        (now - first) as nat
    } else {
        0
    }
}

/// Whether `key` has a failure record whose window is still open at `now`.
pub open spec fn in_window(s: BanView, key: KeyView, now: u128) -> bool {
    s.failures.contains_key(key) && elapsed(now, s.failures[key].1) <= s.window
}

/// The record of `key` after one more failure at `now`: one more within an
/// open window (the count stops at `u32::MAX`), a fresh record otherwise.
pub open spec fn next_record(s: BanView, key: KeyView, now: u128) -> (u32, u128) {
    if in_window(s, key, now) {
        let (count, first) = s.failures[key];
        (
            if count < u32::MAX {
                (count + 1) as u32
            } else {
                count
            },
            first,
        )
    } else {
        (1u32, now)
    }
}

/// The state after `key` fails at `now`.
pub open spec fn after_failure(s: BanView, key: KeyView, now: u128) -> BanView {
    let record = next_record(s, key, now);
    BanView {
        failures: s.failures.insert(key, record),
        banned: if record.0 >= s.max_failures {
            s.banned.insert(key)
        } else {
            s.banned
        },
        max_failures: s.max_failures,
        window: s.window,
    }
}

/// The state after `key` authenticates: its record is gone, bans stay.
pub open spec fn after_reset(s: BanView, key: KeyView) -> BanView {
    BanView {
        failures: s.failures.remove(key),
        banned: s.banned,
        max_failures: s.max_failures,
        window: s.window,
    }
}

/// The failures that count against `key` at `now`.
pub open spec fn failure_count(s: BanView, key: KeyView, now: u128) -> u32 {
    if in_window(s, key, now) {
        s.failures[key].0
    } else {
        0
    }
}

/// The state after `key` fails at each of `times` in turn.
pub open spec fn after_failures(s: BanView, key: KeyView, times: Seq<u128>) -> BanView
    decreases times.len(),
{
    if times.len() == 0 {
        s
    } else {
        after_failure(after_failures(s, key, times.drop_last()), key, times.last())
    }
}

/// A ban is for good: neither a failure nor a reset lifts one, of whatever
/// key.
pub proof fn lemma_ban_is_permanent(s: BanView, banned: KeyView, key: KeyView, now: u128)
    requires
        s.banned.contains(banned),
    ensures
        after_failure(s, key, now).banned.contains(banned),
        after_reset(s, key).banned.contains(banned),
{
}

/// A reset removes the failure record of the key and no other.
pub proof fn lemma_reset_removes_record(s: BanView, key: KeyView, other: KeyView)
    ensures
        !after_reset(s, key).failures.contains_key(key),
        other != key ==> after_reset(s, key).failures.contains_key(other)
            == s.failures.contains_key(other),
{
}

/// Once a network is banned, every address that lies in it is banned.
pub proof fn lemma_network_ban_covers(s: BanView, banned_ip: Seq<char>, ip: Seq<char>)
    requires
        ipv6_network_text(banned_ip, NETWORK_PREFIX_LEN) is Some,
        ipv6_network_text(ip, NETWORK_PREFIX_LEN) == ipv6_network_text(
            banned_ip,
            NETWORK_PREFIX_LEN,
        ),
        s.banned.contains(key_of(banned_ip)),
    ensures
        s.banned.contains(key_of(ip)),
{
}

/// The failure that brings the count within the window to `max_failures`
/// bans the key.
pub proof fn lemma_failure_at_threshold_bans(s: BanView, key: KeyView, now: u128)
    requires
        failure_count(s, key, now) + 1 >= s.max_failures,
    ensures
        after_failure(s, key, now).banned.contains(key),
{
}

/// What a run of failures within one window leads to: the record counts
/// them all from the first one on, and the key is banned as soon as they
/// are `max_failures` many.
pub proof fn lemma_failures_in_window(s: BanView, key: KeyView, times: Seq<u128>)
    requires
        times.len() >= 1,
        !in_window(s, key, times[0]),
        forall|i: int|
            0 <= i < times.len() ==> times[0] <= #[trigger] times[i] && times[i] - times[0]
                <= s.window,
    ensures
        after_failures(s, key, times).failures.contains_key(key),
        after_failures(s, key, times).failures[key] == (
            (if times.len() <= u32::MAX {
                times.len() as u32
            } else {
                u32::MAX
            }),
            times[0],
        ),
        after_failures(s, key, times).max_failures == s.max_failures,
        after_failures(s, key, times).window == s.window,
        times.len() >= s.max_failures ==> after_failures(s, key, times).banned.contains(key),
    decreases times.len(),
{
    let earlier = times.drop_last();
    if times.len() == 1 {
        assert(earlier.len() == 0);
        assert(after_failures(s, key, earlier) == s);
    } else {
        assert(earlier[0] == times[0]);
        assert forall|i: int| 0 <= i < earlier.len() implies earlier[0] <= #[trigger] earlier[i]
            && earlier[i] - earlier[0] <= s.window by {
            assert(earlier[i] == times[i]);
        }
        lemma_failures_in_window(s, key, earlier);
        let mid = after_failures(s, key, earlier);
        assert(in_window(mid, key, times.last()));
        if earlier.len() >= s.max_failures {
            lemma_ban_is_permanent(mid, key, key, times.last());
        }
    }
}

/// Counts authentication failures per client key and bans keys for good.
pub struct IpBanManager {
    /// Per address or other text: failures counted and time of the first.
    ipv4_fail_records: DashMap<String, (u32, u128)>,
    /// Per IPv6 network: failures counted and time of the first.
    ipv6_fail_records: DashMap<String, (u32, u128)>,
    /// Banned addresses and other texts, each with the failures counted
    /// when it was last banned.
    banned_ipv4: DashMap<String, u64>,
    /// Banned IPv6 networks, each with the failures counted when it was
    /// last banned.
    banned_ipv6_networks: DashMap<String, u64>,
    /// Failures within one window that lead to a ban.
    max_failures: u32,
    /// Length of the failure window in hours.
    failure_window_hours: u64,
    /// The moment from which the clock readings count.
    started: Instant,
}

impl View for IpBanManager {
    type V = BanView;

    closed spec fn view(&self) -> BanView {
        BanView {
            failures: Map::new(
                |k: KeyView|
                    match k {
                        KeyView::Address(s) => failure_entries(self.ipv4_fail_records).contains_key(
                            s,
                        ),
                        KeyView::Network(s) => failure_entries(self.ipv6_fail_records).contains_key(
                            s,
                        ),
                    },
                |k: KeyView|
                    match k {
                        KeyView::Address(s) => failure_entries(self.ipv4_fail_records)[s],
                        KeyView::Network(s) => failure_entries(self.ipv6_fail_records)[s],
                    },
            ),
            banned: Set::new(
                |k: KeyView|
                    match k {
                        KeyView::Address(s) => counter_entries(self.banned_ipv4).contains_key(s),
                        KeyView::Network(s) => counter_entries(
                            self.banned_ipv6_networks,
                        ).contains_key(s),
                    },
            ),
            max_failures: self.max_failures,
            window: (self.failure_window_hours as nat) * (NANOS_PER_HOUR as nat),
        }
    }
}

impl IpBanManager {
    /// A manager with no records and no bans, a window of one hour, and the
    /// given number of failures that lead to a ban.
    pub fn new(max_failures: u32) -> (m: IpBanManager)
        ensures
            m@.failures == Map::<KeyView, (u32, u128)>::empty(),
            m@.banned == Set::<KeyView>::empty(),
            m@.max_failures == max_failures,
            m@.window == NANOS_PER_HOUR,
    {
        let m = IpBanManager {
            ipv4_fail_records: failures_new(),
            ipv6_fail_records: failures_new(),
            banned_ipv4: counter_new(),
            banned_ipv6_networks: counter_new(),
            max_failures,
            failure_window_hours: 1,
            started: clock_start(),
        };
        assert(m@.failures =~= Map::<KeyView, (u32, u128)>::empty());
        assert(m@.banned =~= Set::<KeyView>::empty());
        m
    }

    /// The clock reading that the timed operations of this manager use:
    /// nanoseconds since the manager was made.
    pub fn now(&self) -> (now: u128) {
        let passed = clock_elapsed(&self.started);
        duration_nanos(&passed)
    }

    /// Whether `key` is banned.
    pub fn is_key_banned(&self, key: &ClientKey) -> (banned: bool)
        ensures
            banned == self@.banned.contains(key@),
    {
        match key {
            ClientKey::Address(s) => counter_get(&self.banned_ipv4, s.as_str()).is_some(),
            ClientKey::Network(s) => counter_get(
                &self.banned_ipv6_networks,
                s.as_str(),
            ).is_some(),
        }
    }

    /// Whether the client `ip` is banned: whether its key is.
    pub fn is_banned(&self, ip: &str) -> (banned: bool)
        ensures
            banned == self@.banned.contains(key_of(ip@)),
    {
        let key = client_key(ip);
        self.is_key_banned(&key)
    }

    fn window_nanos(&self) -> (w: u128)
        ensures
            w == self@.window,
    {
        assert((self.failure_window_hours as nat) * (NANOS_PER_HOUR as nat) <= u128::MAX) by {
            assert(self.failure_window_hours <= u64::MAX);
            assert((self.failure_window_hours as nat) * 3_600_000_000_000nat
                <= 0xffff_ffff_ffff_ffffnat * 3_600_000_000_000nat) by (nonlinear_arith)
                requires
                    self.failure_window_hours <= 0xffff_ffff_ffff_ffffu64,
            ;
        }
        (self.failure_window_hours as u128) * NANOS_PER_HOUR
    }

    fn record_of(&self, key: &ClientKey) -> (r: Option<(u32, u128)>)
        ensures
            r == (if self@.failures.contains_key(key@) {
                Some(self@.failures[key@])
            } else {
                None
            }),
    {
        match key {
            ClientKey::Address(s) => failures_get(&self.ipv4_fail_records, s.as_str()),
            ClientKey::Network(s) => failures_get(&self.ipv6_fail_records, s.as_str()),
        }
    }

    /// Counts one failure of `key` at the clock reading `now`, and bans the
    /// key once its count has reached `max_failures`.
    pub fn record_key_failure(&mut self, key: &ClientKey, now: u128)
        ensures
            final(self)@ == after_failure(old(self)@, key@, now),
    {
        let window = self.window_nanos();
        let record = match self.record_of(key) {
            Some((count, first)) => {
                let passed: u128 = if now >= first {
                    now - first
                } else {
                    0
                };
                if passed <= window {
                    (
                        if count < u32::MAX {
                            count + 1
                        } else {
                            count
                        },
                        first,
                    )
                } else {
                    (1u32, now)
                }
            },
            None => (1u32, now),
        };
        assert(record == next_record(old(self)@, key@, now));
        let ban = record.0 >= self.max_failures;
        match key {
            ClientKey::Address(s) => {
                failures_insert(&mut self.ipv4_fail_records, s.clone(), record);
                if ban {
                    counter_insert(&mut self.banned_ipv4, s.clone(), record.0 as u64);
                }
            },
            ClientKey::Network(s) => {
                failures_insert(&mut self.ipv6_fail_records, s.clone(), record);
                if ban {
                    counter_insert(&mut self.banned_ipv6_networks, s.clone(), record.0 as u64);
                }
            },
        }
        assert(self@.failures =~= after_failure(old(self)@, key@, now).failures);
        assert(self@.banned =~= after_failure(old(self)@, key@, now).banned);
    }

    /// Counts one failure of the client `ip` at the present clock reading.
    pub fn record_failure(&mut self, ip: &str)
        ensures
            exists|now: u128| final(self)@ == after_failure(old(self)@, key_of(ip@), now),
    {
        let key = client_key(ip);
        let now = self.now();
        self.record_key_failure(&key, now);
    }

    /// Forgets the failures of `key`. A ban stays.
    pub fn reset_key_failures(&mut self, key: &ClientKey)
        ensures
            final(self)@ == after_reset(old(self)@, key@),
    {
        match key {
            ClientKey::Address(s) => failures_remove(&mut self.ipv4_fail_records, s.as_str()),
            ClientKey::Network(s) => failures_remove(&mut self.ipv6_fail_records, s.as_str()),
        }
        assert(self@.failures =~= after_reset(old(self)@, key@).failures);
        assert(self@.banned =~= after_reset(old(self)@, key@).banned);
    }

    /// Forgets the failures of the client `ip`, as after a successful
    /// authentication. A ban stays.
    pub fn reset_failures(&mut self, ip: &str)
        ensures
            final(self)@ == after_reset(old(self)@, key_of(ip@)),
    {
        let key = client_key(ip);
        self.reset_key_failures(&key);
    }

    /// The failures that count against `key` at the clock reading `now`:
    /// zero without a record or once its window has passed.
    pub fn key_failure_count(&self, key: &ClientKey, now: u128) -> (count: u32)
        ensures
            count == failure_count(self@, key@, now),
    {
        let window = self.window_nanos();
        match self.record_of(key) {
            Some((count, first)) => {
                let passed: u128 = if now >= first {
                    now - first
                } else {
                    0
                };
                if passed <= window {
                    count
                } else {
                    0
                }
            },
            None => 0,
        }
    }

    /// The failures that count against the client `ip` at present.
    pub fn get_failure_count(&self, ip: &str) -> (count: u32)
        ensures
            exists|now: u128| count == failure_count(self@, key_of(ip@), now),
    {
        let key = client_key(ip);
        let now = self.now();
        self.key_failure_count(&key, now)
    }
}

} // verus!
