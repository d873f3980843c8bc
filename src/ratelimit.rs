//! Per-client sliding-window request counting.

use vstd::prelude::*;
use crate::assoc::Assoc;
use crate::text::{chars_of, copy_chars};

verus! {

/// Length of the counting window, in seconds.
pub const WINDOW_SECS: u64 = 60;

/// Above this many tracked clients, stale entries are purged.
pub const MAX_TRACKED_CLIENTS: usize = 10000;

/// The quota used when none is configured.
pub const DEFAULT_REQUESTS_PER_MINUTE: u32 = 1000000;

/// Rate-limit settings: off by default, with an effectively unlimited quota.
#[derive(Clone, Copy, Debug, PartialEq, Eq, Structural)]
pub struct RateLimitConfig {
    pub enabled: bool,
    pub requests_per_minute: u32,
}

impl Default for RateLimitConfig {
    fn default() -> (r: Self)
        ensures
            !r.enabled,
            r.requests_per_minute == DEFAULT_REQUESTS_PER_MINUTE,
    {
        RateLimitConfig { enabled: false, requests_per_minute: DEFAULT_REQUESTS_PER_MINUTE }
    }
}

/// Builds rate-limit settings; a missing quota means the default one.
pub fn configure_rate_limiting(enabled: bool, requests_per_minute: Option<u32>) -> (r: RateLimitConfig)
    ensures
        r.enabled == enabled,
        r.requests_per_minute == match requests_per_minute {
            Some(n) => n,
            None => DEFAULT_REQUESTS_PER_MINUTE,
        },
{
    let rpm = match requests_per_minute {
        Some(n) => n,
        None => DEFAULT_REQUESTS_PER_MINUTE,
    };
    RateLimitConfig { enabled, requests_per_minute: rpm }
}

/// One client's window: when it started and how many requests it counted.
#[derive(Clone, Copy, Debug, PartialEq, Eq, Structural)]
pub struct Window {
    pub start: u64,
    pub count: u32,
}

/// A window has run out once the time is more than its length past its start.
pub open spec fn expired(w: Window, now: u64) -> bool {
    now > w.start + WINDOW_SECS
}

/// The client's window after one more request at time `now`.
pub open spec fn next_window(prev: Option<Window>, now: u64) -> Window {
    match prev {
        Some(w) => if expired(w, now) {
            Window { start: now, count: 1 }
        } else {
            Window { start: w.start, count: if w.count == u32::MAX { u32::MAX } else { (w.count + 1) as u32 } }
        },
        None => Window { start: now, count: 1 },
    }
}

/// Whether a request at `now` is admitted under quota `limit`.
pub open spec fn admits(prev: Option<Window>, now: u64, limit: u32) -> bool {
    next_window(prev, now).count <= limit
}

/// The tracked windows after a request from `client` at `now`: the client's
/// window advanced, and past the tracking ceiling the expired ones dropped.
pub open spec fn after_request(m: Map<Seq<char>, Window>, client: Seq<char>, now: u64) -> Map<Seq<char>, Window> {
    let m1 = m.insert(client, next_window(m.get(client), now));
    if m1.dom().len() > MAX_TRACKED_CLIENTS {
        m1.filter_keys(|c: Seq<char>| !expired(m1[c], now))
    } else {
        m1
    }
}

/// The tracked windows after requests from `client` at each of `times`.
pub open spec fn after_requests(m: Map<Seq<char>, Window>, client: Seq<char>, times: Seq<u64>) -> Map<
    Seq<char>,
    Window,
>
    decreases times.len(),
{
    if times.len() == 0 {
        m
    } else {
        after_request(after_requests(m, client, times.drop_last()), client, times.last())
    }
}

proof fn lemma_window_counts(m: Map<Seq<char>, Window>, client: Seq<char>, times: Seq<u64>, n: nat)
    requires
        !m.contains_key(client),
        0 < n <= times.len(),
        times.len() < u32::MAX,
        forall|i: int| 0 <= i < times.len() ==> times[0] <= #[trigger] times[i] <= times[0] + WINDOW_SECS,
    ensures
        after_requests(m, client, times.take(n as int)).get(client) == Some(
            Window { start: times[0], count: n as u32 },
        ),
    decreases n,
{
    let ts = times.take(n as int);
    assert(ts.drop_last() =~= times.take(n - 1));
    assert(ts.last() == times[n - 1]);
    let prev = after_requests(m, client, times.take(n - 1));
    if n == 1 {
        assert(times.take(0) =~= Seq::<u64>::empty());
        assert(prev == m);
    } else {
        lemma_window_counts(m, client, times, (n - 1) as nat);
    }
    let w = next_window(prev.get(client), times[n - 1]);
    assert(w == Window { start: times[0], count: n as u32 });
    let m1 = prev.insert(client, w);
    assert(m1.contains_key(client));
    if m1.dom().len() > MAX_TRACKED_CLIENTS {
        assert(m1.filter_keys(|c: Seq<char>| !expired(m1[c], times[n - 1])).contains_key(client));
    }
}

/// Within one window a client gets exactly `limit` admitted requests: the
/// request at position `i` of a burst that starts the window is admitted
/// exactly when `i < limit`; once the window has run out, the count starts
/// again from one.
pub proof fn lemma_rate_limit_window(m: Map<Seq<char>, Window>, client: Seq<char>, times: Seq<u64>, limit: u32, later: u64)
    requires
        !m.contains_key(client),
        0 < times.len() < u32::MAX,
        forall|i: int| 0 <= i < times.len() ==> times[0] <= #[trigger] times[i] <= times[0] + WINDOW_SECS,
        later > times[0] + WINDOW_SECS,
    ensures
        forall|i: int| 0 <= i < times.len() ==> #[trigger] admits(
            after_requests(m, client, times.take(i)).get(client),
            times[i],
            limit,
        ) == (i < limit),
        next_window(after_requests(m, client, times).get(client), later) == (Window { start: later, count: 1 }),
        admits(after_requests(m, client, times).get(client), later, limit) == (limit >= 1),
{
    assert forall|i: int| 0 <= i < times.len() implies #[trigger] admits(
        after_requests(m, client, times.take(i)).get(client),
        times[i],
        limit,
    ) == (i < limit) by {
        if i == 0 {
            assert(times.take(0) =~= Seq::<u64>::empty());
        } else {
            lemma_window_counts(m, client, times, i as nat);
        }
    }
    lemma_window_counts(m, client, times, times.len());
    assert(times.take(times.len() as int) =~= times);
}

/// Per-client request counters.
pub struct RateLimiter {
    windows: Assoc<Window>,
}

impl RateLimiter {
    /// Client to window.
    pub closed spec fn view(&self) -> Map<Seq<char>, Window> {
        self.windows.view()
    }

    pub closed spec fn wf(&self) -> bool {
        self.windows.wf()
    }

    /// A limiter that tracks no client.
    pub fn new() -> (r: Self)
        ensures
            r.wf(),
            r.view() == Map::<Seq<char>, Window>::empty(),
    {
        RateLimiter { windows: Assoc::new() }
    }

    /// Counts a request from `client` at time `now` (seconds) and says
    /// whether it stays within `limit` requests per window.
    pub fn check_rate_limit(&mut self, client: &str, now: u64, limit: u32) -> (r: bool)
        requires
            old(self).wf(),
        ensures
            final(self).wf(),
            r == admits(old(self).view().get(client@), now, limit),
            final(self).view() == after_request(old(self).view(), client@, now),
    {
        let c = chars_of(client);
        let prev: Option<Window> = match self.windows.get(&c) {
            Some(w) => Some(*w),
            None => None,
        };
        let next = match prev {
            Some(w) => if w.start < now && now - w.start > WINDOW_SECS {
                Window { start: now, count: 1 }
            } else {
                Window { start: w.start, count: if w.count == u32::MAX { u32::MAX } else { w.count + 1 } }
            },
            None => Window { start: now, count: 1 },
        };
        assert(prev == self.view().get(client@));
        assert(next == next_window(prev, now));
        self.windows.insert(c, next);
        if self.windows.len() > MAX_TRACKED_CLIENTS {
            self.purge_expired(now);
        }
        next.count <= limit
    }

    /// Drops every window that has run out at `now`.
    fn purge_expired(&mut self, now: u64)
        requires
            old(self).wf(),
        ensures
            final(self).wf(),
            final(self).view() == old(self).view().filter_keys(|c: Seq<char>| !expired(old(self).view()[c], now)),
    {
        let ghost m = self.view();
        let mut kept: Assoc<Window> = Assoc::new();
        proof {
            self.windows.lemma_positions();
        }
        let mut i: usize = 0;
        while i < self.windows.len()
            invariant
                self.wf(),
                m == self.view(),
                kept.wf(),
                i <= self.windows.size(),
                forall|k: Seq<char>| #[trigger] kept.view().contains_key(k) ==> m.contains_key(k) && !expired(m[k], now)
                    && kept.view()[k] == m[k],
                forall|j: int| 0 <= j < i && !expired(m[self.windows.key_at(j)], now)
                    ==> #[trigger] kept.view().contains_key(self.windows.key_at(j)),
            decreases self.windows.size() - i,
        {
            let w = *self.windows.value(i);
            if !(w.start < now && now - w.start > WINDOW_SECS) {
                let k = copy_chars(self.windows.key(i));
                kept.insert(k, w);
            }
            i = i + 1;
        }
        assert(kept.view() =~= m.filter_keys(|c: Seq<char>| !expired(m[c], now))) by {
            assert forall|k: Seq<char>| m.filter_keys(|c: Seq<char>| !expired(m[c], now)).contains_key(k)
                implies #[trigger] kept.view().contains_key(k) by {
                let j = choose|j: int| 0 <= j < self.windows.size() && self.windows.key_at(j) == k;
                assert(!expired(m[self.windows.key_at(j)], now));
            }
        }
        self.windows = kept;
    }
}

} // verus!
