//! Per-client sliding-window throttling: a cap on requests per window and a
//! cool-down after repeated authentication failures.

use vstd::prelude::*;

use std::collections::VecDeque;
use std::time::Instant;

verus! {

/// Requests a client may make within one `RATE_WINDOW_NANOS`.
pub const RATE_LIMIT: usize = 120;

/// The request window: sixty seconds, in nanoseconds.
pub const RATE_WINDOW_NANOS: u128 = 60_000_000_000;

/// Authentication failures after which a client is refused within one
/// `AUTH_FAIL_WINDOW_NANOS`.
pub const AUTH_FAIL_LIMIT: usize = 10;

/// The failure window: three hundred seconds, in nanoseconds.
pub const AUTH_FAIL_WINDOW_NANOS: u128 = 300_000_000_000;

#[verifier::external_type_specification]
#[verifier::external_body]
pub struct ExInstant(Instant);

/// `std::time::Instant::now`. It reads the clock: nothing is stated of it.
#[verifier::external_body]
fn instant_now() -> Instant {
    Instant::now()
}

/// `std::time::Instant::elapsed`, in nanoseconds: the time since `origin`. It
/// reads the clock: nothing is stated of it.
#[verifier::external_body]
fn nanos_since(origin: &Instant) -> u128 {
    origin.elapsed().as_nanos()
}

/// How long before `now` the moment `t` lies; zero when `t` is later.
pub open spec fn age(now: u128, t: u128) -> int {
    if now >= t { now - t } else { 0 }
}

/// `q` without the leading entries that are at least `window` old at `now`.
pub open spec fn pruned(q: Seq<u128>, window: u128, now: u128) -> Seq<u128>
    decreases q.len(),
{
    if q.len() > 0 && age(now, q[0]) >= window {
        pruned(q.drop_first(), window, now)
    } else {
        q
    }
}

/// Pruning never lengthens a log.
pub proof fn lemma_pruned_len(q: Seq<u128>, window: u128, now: u128)
    ensures
        pruned(q, window, now).len() <= q.len(),
    decreases q.len(),
{
    if q.len() > 0 && age(now, q[0]) >= window {
        lemma_pruned_len(q.drop_first(), window, now);
    }
}

/// Drops the entries at the front of `queue` that are at least `window` old
/// at `now`.
fn prune(queue: &mut VecDeque<u128>, window: u128, now: u128)
    ensures
        final(queue)@ == pruned(old(queue)@, window, now),
{
    while queue.len() > 0 && now.saturating_sub(queue[0]) >= window
        invariant
            pruned(queue@, window, now) == pruned(old(queue)@, window, now),
        decreases queue@.len(),
    {
        queue.pop_front();
    }
}

/// The effect of deciding at time `now` on a request of client `ip`, with
/// answer `r`: the client is refused while it has `AUTH_FAIL_LIMIT` failures
/// within the failure window or `RATE_LIMIT` requests within the request
/// window; an admitted request is recorded, a refused one is not; entries
/// that have left their window are forgotten; other clients are untouched.
pub open spec fn allow_step(
    before: ClientLogs,
    after: ClientLogs,
    ip: Seq<char>,
    now: u128,
    r: bool,
) -> bool {
    let f = pruned(before.failures_of(ip), AUTH_FAIL_WINDOW_NANOS, now);
    let q = pruned(before.requests_of(ip), RATE_WINDOW_NANOS, now);
    &&& r == (f.len() < AUTH_FAIL_LIMIT && q.len() < RATE_LIMIT)
    &&& after.failures_of(ip) == f
    &&& after.requests_of(ip) == (if f.len() >= AUTH_FAIL_LIMIT {
        before.requests_of(ip)
    } else if r {
        q.push(now)
    } else {
        q
    })
    &&& forall|other: Seq<char>| other != ip ==> #[trigger] after.requests_of(other)
        == before.requests_of(other) && after.failures_of(other) == before.failures_of(other)
}

/// The effect of recording an authentication failure of client `ip` at time
/// `now`: it joins the client's failures that are still within the failure
/// window; nothing else changes.
pub open spec fn failure_step(before: ClientLogs, after: ClientLogs, ip: Seq<char>, now: u128) -> bool {
    &&& after.failures_of(ip) == pruned(before.failures_of(ip), AUTH_FAIL_WINDOW_NANOS, now).push(now)
    &&& after.requests_of(ip) == before.requests_of(ip)
    &&& forall|other: Seq<char>| other != ip ==> #[trigger] after.requests_of(other)
        == before.requests_of(other) && after.failures_of(other) == before.failures_of(other)
}

/// Whether the times of `q` never decrease.
pub open spec fn sorted_times(q: Seq<u128>) -> bool {
    forall|i: int, j: int| 0 <= i <= j < q.len() ==> #[trigger] q[i] <= #[trigger] q[j]
}

/// Whether `q` is in time order and holds no time after `t`.
pub open spec fn timed(q: Seq<u128>, t: u128) -> bool {
    &&& sorted_times(q)
    &&& forall|i: int| 0 <= i < q.len() ==> #[trigger] q[i] <= t
}

/// The entries of `q` younger than `window` at `now`, in their order.
pub open spec fn recent(q: Seq<u128>, window: u128, now: u128) -> Seq<u128>
    decreases q.len(),
{
    if q.len() == 0 {
        Seq::empty()
    } else if age(now, q[0]) < window {
        seq![q[0]] + recent(q.drop_first(), window, now)
    } else {
        recent(q.drop_first(), window, now)
    }
}

/// Pruning keeps a suffix of the log.
pub proof fn lemma_pruned_suffix(q: Seq<u128>, window: u128, now: u128)
    ensures
        exists|k: int| 0 <= k <= q.len() && #[trigger] q.subrange(k, q.len() as int) == pruned(q, window, now),
    decreases q.len(),
{
    if q.len() > 0 && age(now, q[0]) >= window {
        lemma_pruned_suffix(q.drop_first(), window, now);
        let k = choose|k: int| 0 <= k <= q.drop_first().len() && #[trigger] q.drop_first().subrange(
            k,
            q.drop_first().len() as int,
        ) == pruned(q.drop_first(), window, now);
        assert(q.subrange(k + 1, q.len() as int) =~= q.drop_first().subrange(k, q.drop_first().len() as int));
    } else {
        assert(q.subrange(0, q.len() as int) =~= q);
    }
}

/// A log in time order up to `t` stays so when pruned.
pub proof fn lemma_pruned_timed(q: Seq<u128>, window: u128, now: u128, t: u128)
    requires
        timed(q, t),
    ensures
        timed(pruned(q, window, now), t),
{
    lemma_pruned_suffix(q, window, now);
    let k = choose|k: int| 0 <= k <= q.len() && #[trigger] q.subrange(k, q.len() as int) == pruned(q, window, now);
    let p = q.subrange(k, q.len() as int);
    assert forall|i: int, j: int| 0 <= i <= j < p.len() implies #[trigger] p[i] <= #[trigger] p[j] by {
        assert(p[i] == q[k + i] && p[j] == q[k + j]);
    }
    assert forall|i: int| 0 <= i < p.len() implies #[trigger] p[i] <= t by {
        assert(p[i] == q[k + i]);
    }
}

/// When every entry is younger than the window, all are recent.
pub proof fn lemma_recent_all(q: Seq<u128>, window: u128, now: u128)
    requires
        forall|i: int| 0 <= i < q.len() ==> age(now, #[trigger] q[i]) < window,
    ensures
        recent(q, window, now) == q,
    decreases q.len(),
{
    if q.len() > 0 {
        assert forall|i: int| 0 <= i < q.drop_first().len() implies age(now, #[trigger] q.drop_first()[i]) < window by {
            assert(q.drop_first()[i] == q[i + 1]);
        }
        lemma_recent_all(q.drop_first(), window, now);
        assert(seq![q[0]] + q.drop_first() =~= q);
    }
}

/// When every entry is at least as old as the window, none is recent.
pub proof fn lemma_recent_none(q: Seq<u128>, window: u128, now: u128)
    requires
        forall|i: int| 0 <= i < q.len() ==> age(now, #[trigger] q[i]) >= window,
    ensures
        recent(q, window, now) == Seq::<u128>::empty(),
    decreases q.len(),
{
    if q.len() > 0 {
        assert forall|i: int| 0 <= i < q.drop_first().len() implies age(now, #[trigger] q.drop_first()[i]) >= window by {
            assert(q.drop_first()[i] == q[i + 1]);
        }
        lemma_recent_none(q.drop_first(), window, now);
    }
}

/// On a log in time order up to `now`, pruning keeps exactly the entries
/// younger than the window.
pub proof fn lemma_pruned_is_recent(q: Seq<u128>, window: u128, now: u128)
    requires
        timed(q, now),
    ensures
        pruned(q, window, now) == recent(q, window, now),
    decreases q.len(),
{
    if q.len() > 0 {
        if age(now, q[0]) >= window {
            let d = q.drop_first();
            assert forall|i: int, j: int| 0 <= i <= j < d.len() implies #[trigger] d[i] <= #[trigger] d[j] by {
                assert(d[i] == q[i + 1] && d[j] == q[j + 1]);
            }
            assert forall|i: int| 0 <= i < d.len() implies #[trigger] d[i] <= now by {
                assert(d[i] == q[i + 1]);
            }
            lemma_pruned_is_recent(d, window, now);
        } else {
            assert forall|i: int| 0 <= i < q.len() implies age(now, #[trigger] q[i]) < window by {
                assert(q[0] <= q[i]);
                assert(q[i] <= now);
            }
            lemma_recent_all(q, window, now);
        }
    }
}

/// A log in time order up to `t` stays so with `t` appended.
pub proof fn lemma_push_timed(q: Seq<u128>, t: u128)
    requires
        timed(q, t),
    ensures
        timed(q.push(t), t),
{
    let p = q.push(t);
    assert forall|i: int, j: int| 0 <= i <= j < p.len() implies #[trigger] p[i] <= #[trigger] p[j] by {
        if j < q.len() {
            assert(p[i] == q[i] && p[j] == q[j]);
        } else if i < q.len() {
            assert(p[i] == q[i]);
        }
    }
    assert forall|i: int| 0 <= i < p.len() implies #[trigger] p[i] <= t by {
        if i < q.len() {
            assert(p[i] == q[i]);
        }
    }
}

/// The effect of deciding at time `now` on a request of client `ip`, with
/// answer `r`, for logs kept in time order: the client is refused while
/// `AUTH_FAIL_LIMIT` of its failures are younger than the failure window or
/// `RATE_LIMIT` of its requests are younger than the request window; its
/// logs keep exactly the entries younger than their windows (the request log
/// is left alone while failures refuse it); an admitted request is recorded,
/// a refused one is not; other clients are untouched.
pub open spec fn allow_effect(
    before: ClientLogs,
    after: ClientLogs,
    ip: Seq<char>,
    now: u128,
    r: bool,
) -> bool {
    let f = recent(before.failures_of(ip), AUTH_FAIL_WINDOW_NANOS, now);
    let q = recent(before.requests_of(ip), RATE_WINDOW_NANOS, now);
    &&& r == (f.len() < AUTH_FAIL_LIMIT && q.len() < RATE_LIMIT)
    &&& after.failures_of(ip) == f
    &&& after.requests_of(ip) == (if f.len() >= AUTH_FAIL_LIMIT {
        before.requests_of(ip)
    } else if r {
        q.push(now)
    } else {
        q
    })
    &&& forall|other: Seq<char>| other != ip ==> #[trigger] after.requests_of(other)
        == before.requests_of(other) && after.failures_of(other) == before.failures_of(other)
}

/// The effect of recording at time `now` an authentication failure of client
/// `ip`, for logs kept in time order: its failure log keeps exactly the
/// failures younger than the failure window, then `now`; nothing else
/// changes. The failure is recorded whether or not the client is refused.
pub open spec fn failure_effect(before: ClientLogs, after: ClientLogs, ip: Seq<char>, now: u128) -> bool {
    &&& after.failures_of(ip) == recent(before.failures_of(ip), AUTH_FAIL_WINDOW_NANOS, now).push(now)
    &&& after.requests_of(ip) == before.requests_of(ip)
    &&& forall|other: Seq<char>| other != ip ==> #[trigger] after.requests_of(other)
        == before.requests_of(other) && after.failures_of(other) == before.failures_of(other)
}

proof fn lemma_timed_later(q: Seq<u128>, t: u128, u: u128)
    requires
        timed(q, t),
        t <= u,
    ensures
        timed(q, u),
{
}

/// A step on logs in time order up to `now` keeps exactly the recent entries
/// and leaves the logs in time order up to `now`.
proof fn lemma_allow_step_effect(before: ClientLogs, after: ClientLogs, ip: Seq<char>, now: u128, r: bool)
    requires
        allow_step(before, after, ip, now, r),
        before.ordered_until(now),
    ensures
        allow_effect(before, after, ip, now, r),
        after.ordered_until(now),
{
    let fo = before.failures_of(ip);
    let ro = before.requests_of(ip);
    assert(timed(fo, now));
    assert(timed(ro, now));
    lemma_pruned_is_recent(fo, AUTH_FAIL_WINDOW_NANOS, now);
    lemma_pruned_is_recent(ro, RATE_WINDOW_NANOS, now);
    lemma_pruned_timed(fo, AUTH_FAIL_WINDOW_NANOS, now, now);
    lemma_pruned_timed(ro, RATE_WINDOW_NANOS, now, now);
    lemma_push_timed(pruned(ro, RATE_WINDOW_NANOS, now), now);
    assert forall|other: Seq<char>| #[trigger] timed(after.requests_of(other), now) by {
        if other != ip {
            assert(timed(before.requests_of(other), now));
        }
    }
    assert forall|other: Seq<char>| #[trigger] timed(after.failures_of(other), now) by {
        if other != ip {
            assert(after.requests_of(other) == before.requests_of(other));
            assert(timed(before.failures_of(other), now));
        } else {
            assert(after.failures_of(other) == pruned(fo, AUTH_FAIL_WINDOW_NANOS, now));
        }
    }
}

proof fn lemma_failure_step_effect(before: ClientLogs, after: ClientLogs, ip: Seq<char>, now: u128)
    requires
        failure_step(before, after, ip, now),
        before.ordered_until(now),
    ensures
        failure_effect(before, after, ip, now),
        after.ordered_until(now),
{
    let fo = before.failures_of(ip);
    assert(timed(fo, now));
    lemma_pruned_is_recent(fo, AUTH_FAIL_WINDOW_NANOS, now);
    lemma_pruned_timed(fo, AUTH_FAIL_WINDOW_NANOS, now, now);
    lemma_push_timed(pruned(fo, AUTH_FAIL_WINDOW_NANOS, now), now);
    assert forall|other: Seq<char>| #[trigger] timed(after.requests_of(other), now) by {
        assert(timed(before.requests_of(other), now));
    }
    assert forall|other: Seq<char>| #[trigger] timed(after.failures_of(other), now) by {
        if other != ip {
            assert(after.requests_of(other) == before.requests_of(other));
            assert(timed(before.failures_of(other), now));
        } else {
            assert(after.failures_of(other) == pruned(fo, AUTH_FAIL_WINDOW_NANOS, now).push(now));
        }
    }
}

/// A client whose failures on record number at least `AUTH_FAIL_LIMIT` and
/// all lie within the failure window is refused, and its request log is left
/// as it was.
pub proof fn lemma_cooldown_refuses(
    before: ClientLogs,
    after: ClientLogs,
    ip: Seq<char>,
    now: u128,
    r: bool,
)
    requires
        allow_effect(before, after, ip, now, r),
        before.failures_of(ip).len() >= AUTH_FAIL_LIMIT,
        forall|i: int|
            0 <= i < before.failures_of(ip).len() ==> age(now, #[trigger] before.failures_of(ip)[i])
                < AUTH_FAIL_WINDOW_NANOS,
    ensures
        !r,
        after.requests_of(ip) == before.requests_of(ip),
{
    lemma_recent_all(before.failures_of(ip), AUTH_FAIL_WINDOW_NANOS, now);
}

/// A failure recorded while the earlier ones are all within the window is
/// added to them without any being forgotten.
pub proof fn lemma_failure_appends(before: ClientLogs, after: ClientLogs, ip: Seq<char>, now: u128)
    requires
        failure_effect(before, after, ip, now),
        forall|i: int|
            0 <= i < before.failures_of(ip).len() ==> age(now, #[trigger] before.failures_of(ip)[i])
                < AUTH_FAIL_WINDOW_NANOS,
    ensures
        after.failures_of(ip) == before.failures_of(ip).push(now),
{
    lemma_recent_all(before.failures_of(ip), AUTH_FAIL_WINDOW_NANOS, now);
}

/// Taking the recent entries never lengthens a log.
pub proof fn lemma_recent_len(q: Seq<u128>, window: u128, now: u128)
    ensures
        recent(q, window, now).len() <= q.len(),
    decreases q.len(),
{
    if q.len() > 0 {
        lemma_recent_len(q.drop_first(), window, now);
    }
}

/// A client with `RATE_LIMIT` requests within the request window is
/// refused, and the refused request is not recorded: its log can only
/// shrink.
pub proof fn lemma_rate_limit_refuses(
    before: ClientLogs,
    after: ClientLogs,
    ip: Seq<char>,
    now: u128,
    r: bool,
)
    requires
        allow_effect(before, after, ip, now, r),
        recent(before.requests_of(ip), RATE_WINDOW_NANOS, now).len() >= RATE_LIMIT,
    ensures
        !r,
        after.requests_of(ip).len() <= before.requests_of(ip).len(),
{
    lemma_recent_len(before.requests_of(ip), RATE_WINDOW_NANOS, now);
}

/// A client with no failure within the failure window and no request within
/// the request window is admitted: refused requests are not recorded, so a
/// throttled client is let through again once its window has aged out.
pub proof fn lemma_window_ages_out(before: ClientLogs, after: ClientLogs, ip: Seq<char>, now: u128, r: bool)
    requires
        allow_effect(before, after, ip, now, r),
        forall|i: int|
            0 <= i < before.failures_of(ip).len() ==> age(now, #[trigger] before.failures_of(ip)[i])
                >= AUTH_FAIL_WINDOW_NANOS,
        forall|i: int|
            0 <= i < before.requests_of(ip).len() ==> age(now, #[trigger] before.requests_of(ip)[i])
                >= RATE_WINDOW_NANOS,
    ensures
        r,
        after.requests_of(ip) == seq![now],
{
    lemma_recent_none(before.failures_of(ip), AUTH_FAIL_WINDOW_NANOS, now);
    lemma_recent_none(before.requests_of(ip), RATE_WINDOW_NANOS, now);
    assert(Seq::<u128>::empty().push(now) =~= seq![now]);
}

/// The requests and authentication failures recorded for one client.
pub struct ClientLog {
    ip: String,
    requests: VecDeque<u128>,
    failures: VecDeque<u128>,
}

/// The request and failure logs of every client seen. Times are
/// nanoseconds since some fixed moment.
pub struct ClientLogs {
    logs: Vec<ClientLog>,
}

impl ClientLogs {
    /// No client has two logs, and no request log exceeds the limit.
    pub closed spec fn wf(&self) -> bool {
        &&& forall|i: int, j: int|
            0 <= i < j < self.logs@.len() ==> #[trigger] self.logs@[i].ip@
                != #[trigger] self.logs@[j].ip@
        &&& forall|i: int|
            0 <= i < self.logs@.len() ==> #[trigger] self.logs@[i].requests@.len() <= RATE_LIMIT
    }

    /// Whether every log is in time order and holds no time after `t`.
    pub open spec fn ordered_until(&self, t: u128) -> bool {
        &&& forall|ip: Seq<char>| #[trigger] timed(self.requests_of(ip), t)
        &&& forall|ip: Seq<char>| #[trigger] timed(self.failures_of(ip), t)
    }

    /// Whether the client `ip` has a log.
    pub closed spec fn has_log(&self, ip: Seq<char>) -> bool {
        exists|i: int| 0 <= i < self.logs@.len() && #[trigger] self.logs@[i].ip@ == ip
    }

    /// The position of the log of `ip`.
    pub closed spec fn log_index(&self, ip: Seq<char>) -> int {
        choose|i: int| 0 <= i < self.logs@.len() && #[trigger] self.logs@[i].ip@ == ip
    }

    /// The times of the recorded requests of `ip`, oldest first.
    pub closed spec fn requests_of(&self, ip: Seq<char>) -> Seq<u128> {
        if self.has_log(ip) {
            self.logs@[self.log_index(ip)].requests@
        } else {
            Seq::empty()
        }
    }

    /// The times of the recorded authentication failures of `ip`, oldest first.
    pub closed spec fn failures_of(&self, ip: Seq<char>) -> Seq<u128> {
        if self.has_log(ip) {
            self.logs@[self.log_index(ip)].failures@
        } else {
            Seq::empty()
        }
    }

    proof fn lemma_log_at(&self, i: int)
        requires
            self.wf(),
            0 <= i < self.logs@.len(),
        ensures
            self.has_log(self.logs@[i].ip@),
            self.log_index(self.logs@[i].ip@) == i,
            self.requests_of(self.logs@[i].ip@) == self.logs@[i].requests@,
            self.failures_of(self.logs@[i].ip@) == self.logs@[i].failures@,
    {
        let ip = self.logs@[i].ip@;
        assert(self.has_log(ip));
        let k = self.log_index(ip);
        if k != i {
            if k < i {
                assert(self.logs@[k].ip@ != self.logs@[i].ip@);
            } else {
                assert(self.logs@[i].ip@ != self.logs@[k].ip@);
            }
        }
    }

    proof fn lemma_replace_log(before: ClientLogs, after: ClientLogs, idx: int, log: ClientLog)
        requires
            before.wf(),
            0 <= idx < before.logs@.len(),
            log.ip@ == before.logs@[idx].ip@,
            log.requests@.len() <= RATE_LIMIT,
            after.logs@ == before.logs@.update(idx, log),
        ensures
            after.wf(),
            after.requests_of(log.ip@) == log.requests@,
            after.failures_of(log.ip@) == log.failures@,
            forall|other: Seq<char>| other != log.ip@ ==> #[trigger] after.requests_of(other)
                == before.requests_of(other) && after.failures_of(other) == before.failures_of(other),
    {
        assert forall|i: int, j: int|
            0 <= i < j < after.logs@.len() implies #[trigger] after.logs@[i].ip@
                != #[trigger] after.logs@[j].ip@ by {
            assert(before.logs@[i].ip@ != before.logs@[j].ip@);
        }
        assert forall|i: int|
            0 <= i < after.logs@.len() implies #[trigger] after.logs@[i].requests@.len() <= RATE_LIMIT by {
            if i != idx {
                assert(before.logs@[i].requests@.len() <= RATE_LIMIT);
            }
        }
        after.lemma_log_at(idx);
        assert forall|other: Seq<char>| other != log.ip@ implies #[trigger] after.requests_of(other)
            == before.requests_of(other) && after.failures_of(other) == before.failures_of(other) by {
            if before.has_log(other) {
                let k = before.log_index(other);
                assert(k != idx);
                assert(after.logs@[k] == before.logs@[k]);
                after.lemma_log_at(k);
            }
            if after.has_log(other) {
                let k = after.log_index(other);
                assert(k != idx);
                assert(after.logs@[k] == before.logs@[k]);
                before.lemma_log_at(k);
            }
        }
    }

    /// Decides whether the client `ip` may make a request at time `now`. A
    /// client with `AUTH_FAIL_LIMIT` authentication failures within the
    /// failure window is refused; so is one with `RATE_LIMIT` requests within
    /// the request window. An admitted request is recorded; a refused one is
    /// not. Entries that have left their window are forgotten.
    pub(crate) fn allow_at(&mut self, ip: &str, now: u128) -> (r: bool)
        requires
            old(self).wf(),
        ensures
            final(self).wf(),
            allow_step(*old(self), *final(self), ip@, now, r),
    {
        let idx = self.log_position(ip);
        let ghost mid = *self;
        proof {
            mid.lemma_log_at(idx as int);
        }
        let mut log = self.logs.remove(idx);
        prune(&mut log.failures, AUTH_FAIL_WINDOW_NANOS, now);
        let mut allowed = false;
        if log.failures.len() < AUTH_FAIL_LIMIT {
            prune(&mut log.requests, RATE_WINDOW_NANOS, now);
            proof {
                lemma_pruned_len(mid.logs@[idx as int].requests@, RATE_WINDOW_NANOS, now);
            }
            if log.requests.len() < RATE_LIMIT {
                log.requests.push_back(now);
                allowed = true;
            }
        }
        self.logs.insert(idx, log);
        proof {
            assert(self.logs@ == mid.logs@.update(idx as int, log));
            ClientLogs::lemma_replace_log(mid, *self, idx as int, log);
            assert(mid.requests_of(ip@) == old(self).requests_of(ip@));
            assert(mid.failures_of(ip@) == old(self).failures_of(ip@));
            assert forall|other: Seq<char>| other != ip@ implies #[trigger] self.requests_of(other)
                == old(self).requests_of(other) && self.failures_of(other) == old(self).failures_of(other) by {
                assert(mid.requests_of(other) == old(self).requests_of(other));
                assert(mid.failures_of(other) == old(self).failures_of(other));
            }
            let f = pruned(old(self).failures_of(ip@), AUTH_FAIL_WINDOW_NANOS, now);
            let q = pruned(old(self).requests_of(ip@), RATE_WINDOW_NANOS, now);
            assert(self.failures_of(ip@) == f);
            assert(allowed == (f.len() < AUTH_FAIL_LIMIT && q.len() < RATE_LIMIT));
            if f.len() >= AUTH_FAIL_LIMIT {
                assert(self.requests_of(ip@) == old(self).requests_of(ip@));
            } else if allowed {
                assert(self.requests_of(ip@) == q.push(now));
            } else {
                assert(self.requests_of(ip@) == q);
            }
            assert(allow_step(*old(self), *self, ip@, now, allowed));
        }
        allowed
    }

    /// Records an authentication failure of the client `ip` at time `now`,
    /// forgetting the failures that have left the failure window.
    pub(crate) fn record_failure_at(&mut self, ip: &str, now: u128)
        requires
            old(self).wf(),
        ensures
            final(self).wf(),
            failure_step(*old(self), *final(self), ip@, now),
    {
        let idx = self.log_position(ip);
        let ghost mid = *self;
        proof {
            mid.lemma_log_at(idx as int);
        }
        let mut log = self.logs.remove(idx);
        prune(&mut log.failures, AUTH_FAIL_WINDOW_NANOS, now);
        log.failures.push_back(now);
        self.logs.insert(idx, log);
        proof {
            assert(self.logs@ == mid.logs@.update(idx as int, log));
            ClientLogs::lemma_replace_log(mid, *self, idx as int, log);
            assert(mid.requests_of(ip@) == old(self).requests_of(ip@));
            assert(mid.failures_of(ip@) == old(self).failures_of(ip@));
            assert forall|other: Seq<char>| other != ip@ implies #[trigger] self.requests_of(other)
                == old(self).requests_of(other) && self.failures_of(other) == old(self).failures_of(other) by {
                assert(mid.requests_of(other) == old(self).requests_of(other));
                assert(mid.failures_of(other) == old(self).failures_of(other));
            }
        }
    }

    /// No client ever has more than `RATE_LIMIT` requests on record.
    pub proof fn lemma_request_log_bounded(&self, ip: Seq<char>)
        requires
            self.wf(),
        ensures
            self.requests_of(ip).len() <= RATE_LIMIT,
    {
        if self.has_log(ip) {
            let k = self.log_index(ip);
            assert(self.logs@[k].requests@.len() <= RATE_LIMIT);
        }
    }

    /// Logs with nothing recorded.
    pub(crate) fn new() -> (r: ClientLogs)
        ensures
            r.wf(),
            forall|ip: Seq<char>| r.requests_of(ip) == Seq::<u128>::empty(),
            forall|ip: Seq<char>| r.failures_of(ip) == Seq::<u128>::empty(),
    {
        ClientLogs { logs: Vec::new() }
    }

    /// The position of the log of `ip`, made empty if there was none.
    fn log_position(&mut self, ip: &str) -> (idx: usize)
        requires
            old(self).wf(),
        ensures
            final(self).wf(),
            idx < final(self).logs@.len(),
            final(self).logs@[idx as int].ip@ == ip@,
            forall|other: Seq<char>| #[trigger] final(self).requests_of(other) == old(self).requests_of(other),
            forall|other: Seq<char>| #[trigger] final(self).failures_of(other) == old(self).failures_of(other),
            forall|other: Seq<char>| other != ip@ ==> (#[trigger] final(self).has_log(other) == old(self).has_log(other)
                && (final(self).has_log(other) ==> final(self).log_index(other) == old(self).log_index(other))),
    {
        let key = String::from_str(ip);
        let mut i: usize = 0;
        while i < self.logs.len()
            invariant
                i <= self.logs@.len(),
                self.wf(),
                *self == *old(self),
                key@ == ip@,
                forall|j: int| 0 <= j < i ==> #[trigger] self.logs@[j].ip@ != key@,
            decreases self.logs@.len() - i,
        {
            if self.logs[i].ip == key {
                proof {
                    self.lemma_log_at(i as int);
                    assert forall|other: Seq<char>| other != ip@ implies (#[trigger] self.has_log(other)
                        == self.has_log(other)) by {}
                }
                return i;
            }
            i += 1;
        }
        let ghost before = *self;
        self.logs.push(ClientLog { ip: key, requests: VecDeque::new(), failures: VecDeque::new() });
        proof {
            let n = before.logs@.len() as int;
            assert(self.logs@[n].ip@ == ip@);
            assert forall|other: Seq<char>| other != ip@ implies (#[trigger] self.has_log(other)
                == before.has_log(other) && (self.has_log(other) ==> self.log_index(other)
                == before.log_index(other))) by {
                if before.has_log(other) {
                    let k = before.log_index(other);
                    assert(self.logs@[k] == before.logs@[k]);
                    self.lemma_log_at(k);
                }
                if self.has_log(other) {
                    let k = self.log_index(other);
                    assert(k != n);
                    assert(before.logs@[k] == self.logs@[k]);
                }
            }
            assert forall|other: Seq<char>| #[trigger] self.requests_of(other) == before.requests_of(other)
                && self.failures_of(other) == before.failures_of(other) by {
                if other == ip@ {
                    self.lemma_log_at(n);
                    assert(self.requests_of(other) == Seq::<u128>::empty());
                    assert(!before.has_log(other));
                } else if before.has_log(other) {
                    let k = before.log_index(other);
                    assert(self.logs@[k] == before.logs@[k]);
                }
            }
        }
        self.logs.len() - 1
    }
}


/// Per-client sliding-window throttling: the clients' logs, the moment from
/// which their times are counted, and the latest time used.
pub struct RateLimiter {
    origin: Instant,
    latest: u128,
    clients: ClientLogs,
}

/// The time a decision uses: the time given, or the latest time already
/// used if that is later, so that the logs stay in time order.
pub open spec fn effective_time(latest: u128, now: u128) -> u128 {
    if now >= latest { now } else { latest }
}

impl RateLimiter {
    #[verifier::type_invariant]
    spec fn inv(self) -> bool {
        &&& self.clients.wf()
        &&& self.clients.ordered_until(self.latest)
    }

    /// The logs of the clients.
    pub closed spec fn logs(&self) -> ClientLogs {
        self.clients
    }

    /// The latest time used, in nanoseconds since the limiter was made.
    pub closed spec fn latest(&self) -> u128 {
        self.latest
    }

    /// A limiter with nothing recorded.
    pub fn new() -> (r: RateLimiter)
        ensures
            r.logs().wf(),
            r.latest() == 0,
            forall|ip: Seq<char>| r.logs().requests_of(ip) == Seq::<u128>::empty(),
            forall|ip: Seq<char>| r.logs().failures_of(ip) == Seq::<u128>::empty(),
    {
        let clients = ClientLogs::new();
        proof {
            assert forall|ip: Seq<char>| #[trigger] timed(clients.requests_of(ip), 0) by {}
            assert forall|ip: Seq<char>| #[trigger] timed(clients.failures_of(ip), 0) by {}
        }
        RateLimiter { origin: instant_now(), latest: 0, clients }
    }

    /// Decides whether the client `ip` may make a request at time `now`
    /// (nanoseconds since the limiter was made, raised to the latest time
    /// already used); see `allow_effect`. The logs stay in time order and no
    /// client is left with more than `RATE_LIMIT` requests on record.
    pub fn allow_at(&mut self, ip: &str, now: u128) -> (r: bool)
        ensures
            final(self).latest() == effective_time(old(self).latest(), now),
            allow_effect(old(self).logs(), final(self).logs(), ip@, final(self).latest(), r),
            final(self).logs().wf(),
            final(self).logs().ordered_until(final(self).latest()),
    {
        proof {
            use_type_invariant(&*self);
        }
        let t = if now >= self.latest { now } else { self.latest };
        let mut clients = ClientLogs::new();
        proof {
            assert forall|ip: Seq<char>| #[trigger] timed(clients.requests_of(ip), t) by {}
            assert forall|ip: Seq<char>| #[trigger] timed(clients.failures_of(ip), t) by {}
        }
        std::mem::swap(&mut clients, &mut self.clients);
        self.latest = t;
        proof {
            let c = clients;
            let l = old(self).latest;
            assert forall|ip: Seq<char>| #[trigger] timed(c.requests_of(ip), t) by {
                lemma_timed_later(c.requests_of(ip), l, t);
            }
            assert forall|ip: Seq<char>| #[trigger] timed(c.failures_of(ip), t) by {
                lemma_timed_later(c.failures_of(ip), l, t);
            }
        }
        let ghost before = clients;
        let r = clients.allow_at(ip, t);
        proof {
            lemma_allow_step_effect(before, clients, ip@, t, r);
        }
        self.clients = clients;
        r
    }

    /// Records an authentication failure of the client `ip` at time `now`
    /// (nanoseconds since the limiter was made, raised to the latest time
    /// already used); see `failure_effect`.
    pub fn record_failure_at(&mut self, ip: &str, now: u128)
        ensures
            final(self).latest() == effective_time(old(self).latest(), now),
            failure_effect(old(self).logs(), final(self).logs(), ip@, final(self).latest()),
            final(self).logs().wf(),
            final(self).logs().ordered_until(final(self).latest()),
    {
        proof {
            use_type_invariant(&*self);
        }
        let t = if now >= self.latest { now } else { self.latest };
        let mut clients = ClientLogs::new();
        proof {
            assert forall|ip: Seq<char>| #[trigger] timed(clients.requests_of(ip), t) by {}
            assert forall|ip: Seq<char>| #[trigger] timed(clients.failures_of(ip), t) by {}
        }
        std::mem::swap(&mut clients, &mut self.clients);
        self.latest = t;
        proof {
            let c = clients;
            let l = old(self).latest;
            assert forall|ip: Seq<char>| #[trigger] timed(c.requests_of(ip), t) by {
                lemma_timed_later(c.requests_of(ip), l, t);
            }
            assert forall|ip: Seq<char>| #[trigger] timed(c.failures_of(ip), t) by {
                lemma_timed_later(c.failures_of(ip), l, t);
            }
        }
        let ghost before = clients;
        clients.record_failure_at(ip, t);
        proof {
            lemma_failure_step_effect(before, clients, ip@, t);
        }
        self.clients = clients;
    }

    /// Decides whether the client `ip` may make a request now; see
    /// `allow_effect`. The time used is the clock's reading, never earlier
    /// than the latest time already used.
    pub fn allow(&mut self, ip: &str) -> (r: bool)
        ensures
            exists|now: u128|
                now >= old(self).latest() && final(self).latest() == now && #[trigger] allow_effect(
                    old(self).logs(),
                    final(self).logs(),
                    ip@,
                    now,
                    r,
                ),
            final(self).logs().wf(),
            final(self).logs().ordered_until(final(self).latest()),
    {
        let now = nanos_since(&self.origin);
        self.allow_at(ip, now)
    }

    /// Records an authentication failure of the client `ip` now; see
    /// `failure_effect`. The time used is the clock's reading, never earlier
    /// than the latest time already used.
    pub fn record_failure(&mut self, ip: &str)
        ensures
            exists|now: u128|
                now >= old(self).latest() && final(self).latest() == now && #[trigger] failure_effect(
                    old(self).logs(),
                    final(self).logs(),
                    ip@,
                    now,
                ),
            final(self).logs().wf(),
            final(self).logs().ordered_until(final(self).latest()),
    {
        let now = nanos_since(&self.origin);
        self.record_failure_at(ip, now)
    }
}

impl Default for RateLimiter {
    fn default() -> (r: RateLimiter)
        ensures
            r.logs().wf(),
            r.latest() == 0,
            forall|ip: Seq<char>| r.logs().requests_of(ip) == Seq::<u128>::empty(),
            forall|ip: Seq<char>| r.logs().failures_of(ip) == Seq::<u128>::empty(),
    {
        RateLimiter::new()
    }
}

} // verus!
