//! Fixed-window rate limiting, counted per (path, method) key.

use vstd::prelude::*;

verus! {

/// A configured rate limit: at most `requests` admissions per window of
/// `window_ms` milliseconds.
pub struct RateLimit {
    pub requests: usize,
    pub window_ms: u64,
}

/// The signal raised when a request goes over its endpoint's rate limit.
pub struct RateLimited;

/// The key under which requests are counted: (path, method).
pub type LimitKey = (Seq<char>, Seq<char>);

/// The counting window of one key: (start of the window in ms, count).
pub type Window = (u64, usize);

/// Whether the window that opened at `start` has run out at `now`.
/// Time that seems to run backwards counts as no time at all.
pub open spec fn window_expired(start: u64, now: u64, window_ms: u64) -> bool {
    now > start && now - start > window_ms
}

/// One more request counted, saturating at the largest count.
pub open spec fn bumped(count: usize) -> usize {
    if count == usize::MAX {
        count
    } else {
        (count + 1) as usize
    }
}

/// The window after one request at `now`, and whether that request is
/// admitted. A key seen for the first time starts with an empty window
/// opened at `now`.
pub open spec fn rate_step(prev: Option<Window>, limit: RateLimit, now: u64) -> (Window, bool) {
    let (start, count) = match prev {
        Some(w) => w,
        None => (now, 0usize),
    };
    if window_expired(start, now, limit.window_ms) {
        ((now, 1usize), true)
    } else {
        let next = bumped(count);
        ((start, next), next <= limit.requests)
    }
}

/// The window recorded for `key`, if any.
pub open spec fn window_of(m: Map<LimitKey, Window>, key: LimitKey) -> Option<Window> {
    if m.contains_key(key) {
        Some(m[key])
    } else {
        None
    }
}

struct Entry {
    path: String,
    method: String,
    start: u64,
    count: usize,
}

spec fn key_of(e: Entry) -> LimitKey {
    (e.path@, e.method@)
}

/// The per-key counting windows of every (path, method) seen so far.
/// Entries are created on first use and never evicted.
pub struct RateLimitTracker {
    entries: Vec<Entry>,
    windows: Ghost<Map<LimitKey, Window>>,
}

impl View for RateLimitTracker {
    type V = Map<LimitKey, Window>;

    closed spec fn view(&self) -> Map<LimitKey, Window> {
        self.windows@
    }
}

/// Every entry is recorded in the map under its key, every key of the map has
/// an entry, and no two entries share a key.
spec fn consistent(es: Seq<Entry>, m: Map<LimitKey, Window>) -> bool {
    &&& forall|i: int|
        0 <= i < es.len() ==> #[trigger] m.contains_key(key_of(es[i])) && m[key_of(es[i])] == (
        es[i].start,
        es[i].count,
    )
    &&& forall|k: LimitKey| #[trigger]
        m.contains_key(k) ==> exists|i: int| 0 <= i < es.len() && key_of(es[i]) == k
    &&& forall|i: int, j: int|
        0 <= i < es.len() && 0 <= j < es.len() && i != j ==> key_of(es[i]) != key_of(es[j])
}

impl RateLimitTracker {
    #[verifier::type_invariant]
    spec fn inv(self) -> bool {
        consistent(self.entries@, self.windows@)
    }

    /// A tracker that has seen no request yet.
    pub fn new() -> (r: Self)
        ensures
            r@ == Map::<LimitKey, Window>::empty(),
    {
        RateLimitTracker { entries: Vec::new(), windows: Ghost(Map::empty()) }
    }

    /// Counts one request to (`path`, `method`) at `now` against `limit`,
    /// as one indivisible step, and tells whether it is admitted.
    pub fn record(&mut self, path: &String, method: &String, limit: &RateLimit, now: u64) -> (admitted: bool)
        ensures
            ({
                let (w, ok) = rate_step(window_of(old(self)@, (path@, method@)), *limit, now);
                &&& final(self)@ == old(self)@.insert((path@, method@), w)
                &&& admitted == ok
            }),
    {
        proof {
            use_type_invariant(&*self);
        }
        let mut taken = RateLimitTracker::new();
        std::mem::swap(self, &mut taken);
        proof {
            use_type_invariant(&taken);
        }
        let RateLimitTracker { mut entries, windows } = taken;
        let ghost key = (path@, method@);
        let ghost es0 = entries@;
        let ghost m0 = windows@;
        let mut i: usize = 0;
        let n = entries.len();
        while i < n
            invariant
                n == entries.len(),
                i <= n,
                key == (path@, method@),
                forall|j: int| 0 <= j < i ==> key_of(#[trigger] entries@[j]) != key,
            ensures
                i <= n,
                i < n ==> key_of(entries@[i as int]) == key,
                forall|j: int| 0 <= j < i ==> key_of(#[trigger] entries@[j]) != key,
            decreases n - i,
        {
            let same_path = entries[i].path == *path;
            let same_method = entries[i].method == *method;
            if same_path && same_method {
                break;
            }
            i = i + 1;
        }
        if i < n {
            let start = entries[i].start;
            let count = entries[i].count;
            let (new_start, new_count, admitted) = if now > start && now - start > limit.window_ms {
                (now, 1usize, true)
            } else {
                let next = if count == usize::MAX {
                    count
                } else {
                    count + 1
                };
                (start, next, next <= limit.requests)
            };
            let e = Entry { path: path.clone(), method: method.clone(), start: new_start, count: new_count };
            proof {
                assert(windows@.contains_key(key));
            }
            entries.set(i, e);
            let windows = Ghost(windows@.insert(key, (new_start, new_count)));
            proof {
                let es = entries@;
                let m = windows@;
                assert forall|k: LimitKey| #[trigger] m.contains_key(k) implies exists|j: int|
                    0 <= j < es.len() && key_of(es[j]) == k by {
                    if k != key {
                        assert(old(self).windows@.contains_key(k));
                        let j = choose|j: int| 0 <= j < es.len() && key_of(es0[j]) == k;
                        assert(key_of(es[j]) == k);
                    } else {
                        assert(key_of(es[i as int]) == k);
                    }
                }
                assert forall|j: int| 0 <= j < es.len() implies #[trigger] m.contains_key(key_of(es[j]))
                    && m[key_of(es[j])] == (es[j].start, es[j].count) by {
                    if j != i {
                        assert(es[j] == es0[j]);
                        assert(key_of(es0[j]) != key);
                        assert(m0.contains_key(key_of(es0[j])));
                    } else {
                        assert(key_of(es[j]) == key);
                    }
                }
                assert forall|a: int, b: int|
                    0 <= a < es.len() && 0 <= b < es.len() && a != b implies key_of(es[a]) != key_of(es[b]) by {
                    assert(key_of(es[a]) == key_of(es0[a]));
                    assert(key_of(es[b]) == key_of(es0[b]));
                }
                assert(consistent(es, m));
            }
            *self = RateLimitTracker { entries, windows };
            admitted
        } else {
            let e = Entry { path: path.clone(), method: method.clone(), start: now, count: 1 };
            proof {
                assert(!windows@.contains_key(key)) by {
                    if windows@.contains_key(key) {
                        let j = choose|j: int| 0 <= j < es0.len() && key_of(es0[j]) == key;
                        assert(key_of(entries@[j]) != key);
                    }
                }
            }
            entries.push(e);
            let windows = Ghost(windows@.insert(key, (now, 1usize)));
            proof {
                let es = entries@;
                let m = windows@;
                assert forall|k: LimitKey| #[trigger] m.contains_key(k) implies exists|j: int|
                    0 <= j < es.len() && key_of(es[j]) == k by {
                    if k != key {
                        assert(old(self).windows@.contains_key(k));
                        let j = choose|j: int| 0 <= j < es0.len() && key_of(es0[j]) == k;
                        assert(key_of(es[j]) == k);
                    } else {
                        assert(key_of(es[n as int]) == k);
                    }
                }
                assert forall|j: int| 0 <= j < es.len() implies #[trigger] m.contains_key(key_of(es[j]))
                    && m[key_of(es[j])] == (es[j].start, es[j].count) by {
                    if j != n {
                        assert(es[j] == es0[j]);
                        assert(key_of(es0[j]) != key);
                        assert(m0.contains_key(key_of(es0[j])));
                    } else {
                        assert(key_of(es[j]) == key);
                    }
                }
                assert forall|a: int, b: int|
                    0 <= a < es.len() && 0 <= b < es.len() && a != b implies key_of(es[a]) != key_of(es[b]) by {
                    if a != n {
                        assert(es[a] == es0[a]);
                    }
                    if b != n {
                        assert(es[b] == es0[b]);
                    }
                }
                assert(consistent(es, m));
            }
            *self = RateLimitTracker { entries, windows };
            1 <= limit.requests
        }
    }
}

/// Whether each request, made at the successive `times` and counted in turn
/// from the window `w`, is admitted.
pub open spec fn admissions(w: Option<Window>, limit: RateLimit, times: Seq<u64>) -> Seq<bool>
    decreases times.len(),
{
    if times.len() == 0 {
        Seq::empty()
    } else {
        let (next, ok) = rate_step(w, limit, times[0]);
        seq![ok] + admissions(Some(next), limit, times.drop_first())
    }
}

proof fn lemma_run_within_window(start: u64, count: usize, limit: RateLimit, times: Seq<u64>)
    requires
        forall|i: int| 0 <= i < times.len() ==> #[trigger] times[i] <= start + limit.window_ms,
        count + times.len() < usize::MAX,
    ensures
        admissions(Some((start, count)), limit, times).len() == times.len(),
        forall|i: int|
            0 <= i < times.len() ==> #[trigger] admissions(Some((start, count)), limit, times)[i]
                == (count + i + 1 <= limit.requests),
    decreases times.len(),
{
    if times.len() > 0 {
        let rest = times.drop_first();
        let next = (count + 1) as usize;
        lemma_run_within_window(start, next, limit, rest);
        let run = admissions(Some((start, count)), limit, times);
        let tail = admissions(Some((start, next)), limit, rest);
        assert(run =~= seq![next <= limit.requests] + tail);
        assert forall|i: int| 0 <= i < times.len() implies #[trigger] run[i] == (count + i + 1
            <= limit.requests) by {
            if i > 0 {
                assert(run[i] == tail[i - 1]);
            }
        }
    }
}

/// Within one window, counted from a key's first request: the first
/// `limit.requests` requests are admitted and every later one is refused.
pub proof fn lemma_first_requests_admitted(limit: RateLimit, times: Seq<u64>)
    requires
        times.len() > 0,
        forall|i: int| 0 <= i < times.len() ==> #[trigger] times[i] <= times[0] + limit.window_ms,
        times.len() < usize::MAX,
    ensures
        admissions(None, limit, times).len() == times.len(),
        forall|i: int|
            0 <= i < times.len() ==> #[trigger] admissions(None, limit, times)[i] == (i
                < limit.requests),
{
    let t0 = times[0];
    lemma_run_within_window(t0, 0, limit, times);
    assert(rate_step(None, limit, t0) == rate_step(Some((t0, 0usize)), limit, t0));
    assert(admissions(None, limit, times) =~= admissions(Some((t0, 0usize)), limit, times));
}

/// Once more than `window_ms` has passed since the window opened, the next
/// request is admitted and opens a new window in which it is the first.
pub proof fn lemma_window_resets(start: u64, count: usize, limit: RateLimit, now: u64)
    requires
        now - start > limit.window_ms,
    ensures
        rate_step(Some((start, count)), limit, now) == ((now, 1usize), true),
{
}

/// Creates an empty rate-limit tracker.
pub fn new_rate_limit() -> (r: RateLimitTracker)
    ensures
        r@ == Map::<LimitKey, Window>::empty(),
{
    RateLimitTracker::new()
}

/// Counts a request to (`path`, `method`) made at `now_ms` against the
/// endpoint's `rate_limit`. Without a limit nothing is counted and the request
/// passes; with one, the tracker moves one step and the request is refused
/// when that step does not admit it. A refused request stays counted.
pub fn check_rate_limit(
    path: &String,
    method: &String,
    rate_limit: Option<&RateLimit>,
    tracker: &mut RateLimitTracker,
    now_ms: u64,
) -> (r: Result<(), RateLimited>)
    ensures
        match rate_limit {
            None => final(tracker)@ == old(tracker)@ && r is Ok,
            Some(limit) => {
                let (w, ok) = rate_step(window_of(old(tracker)@, (path@, method@)), *limit, now_ms);
                &&& final(tracker)@ == old(tracker)@.insert((path@, method@), w)
                &&& (r is Ok <==> ok)
            },
        },
{
    match rate_limit {
        None => Ok(()),
        Some(limit) => {
            if tracker.record(path, method, limit, now_ms) {
                Ok(())
            } else {
                Err(RateLimited)
            }
        },
    }
}

} // verus!
