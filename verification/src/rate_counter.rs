//! A sliding-window rate counter.
//!
//! The counter keeps an ordered log of transfer events and a cached running
//! total of their byte counts. Events older than the trailing window are
//! swept off the front of the log lazily, whenever the counter is touched,
//! so no timer or background task is involved.

use std::collections::VecDeque;
use vstd::prelude::*;

verus! {

/// Length of the trailing window, in milliseconds.
pub const WINDOW_MS: u64 = 60_000;

/// One recorded transfer event.
pub struct Entry {
    /// Bytes transferred in this event.
    pub bytes: u64,
    /// Time the event was recorded, in milliseconds since the Unix epoch.
    pub recorded: u64,
}

/// Sum of the byte counts over all entries of `s`.
pub open spec fn sum_bytes(s: Seq<Entry>) -> int
    decreases s.len(),
{
    if s.len() == 0 {
        0
    } else {
        s[0].bytes + sum_bytes(s.drop_first())
    }
}

/// Whether an entry lies strictly outside the trailing window anchored at
/// `now`: strictly older than `now - WINDOW_MS`. An entry recorded in the
/// future of `now` (a clock that moved backward) is never expired.
pub open spec fn expired(e: Entry, now: int) -> bool {
    (e.recorded as int) < now - (WINDOW_MS as int)
}

/// The log after window maintenance anchored at `now`: the sweep removes
/// expired entries from the front and stops at the first entry that is
/// still inside the window.
pub open spec fn drop_expired(s: Seq<Entry>, now: int) -> Seq<Entry>
    decreases s.len(),
{
    if s.len() > 0 && expired(s[0], now) {
        drop_expired(s.drop_first(), now)
    } else {
        s
    }
}

/// The log is in ascending time order.
pub open spec fn time_ordered(s: Seq<Entry>) -> bool {
    forall|i: int, j: int| 0 <= i <= j < s.len() ==> s[i].recorded <= s[j].recorded
}

/// Total bytes over the entries of `s` that are inside the window at `now`.
pub open spec fn window_bytes(s: Seq<Entry>, now: int) -> int
    decreases s.len(),
{
    if s.len() == 0 {
        0
    } else {
        (if expired(s[0], now) {
            0
        } else {
            s[0].bytes as int
        }) + window_bytes(s.drop_first(), now)
    }
}

/// Number of entries of `s` that are inside the window at `now`.
pub open spec fn window_count(s: Seq<Entry>, now: int) -> int
    decreases s.len(),
{
    if s.len() == 0 {
        0
    } else {
        (if expired(s[0], now) {
            0int
        } else {
            1int
        }) + window_count(s.drop_first(), now)
    }
}

/// A sum of unsigned byte counts is never negative.
proof fn lemma_sum_bytes_nonneg(s: Seq<Entry>)
    ensures
        sum_bytes(s) >= 0,
    decreases s.len(),
{
    if s.len() > 0 {
        lemma_sum_bytes_nonneg(s.drop_first());
    }
}

/// Appending an entry adds its bytes to the sum.
proof fn lemma_sum_bytes_push(s: Seq<Entry>, e: Entry)
    ensures
        sum_bytes(s.push(e)) == sum_bytes(s) + e.bytes,
    decreases s.len(),
{
    if s.len() == 0 {
        assert(s.push(e)[0] == e);
        assert(s.push(e).drop_first() =~= Seq::<Entry>::empty());
        assert(sum_bytes(Seq::<Entry>::empty()) == 0);
        assert(sum_bytes(s.push(e)) == e.bytes + sum_bytes(Seq::<Entry>::empty()));
    } else {
        assert(s.push(e)[0] == s[0]);
        assert(s.push(e).drop_first() =~= s.drop_first().push(e));
        lemma_sum_bytes_push(s.drop_first(), e);
        assert(sum_bytes(s.push(e)) == s[0].bytes + sum_bytes(s.drop_first().push(e)));
    }
}

/// A rate counter tracks the number of transfers and the amount of data
/// exchanged over the last minute.
pub struct RateCounter {
    entries: VecDeque<Entry>,
    bytes_per_min: u64,
}

/// The aggregate a counter reports: total bytes and number of transfer
/// events retained in the trailing window.
pub struct TransmittedData {
    pub bytes_per_min: u64,
    pub count_per_min: usize,
}

impl View for RateCounter {
    type V = Seq<Entry>;

    closed spec fn view(&self) -> Seq<Entry> {
        self.entries@
    }
}

impl RateCounter {
    /// The cached running total equals the sum over the log.
    pub closed spec fn wf(&self) -> bool {
        self.bytes_per_min as int == sum_bytes(self.entries@)
    }

    /// An empty counter: no entries, zero running total.
    pub fn new() -> (rc: RateCounter)
        ensures
            rc.wf(),
            rc@ == Seq::<Entry>::empty(),
    {
        RateCounter { entries: VecDeque::new(), bytes_per_min: 0 }
    }

    /// The running total of bytes over the retained entries.
    pub fn bytes_per_min(&self) -> (r: u64)
        requires
            self.wf(),
        ensures
            r as int == sum_bytes(self@),
    {
        self.bytes_per_min
    }

    /// The number of retained entries.
    pub fn count_per_min(&self) -> (r: usize)
        ensures
            r == self@.len(),
    {
        self.entries.len()
    }

    /// Window maintenance anchored at `now`: sweep expired entries off the
    /// front of the log, subtracting their bytes from the running total,
    /// and stop at the first entry still inside the window.
    pub fn truncate(&mut self, now: u64)
        requires
            old(self).wf(),
        ensures
            final(self).wf(),
            final(self)@ == drop_expired(old(self)@, now as int),
    {
        while self.entries.len() > 0 && now >= WINDOW_MS && self.entries[0].recorded < now - WINDOW_MS
            invariant
                self.wf(),
                drop_expired(self.entries@, now as int) == drop_expired(old(self)@, now as int),
            decreases self.entries@.len(),
        {
            proof {
                lemma_sum_bytes_nonneg(self.entries@.drop_first());
            }
            let e = self.entries.pop_front().unwrap();
            self.bytes_per_min = self.bytes_per_min - e.bytes;
        }
    }

    /// Record a transfer of `bytes` bytes at time `now` (milliseconds
    /// since the Unix epoch), then perform window maintenance anchored at
    /// `now`: the new entry is appended at the tail and expired entries
    /// are swept off the front.
    pub fn increment_at(&mut self, bytes: u64, now: u64)
        requires
            old(self).wf(),
            sum_bytes(old(self)@) + bytes <= u64::MAX,
        ensures
            final(self).wf(),
            final(self)@ == drop_expired(old(self)@.push((Entry { bytes, recorded: now })), now as int),
            (time_ordered(old(self)@) && (forall|i: int|
                0 <= i < old(self)@.len() ==> old(self)@[i].recorded <= now)) ==> time_ordered(
                final(self)@,
            ),
    {
        proof {
            lemma_sum_bytes_nonneg(self.entries@);
            lemma_sum_bytes_push(self.entries@, Entry { bytes, recorded: now });
        }
        self.entries.push_back(Entry { bytes, recorded: now });
        self.bytes_per_min = self.bytes_per_min + bytes;
        self.truncate(now);
        proof {
            let e = Entry { bytes, recorded: now };
            if time_ordered(old(self)@) && (forall|i: int|
                0 <= i < old(self)@.len() ==> old(self)@[i].recorded <= now) {
                assert forall|i: int, j: int|
                    0 <= i <= j < old(self)@.push(e).len() implies old(self)@.push(
                    e,
                )[i].recorded <= old(self)@.push(e)[j].recorded by {
                    if j < old(self)@.len() {
                        assert(old(self)@.push(e)[i] == old(self)@[i]);
                        assert(old(self)@.push(e)[j] == old(self)@[j]);
                    } else {
                        assert(old(self)@.push(e)[j] == e);
                        if i < old(self)@.len() {
                            assert(old(self)@.push(e)[i] == old(self)@[i]);
                        }
                    }
                }
                lemma_drop_expired_time_ordered(old(self)@.push(e), now as int);
            }
        }
    }

    /// Record a transfer of `bytes` bytes at the current time, updating
    /// counts and rates. The recording time is read from the system clock,
    /// so only its existence is promised here; `increment_at` carries the
    /// exact contract for any given time.
    pub fn increment(&mut self, bytes: u64)
        requires
            old(self).wf(),
            sum_bytes(old(self)@) + bytes <= u64::MAX,
        ensures
            final(self).wf(),
            exists|now: u64|
                final(self)@ == drop_expired(
                    old(self)@.push((Entry { bytes, recorded: now })),
                    now as int,
                ),
    {
        let now = now_millis();
        self.increment_at(bytes, now);
    }

    /// Perform window maintenance anchored at the current time, then
    /// report the total bytes and the number of retained entries. The
    /// maintenance time is read from the system clock, so only its
    /// existence is promised; the reported pair is exact for the pruned
    /// log.
    pub fn get_bytes_per_min_and_count_per_min_and_truncate(&mut self) -> (data: TransmittedData)
        requires
            old(self).wf(),
        ensures
            final(self).wf(),
            data.bytes_per_min as int == sum_bytes(final(self)@),
            data.count_per_min == final(self)@.len(),
            exists|now: u64| final(self)@ == drop_expired(old(self)@, now as int),
            time_ordered(old(self)@) ==> exists|now: u64|
                {
                    &&& final(self)@ == drop_expired(old(self)@, now as int)
                    &&& data.bytes_per_min as int == window_bytes(old(self)@, now as int)
                    &&& data.count_per_min as int == window_count(old(self)@, now as int)
                },
    {
        let now = now_millis();
        self.truncate(now);
        proof {
            if time_ordered(old(self)@) {
                lemma_window_exact(old(self)@, now as int);
            }
        }
        TransmittedData { bytes_per_min: self.bytes_per_min(), count_per_min: self.count_per_min() }
    }
}

/// Window maintenance removes exactly a prefix of the log, and every
/// entry of that prefix is expired: entries are evicted strictly in log
/// order, so no entry is ever evicted before an older one, and an entry
/// is only evicted once it has expired.
pub proof fn lemma_evicted_prefix(s: Seq<Entry>, now: int) -> (k: int)
    ensures
        0 <= k <= s.len(),
        drop_expired(s, now) == s.skip(k),
        forall|i: int| 0 <= i < k ==> expired(s[i], now),
    decreases s.len(),
{
    if s.len() > 0 && expired(s[0], now) {
        let k0 = lemma_evicted_prefix(s.drop_first(), now);
        assert(s.drop_first().skip(k0) =~= s.skip(k0 + 1));
        assert forall|i: int| 0 <= i < k0 + 1 implies expired(s[i], now) by {
            if i >= 1 {
                assert(s.drop_first()[i - 1] == s[i]);
            }
        }
        k0 + 1
    } else {
        assert(s.skip(0) =~= s);
        0
    }
}

/// With the log in time order, every entry retained by window maintenance
/// is still inside the window.
pub proof fn lemma_retained_not_expired(s: Seq<Entry>, now: int)
    requires
        time_ordered(s),
    ensures
        forall|i: int|
            0 <= i < drop_expired(s, now).len() ==> !expired(drop_expired(s, now)[i], now),
    decreases s.len(),
{
    if s.len() > 0 && expired(s[0], now) {
        assert forall|i: int, j: int|
            0 <= i <= j < s.drop_first().len() implies s.drop_first()[i].recorded
            <= s.drop_first()[j].recorded by {
            assert(s.drop_first()[i] == s[i + 1]);
            assert(s.drop_first()[j] == s[j + 1]);
        }
        lemma_retained_not_expired(s.drop_first(), now);
        assert forall|i: int|
            0 <= i < drop_expired(s, now).len() implies !expired(
            drop_expired(s, now)[i],
            now,
        ) by {
            assert(drop_expired(s, now)[i] == drop_expired(s.drop_first(), now)[i]);
        }
    } else if s.len() > 0 {
        assert forall|i: int| 0 <= i < s.len() implies !expired(s[i], now) by {
            assert(s[0].recorded <= s[i].recorded);
        }
    }
}

/// Maintenance keeps the log in time order.
pub proof fn lemma_drop_expired_time_ordered(s: Seq<Entry>, now: int)
    requires
        time_ordered(s),
    ensures
        time_ordered(drop_expired(s, now)),
{
    let k = lemma_evicted_prefix(s, now);
    assert forall|i: int, j: int|
        0 <= i <= j < drop_expired(s, now).len() implies drop_expired(s, now)[i].recorded
        <= drop_expired(s, now)[j].recorded by {
        assert(drop_expired(s, now)[i] == s[i + k]);
        assert(drop_expired(s, now)[j] == s[j + k]);
    }
}

proof fn lemma_window_full(s: Seq<Entry>, now: int)
    requires
        forall|i: int| 0 <= i < s.len() ==> !expired(s[i], now),
    ensures
        window_bytes(s, now) == sum_bytes(s),
        window_count(s, now) == s.len(),
    decreases s.len(),
{
    if s.len() > 0 {
        assert(!expired(s[0], now));
        assert forall|i: int| 0 <= i < s.drop_first().len() implies !expired(
            s.drop_first()[i],
            now,
        ) by {
            assert(s.drop_first()[i] == s[i + 1]);
        }
        lemma_window_full(s.drop_first(), now);
    }
}

/// With the log in time order, maintenance keeps exactly the entries
/// recorded within the window: the total bytes and the entry count of the
/// pruned log are the total and the count over the in-window entries of
/// the original log.
pub proof fn lemma_window_exact(s: Seq<Entry>, now: int)
    requires
        time_ordered(s),
    ensures
        sum_bytes(drop_expired(s, now)) == window_bytes(s, now),
        drop_expired(s, now).len() == window_count(s, now),
    decreases s.len(),
{
    if s.len() == 0 {
    } else if expired(s[0], now) {
        assert forall|i: int, j: int|
            0 <= i <= j < s.drop_first().len() implies s.drop_first()[i].recorded
            <= s.drop_first()[j].recorded by {
            assert(s.drop_first()[i] == s[i + 1]);
            assert(s.drop_first()[j] == s[j + 1]);
        }
        lemma_window_exact(s.drop_first(), now);
    } else {
        assert forall|i: int| 0 <= i < s.len() implies !expired(s[i], now) by {
            assert(s[0].recorded <= s[i].recorded);
        }
        lemma_window_full(s, now);
    }
}

/// Window boundary: with the log in time order, the entry at position `i`
/// survives maintenance at `now` exactly when `now` is at most WINDOW_MS
/// past its recording time. The survivors are `s.skip(k)` for the
/// returned cut position `k`.
pub proof fn lemma_window_boundary(s: Seq<Entry>, now: int, i: int) -> (k: int)
    requires
        time_ordered(s),
        0 <= i < s.len(),
    ensures
        0 <= k <= s.len(),
        drop_expired(s, now) == s.skip(k),
        i >= k <==> now <= s[i].recorded + WINDOW_MS,
{
    let k = lemma_evicted_prefix(s, now);
    lemma_retained_not_expired(s, now);
    if i >= k {
        assert(drop_expired(s, now)[i - k] == s[i]);
    }
    k
}

/// Relies on `std::time::SystemTime::now` for the current wall-clock
/// time, reduced to whole milliseconds since the Unix epoch (a reading
/// earlier than the epoch is reported as 0). Nothing is promised of the
/// value: every caller handles an arbitrary reading.
#[verifier::external_body]
fn now_millis() -> u64 {
    match std::time::SystemTime::now().duration_since(std::time::UNIX_EPOCH) {
        Ok(d) => d.as_millis() as u64,
        Err(_) => 0,
    }
}

} // verus!
