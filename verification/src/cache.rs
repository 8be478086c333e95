//! The adapter's last answer, kept for a while to keep repeated polls cheap.

use vstd::prelude::*;

use crate::now_playing;
use crate::now_playing::NowPlaying;

verus! {

/// How long an answer is kept, in nanoseconds.
pub const ADAPTER_CACHE_NANOS: u128 = 2_000_000_000;

/// The adapter's last answer and when it was taken, in nanoseconds of a clock
/// that never runs backwards.
pub struct AdapterCache {
    pub fetched_at: Option<u128>,
    pub value: Option<NowPlaying>,
}

impl AdapterCache {
    /// Whether an answer is there that is younger than two seconds.
    pub open spec fn is_fresh(self, now: u128) -> bool {
        self.fetched_at matches Some(time) && now < time + ADAPTER_CACHE_NANOS
    }

    /// A cache without an answer.
    pub fn new() -> (res: AdapterCache)
        ensures
            res.fetched_at is None,
            res.value is None,
    {
        AdapterCache { fetched_at: None, value: None }
    }

    /// Whether an answer is there that is younger than two seconds.
    pub fn fresh(&self, now: u128) -> (res: bool)
        ensures
            res == self.is_fresh(now),
    {
        match self.fetched_at {
            Some(time) => now < time || now - time < ADAPTER_CACHE_NANOS,
            None => false,
        }
    }
}

/// Reads the adapter's metadata, from the cache while its answer is fresh and
/// through `read` otherwise. `read` returns the answer and when it came.
pub fn adapter_now_playing<R: FnOnce() -> (Option<NowPlaying>, u128)>(
    cache: &mut AdapterCache,
    now: u128,
    read: R,
) -> (res: Option<NowPlaying>)
    requires
        !old(cache).is_fresh(now) ==> read.requires(()),
    ensures
        if old(cache).is_fresh(now) {
            &&& *final(cache) == *old(cache)
            &&& now_playing::snapshot_view(res) == now_playing::snapshot_view(old(cache).value)
        } else {
            exists|answer: (Option<NowPlaying>, u128)|
                {
                    &&& #[trigger] read.ensures((), answer)
                    &&& res == answer.0
                    &&& final(cache).fetched_at == Some(answer.1)
                    &&& now_playing::snapshot_view(final(cache).value)
                        == now_playing::snapshot_view(answer.0)
                }
        },
{
    if cache.fresh(now) {
        return now_playing::copy_of(&cache.value);
    }
    let (value, time) = read();
    cache.fetched_at = Some(time);
    cache.value = now_playing::copy_of(&value);
    value
}

/// Makes the next read ask the adapter again.
pub fn invalidate_adapter_cache(cache: &mut AdapterCache)
    ensures
        final(cache).fetched_at is None,
        final(cache).value == old(cache).value,
{
    cache.fetched_at = None;
}

/// Whether a cache is what a delivery leaves of it: the next read asks the
/// adapter again after a command that was delivered; one that was not changes
/// nothing.
pub open spec fn is_settled(before: AdapterCache, after: AdapterCache, sent: bool) -> bool {
    if sent {
        after.fetched_at is None && after.value == before.value
    } else {
        after == before
    }
}

/// Makes the next read ask the adapter again after a command that was
/// delivered.
pub(crate) fn settle_delivery(cache: &mut AdapterCache, sent: bool)
    ensures
        is_settled(*old(cache), *final(cache), sent),
{
    if sent {
        invalidate_adapter_cache(cache);
    }
}

/// An answer is used again for exactly two seconds, counted from when it came.
pub proof fn law_answers_last_two_seconds(cache: AdapterCache, time: u128, now: u128)
    requires
        cache.fetched_at == Some(time),
        time <= now,
    ensures
        cache.is_fresh(now) <==> now - time < 2_000_000_000,
{
}

/// After a command was delivered, the answer from before it is never used again,
/// at any time; after one that was not, it is used as long as ever.
pub proof fn law_deliveries_outdate_answers(
    before: AdapterCache,
    after: AdapterCache,
    sent: bool,
    now: u128,
)
    requires
        is_settled(before, after, sent),
    ensures
        after.is_fresh(now) <==> !sent && before.is_fresh(now),
{
}

} // verus!
