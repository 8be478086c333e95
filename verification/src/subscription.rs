//! Now Playing subscriptions: who is called back, and with what.

use std::collections::HashMap;

use vstd::prelude::*;

use crate::now_playing;
use crate::now_playing::{parse_json_c_string, NowPlaying, NowPlayingModel};
use crate::session;
use crate::session::timeout_ms;

verus! {

broadcast use vstd::std_specs::hash::group_hash_axioms;

/// Active now-playing subscription.
#[derive(Debug, PartialEq, Eq, Structural)]
pub struct Subscription {
    /// Native handle used to unsubscribe.
    pub handle: u64,
    /// Registry key matching the native callback context.
    pub id: u64,
}

/// What the native layer is asked for: a call back with the context, roughly as
/// often as the interval says.
#[derive(Debug, Clone, Copy, PartialEq, Eq, Structural)]
pub struct SubscriptionRequest {
    pub context: u64,
    pub interval_ms: u32,
}

/// The callbacks of the active subscriptions. Their keys are passed to the
/// native layer as callback contexts.
pub struct Subscriptions<C> {
    pub callbacks: HashMap<u64, C>,
    pub next_id: u64,
}

/// What a callback is called with, by the bytes of the native layer's JSON:
/// nothing playing where there are none, a snapshot where they hold one. There
/// is no call where the bytes hold no snapshot.
pub open spec fn update_for(json: Option<Seq<u8>>) -> Option<Option<NowPlayingModel>> {
    match json {
        None => Some(None),
        Some(_) => match now_playing::native_now_playing(json) {
            Some(snapshot) => Some(Some(snapshot)),
            None => None,
        },
    }
}

/// What a callback is called with, with its strings as sequences of characters.
pub open spec fn update_view(update: Option<Option<NowPlaying>>) -> Option<
    Option<NowPlayingModel>,
> {
    match update {
        Some(snapshot) => Some(now_playing::snapshot_view(snapshot)),
        None => None,
    }
}

impl<C> Subscriptions<C> {
    /// The callbacks by their keys.
    pub open spec fn view(&self) -> Map<u64, C> {
        self.callbacks@
    }

    /// Whether every key in use was handed out before.
    pub open spec fn keys_are_past(self) -> bool {
        forall|id: u64| #[trigger] self@.contains_key(id) ==> id < self.next_id
    }

    /// A registry without subscriptions.
    pub fn new() -> (res: Self)
        ensures
            res@ == Map::<u64, C>::empty(),
            res.next_id == 1,
            res.keys_are_past(),
    {
        Subscriptions { callbacks: HashMap::new(), next_id: 1 }
    }

    /// What the native layer is asked for a subscription to come, which gets a
    /// key of its own: the keys are counted up and start over after the last one.
    pub fn request(&mut self, interval_secs: u64, interval_subsec_nanos: u32) -> (res:
        SubscriptionRequest)
        ensures
            res.context == old(self).next_id,
            res.interval_ms == session::duration_millis(interval_secs, interval_subsec_nanos),
            final(self)@ == old(self)@,
            final(self).next_id == (if old(self).next_id == u64::MAX {
                0
            } else {
                (old(self).next_id + 1) as u64
            }),
            old(self).keys_are_past() && old(self).next_id < u64::MAX ==> final(self).keys_are_past() && !final(self)@.contains_key(res.context),
    {
        let context = self.next_id;
        self.next_id = context.wrapping_add(1);
        assert(self@ == old(self)@);
        SubscriptionRequest {
            context,
            interval_ms: timeout_ms(interval_secs, interval_subsec_nanos),
        }
    }

    /// The callback of a subscription, where it is still active.
    pub fn callback(&self, context: u64) -> (res: Option<&C>)
        ensures
            match res {
                Some(callback) => self@.contains_key(context) && *callback == self@[context],
                None => !self@.contains_key(context),
            },
    {
        self.callbacks.get(&context)
    }
}

/// Decides what a callback is called with, if it is: `None` stands for no call.
/// Payload changes are delivered; no JSON at all means "nothing playing" and is
/// forwarded as such. Unparseable payloads are ignored.
pub fn subscription_update(json: Option<&[u8]>) -> (res: Option<Option<NowPlaying>>)
    ensures
        update_view(res) == update_for(now_playing::bytes_view(json)),
{
    let snapshot = parse_json_c_string(json);
    if json.is_none() || snapshot.is_some() {
        Some(snapshot)
    } else {
        None
    }
}

/// Decides on a call back of the native layer: the callback of the context, and
/// what it is called with. There is no call where the subscription is no longer
/// active, or where the payload is to be ignored.
pub fn subscription_trampoline<'a, C>(
    subscriptions: &'a Subscriptions<C>,
    context: u64,
    json: Option<&[u8]>,
) -> (res: Option<(&'a C, Option<NowPlaying>)>)
    ensures
        res is Some <==> subscriptions@.contains_key(context) && update_for(
            now_playing::bytes_view(json),
        ) is Some,
        res matches Some((callback, snapshot)) ==> {
            &&& *callback == subscriptions@[context]
            &&& Some(now_playing::snapshot_view(snapshot)) == update_for(
                now_playing::bytes_view(json),
            )
        },
{
    match subscriptions.callback(context) {
        Some(callback) => match subscription_update(json) {
            Some(snapshot) => Some((callback, snapshot)),
            None => None,
        },
        None => None,
    }
}

/// Enters a subscription by the key it was requested with and the handle that the
/// native layer answered with. Returns
/// `None`, and enters nothing, where the handle is zero: the subscription could
/// not be established.
pub fn now_playing_subscribe<C>(
    subscriptions: &mut Subscriptions<C>,
    id: u64,
    handle: u64,
    callback: C,
) -> (res: Option<Subscription>)
    ensures
        final(subscriptions).next_id == old(subscriptions).next_id,
        if handle == 0 {
            res is None && final(subscriptions)@ == old(subscriptions)@
        } else {
            res == Some(Subscription { handle, id }) && final(subscriptions)@
                == old(subscriptions)@.insert(id, callback)
        },
        old(subscriptions).keys_are_past() && id < old(subscriptions).next_id
            ==> final(subscriptions).keys_are_past(),
{
    if handle == 0 {
        return None;
    }
    subscriptions.callbacks.insert(id, callback);
    Some(Subscription { handle, id })
}

impl Subscription {
    /// Takes the subscription off the registry.
    pub fn release<C>(&self, subscriptions: &mut Subscriptions<C>)
        ensures
            final(subscriptions)@ == old(subscriptions)@.remove(self.id),
            final(subscriptions).next_id == old(subscriptions).next_id,
            old(subscriptions).keys_are_past() ==> final(subscriptions).keys_are_past(),
    {
        subscriptions.callbacks.remove(&self.id);
    }
}

// ------------------------------------------------------------------- laws

/// A subscription that is entered is found under its key, and its release
/// leaves the registry as it was before.
pub proof fn law_release_undoes_subscribe<C>(callbacks: Map<u64, C>, id: u64, callback: C)
    requires
        !callbacks.contains_key(id),
    ensures
        callbacks.insert(id, callback).contains_key(id),
        callbacks.insert(id, callback)[id] == callback,
        callbacks.insert(id, callback).remove(id) == callbacks,
{
    assert(callbacks.insert(id, callback).remove(id) =~= callbacks);
}

/// Neither entering nor releasing a subscription touches another one.
pub proof fn law_subscriptions_are_independent<C>(
    callbacks: Map<u64, C>,
    id: u64,
    other: u64,
    callback: C,
)
    requires
        id != other,
        callbacks.contains_key(other),
    ensures
        callbacks.insert(id, callback).contains_key(other),
        callbacks.insert(id, callback)[other] == callbacks[other],
        callbacks.remove(id).contains_key(other),
        callbacks.remove(id)[other] == callbacks[other],
{
}

/// A callback hears of nothing playing exactly where there is no JSON; every
/// other call brings a snapshot, and one with valid values.
pub proof fn law_updates_are_valid(json: Option<Seq<u8>>)
    ensures
        update_for(json) == Some(None::<NowPlayingModel>) <==> json is None,
        update_for(json) matches Some(Some(snapshot)) ==> snapshot.is_valid(),
{
}

} // verus!
