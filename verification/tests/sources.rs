//! Where answers come from: the adapter, its cache, the native layer and
//! subscriptions.

use ultra_media_remote::staging::adapter_candidates;
use ultra_media_remote::{
    adapter_arguments, adapter_directory, adapter_now_playing, adapter_seek, adapter_send,
    invalidate_adapter_cache, media_snapshot, now_playing_available, now_playing_fetch,
    now_playing_subscribe, parse_json_c_string, subscription_trampoline, subscription_update, timeout_ms, AdapterCache,
    AdapterCandidate, AdapterParts, AdapterRequest, Capabilities, Double, NowPlaying, Subscription,
    SubscriptionRequest, Subscriptions,
};

const SECOND: u128 = 1_000_000_000;

fn titled(title: &str) -> NowPlaying {
    parse_json_c_string(Some(format!("{{\"title\":\"{title}\"}}").as_bytes())).unwrap()
}

#[test]
fn candidates_come_in_order() {
    let first = AdapterCandidate::Override;
    let second = AdapterCandidate::BesideExecutable;
    let third = AdapterCandidate::BundleResources;
    assert_eq!(
        adapter_candidates(true, true, true),
        vec![first, second, third]
    );
    assert_eq!(adapter_candidates(false, true, true), vec![second, third]);
    assert_eq!(adapter_candidates(true, true, false), vec![first, second]);
    assert_eq!(adapter_candidates(true, false, true), vec![first]);
    assert_eq!(adapter_candidates(false, false, true), vec![]);
}

#[test]
fn the_first_complete_directory_is_taken() {
    let complete = AdapterParts { script: true, framework: true };
    let script_only = AdapterParts { script: true, framework: false };
    let framework_only = AdapterParts { script: false, framework: true };

    assert_eq!(
        adapter_directory(true, true, true, |_| complete),
        Some(AdapterCandidate::Override)
    );
    assert_eq!(
        adapter_directory(true, true, true, |candidate| match candidate {
            AdapterCandidate::Override => script_only,
            AdapterCandidate::BesideExecutable => framework_only,
            AdapterCandidate::BundleResources => complete,
        }),
        Some(AdapterCandidate::BundleResources)
    );
    assert_eq!(
        adapter_directory(false, true, true, |_| complete),
        Some(AdapterCandidate::BesideExecutable)
    );
    assert_eq!(adapter_directory(true, true, true, |_| script_only), None);
    assert_eq!(adapter_directory(false, false, true, |_| panic!("no candidates")), None);
}

#[test]
fn requests_are_spelled_out() {
    assert_eq!(adapter_arguments(AdapterRequest::Get), vec!["get", "--now"]);
    assert_eq!(adapter_arguments(AdapterRequest::Send(106)), vec!["send", "106"]);
    for code in [0, 2, 9, 10, 100, u32::MAX] {
        assert_eq!(
            adapter_arguments(AdapterRequest::Send(code)),
            vec!["send".to_string(), code.to_string()]
        );
    }
    for micros in [0, 1, -1, 10, 1_250_000, i64::MAX, i64::MIN] {
        assert_eq!(
            adapter_arguments(AdapterRequest::Seek(micros)),
            vec!["seek".to_string(), micros.to_string()]
        );
    }
}

#[test]
fn adapter_deliveries_hand_on_what_came_back() {
    for answer in [None, Some(false), Some(true)] {
        let mut asked = vec![];
        let sent = adapter_send(4, |arguments| {
            asked = arguments;
            answer
        });
        assert_eq!(sent, answer);
        assert_eq!(asked, vec!["send", "4"]);
        let sent = adapter_seek(1_250_000, |arguments| {
            asked = arguments;
            answer
        });
        assert_eq!(sent, answer);
        assert_eq!(asked, vec!["seek", "1250000"]);
    }
}

#[test]
fn answers_are_kept_for_two_seconds() {
    let mut cache = AdapterCache::new();
    let first = titled("first");
    let read = adapter_now_playing(&mut cache, 0, || (Some(titled("first")), 5 * SECOND));
    assert_eq!(read.as_ref(), Some(&first));
    assert_eq!(cache.fetched_at, Some(5 * SECOND));

    let read = adapter_now_playing(&mut cache, 7 * SECOND - 1, || panic!("the answer is fresh"));
    assert_eq!(read.as_ref(), Some(&first));

    // No answer is kept just as well.
    let read = adapter_now_playing(&mut cache, 7 * SECOND, || (None, 8 * SECOND));
    assert_eq!(read, None);
    let read = adapter_now_playing(&mut cache, 9 * SECOND, || panic!("the answer is fresh"));
    assert_eq!(read, None);

    invalidate_adapter_cache(&mut cache);
    assert!(!cache.fresh(9 * SECOND));
    let read =
        adapter_now_playing(&mut cache, 9 * SECOND, || (Some(titled("third")), 9 * SECOND));
    assert_eq!(read, Some(titled("third")));
}

#[test]
fn timeouts_are_whole_milliseconds() {
    assert_eq!(timeout_ms(0, 0), 0);
    assert_eq!(timeout_ms(1, 999_999), 1000);
    assert_eq!(timeout_ms(2, 500_000_000), 2500);
    assert_eq!(timeout_ms(4_294_967, 295_999_999), u32::MAX);
    assert_eq!(timeout_ms(4_294_967, 296_000_000), u32::MAX);
    assert_eq!(timeout_ms(u64::MAX, 999_999_999), u32::MAX);
}

#[test]
fn the_native_layer_answers_where_the_adapter_does_not() {
    let adapter = now_playing_fetch(1, 0, Some(titled("adapter")), |_| panic!("answered"));
    assert_eq!(adapter, Some(titled("adapter")));

    let mut timeout = 0;
    let direct = now_playing_fetch(1, 500_000_000, None, |millis| {
        timeout = millis;
        Some(b"{\"title\":\"direct\"}".to_vec())
    });
    assert_eq!(direct, Some(titled("direct")));
    assert_eq!(timeout, 1500);

    assert_eq!(now_playing_fetch(1, 0, None, |_| None), None);
    assert_eq!(now_playing_fetch(1, 0, None, |_| Some(b"{".to_vec())), None);
    assert!(!now_playing_available(0));
    assert!(now_playing_available(1));
    assert!(now_playing_available(-1));
}

#[test]
fn snapshots_are_read_in_one_go() {
    let capabilities = Capabilities {
        play_pause: true,
        previous: false,
        next: false,
        like: false,
        dislike: true,
    };
    let volume = Double { bits: 0.5f64.to_bits() };
    let mut timeout = (0, 0);
    let snapshot = media_snapshot(
        3,
        7,
        |secs, nanos| {
            timeout = (secs, nanos);
            Some(titled("T"))
        },
        || capabilities,
        || Some(volume),
    );
    assert_eq!(timeout, (3, 7));
    assert_eq!(snapshot.now_playing, Some(titled("T")));
    assert_eq!(snapshot.capabilities, capabilities);
    assert_eq!(snapshot.output_volume, Some(volume));
    assert_eq!(snapshot.clone(), snapshot);

    // What is missing does not take the rest with it.
    let snapshot = media_snapshot(3, 7, |_, _| None, || capabilities, || Some(volume));
    assert_eq!(snapshot.now_playing, None);
    assert_eq!(snapshot.output_volume, Some(volume));
}

#[test]
fn subscriptions_come_and_go() {
    let mut subscriptions: Subscriptions<&str> = Subscriptions::new();
    let first = subscriptions.request(0, 500_000_000);
    assert_eq!(first, SubscriptionRequest { context: 1, interval_ms: 500 });
    let second = subscriptions.request(1, 0);
    assert_eq!(second, SubscriptionRequest { context: 2, interval_ms: 1000 });

    assert_eq!(now_playing_subscribe(&mut subscriptions, first.context, 0, "refused"), None);
    assert_eq!(subscriptions.callback(1), None);

    let a = now_playing_subscribe(&mut subscriptions, first.context, 70, "a").unwrap();
    let b = now_playing_subscribe(&mut subscriptions, second.context, 71, "b").unwrap();
    assert_eq!(a, Subscription { handle: 70, id: 1 });
    assert_eq!(subscriptions.callback(1), Some(&"a"));
    assert_eq!(subscriptions.callback(2), Some(&"b"));

    a.release(&mut subscriptions);
    assert_eq!(subscriptions.callback(1), None);
    assert_eq!(subscriptions.callback(2), Some(&"b"));
    b.release(&mut subscriptions);
    assert!(subscriptions.callbacks.is_empty());

    subscriptions.next_id = u64::MAX;
    assert_eq!(subscriptions.request(0, 0).context, u64::MAX);
    assert_eq!(subscriptions.request(0, 0).context, 0);
}

#[test]
fn updates_are_forwarded_or_ignored() {
    assert_eq!(subscription_update(None), Some(None));
    assert_eq!(
        subscription_update(Some(b"{\"title\":\"T\"}")),
        Some(Some(titled("T")))
    );
    assert_eq!(subscription_update(Some(b"{")), None);
    assert_eq!(subscription_update(Some(b"null")), None);
    assert_eq!(subscription_update(Some(b"\xff")), None);
}

#[test]
fn only_the_callback_of_the_context_is_called() {
    let mut subscriptions: Subscriptions<&str> = Subscriptions::new();
    let a = now_playing_subscribe(&mut subscriptions, 1, 70, "a").unwrap();
    now_playing_subscribe(&mut subscriptions, 2, 71, "b").unwrap();
    let payload: &[u8] = b"{\"title\":\"T\"}";

    assert_eq!(
        subscription_trampoline(&subscriptions, 1, Some(payload)),
        Some((&"a", Some(titled("T"))))
    );
    assert_eq!(subscription_trampoline(&subscriptions, 2, None), Some((&"b", None)));
    assert_eq!(subscription_trampoline(&subscriptions, 2, Some(b"{")), None);
    assert_eq!(subscription_trampoline(&subscriptions, 3, Some(payload)), None);

    a.release(&mut subscriptions);
    assert_eq!(subscription_trampoline(&subscriptions, 1, Some(payload)), None);
    assert_eq!(subscription_trampoline(&subscriptions, 1, None), None);
}
