//! Commands, capabilities and delivery.

use ultra_media_remote::{
    resolve_capabilities, resolve_transport_send, transport_available, transport_capabilities,
    transport_send, AdapterCache, Capabilities, TransportCommand, UnknownCommand,
};

const NOTHING: Capabilities = Capabilities {
    play_pause: false,
    previous: false,
    next: false,
    like: false,
    dislike: false,
};

#[test]
fn transport_command_codes_match_media_remote_values() {
    assert_eq!(TransportCommand::PlayPause.code(), 2);
    assert_eq!(TransportCommand::Next.code(), 4);
    assert_eq!(TransportCommand::Previous.code(), 5);
    assert_eq!(TransportCommand::Like.code(), 106);
    assert_eq!(TransportCommand::Dislike.code(), 107);
}

#[test]
fn transport_command_roundtrips_through_code() {
    for command in [
        TransportCommand::PlayPause,
        TransportCommand::Next,
        TransportCommand::Previous,
        TransportCommand::Like,
        TransportCommand::Dislike,
    ] {
        assert_eq!(TransportCommand::try_from(command.code()), Ok(command));
    }
    assert_eq!(TransportCommand::try_from(0), Err(UnknownCommand(0)));
    assert_eq!(TransportCommand::try_from(3), Err(UnknownCommand(3)));
    assert_eq!(
        TransportCommand::try_from(u32::MAX),
        Err(UnknownCommand(u32::MAX))
    );
}

#[test]
fn only_five_codes_are_commands() {
    let known: Vec<u32> = (0..1000)
        .filter(|code| TransportCommand::try_from(*code).is_ok())
        .collect();
    assert_eq!(known, vec![2, 4, 5, 106, 107]);
}

#[test]
fn capabilities_require_transport_availability() {
    let none = resolve_capabilities(false, &[2, 4, 5], false);
    assert!(!none.play_pause);
    assert!(!none.previous);
    assert!(!none.next);
    assert!(!none.like);
    assert!(!none.dislike);

    let send_only = resolve_capabilities(true, &[], false);
    assert!(send_only.play_pause);
    assert!(!send_only.previous);
    assert!(!send_only.next);

    let adapter = resolve_capabilities(true, &[], true);
    assert!(adapter.play_pause);
    assert!(adapter.previous);
    assert!(adapter.next);
    assert!(!adapter.like);
    assert!(!adapter.dislike);
}

#[test]
fn capabilities_honor_enabled_command_codes() {
    // Codes are zero-based MRMediaRemoteCommand values: play/pause=2,
    // next=4, previous=5. Only supported AND enabled commands are reported, so
    // presence in the set is authoritative.
    let caps = resolve_capabilities(true, &[2, 4], false);
    assert!(caps.play_pause);
    assert!(caps.next);
    assert!(!caps.previous);
    assert!(!caps.like);
    assert!(!caps.dislike);

    let caps = resolve_capabilities(true, &[2, 5, 106, 107], false);
    assert!(caps.previous);
    assert!(!caps.next);
    assert!(caps.like);
    assert!(caps.dislike);

    // An empty direct discovery result must not invent secondary capabilities.
    let caps = resolve_capabilities(true, &[2], false);
    assert_eq!(
        caps,
        Capabilities {
            play_pause: true,
            previous: false,
            next: false,
            like: false,
            dislike: false,
        }
    );
}

#[test]
fn discovery_counts_are_clamped_to_the_buffer() {
    let mut buffer = [0u32; 32];
    buffer[0] = 2;
    buffer[1] = 4;
    buffer[2] = 5;

    let none = transport_capabilities(false, 1, &buffer, -1);
    assert_eq!(none, Capabilities { play_pause: true, ..NOTHING });
    let two = transport_capabilities(false, 1, &buffer, 2);
    assert_eq!(two, Capabilities { play_pause: true, next: true, ..NOTHING });
    let all = transport_capabilities(false, 1, &buffer, i32::MAX);
    assert_eq!(
        all,
        Capabilities {
            play_pause: true,
            next: true,
            previous: true,
            ..NOTHING
        }
    );
}

#[test]
fn either_send_path_makes_play_pause_available() {
    assert_eq!(transport_capabilities(false, 0, &[106], 1), NOTHING);
    assert_eq!(
        transport_capabilities(true, 0, &[106], 1),
        Capabilities {
            play_pause: true,
            previous: false,
            next: false,
            like: true,
            dislike: false,
        }
    );
    assert!(!transport_available(0));
    assert!(transport_available(1));
    assert!(transport_available(-1));
}

#[test]
fn discovery_is_authoritative_where_it_answers() {
    assert_eq!(
        resolve_capabilities(true, &[2, 4], true),
        Capabilities {
            play_pause: true,
            previous: false,
            next: true,
            like: false,
            dislike: false,
        }
    );
    for codes in [&[2][..], &[2, 5, 106], &[4, 5], &[0]] {
        for send_available in [false, true] {
            assert_eq!(
                resolve_capabilities(send_available, codes, true),
                resolve_capabilities(send_available, codes, false)
            );
        }
    }
    let standard = Capabilities {
        play_pause: true,
        previous: true,
        next: true,
        ..NOTHING
    };
    assert_eq!(resolve_capabilities(true, &[], true), standard);
    assert_eq!(transport_capabilities(true, 0, &[106], 0), standard);
    assert_eq!(transport_capabilities(true, 0, &[106], -1), standard);
}

#[test]
fn transport_falls_back_after_adapter_failure() {
    assert!(resolve_transport_send(Some(true), || {
        panic!("direct send must not run after adapter success")
    }));
    assert!(resolve_transport_send(Some(false), || true));
    assert!(resolve_transport_send(None, || true));
    assert!(!resolve_transport_send(Some(false), || false));
}

#[test]
fn commands_are_sent_by_their_codes() {
    let mut cache = AdapterCache { fetched_at: Some(7), value: None };
    let mut adapter_code = 0;
    let mut direct_code = 0;
    let sent = transport_send(
        &mut cache,
        TransportCommand::Like,
        |code| {
            adapter_code = code;
            Some(false)
        },
        |code| {
            direct_code = code;
            1
        },
    );
    assert!(sent);
    assert_eq!((adapter_code, direct_code), (106, 106));
    assert_eq!(cache.fetched_at, None);
}

#[test]
fn only_delivered_commands_outdate_the_cache() {
    let mut cache = AdapterCache { fetched_at: Some(7), value: None };
    assert!(!transport_send(&mut cache, TransportCommand::Next, |_| None, |_| 0));
    assert!(!transport_send(&mut cache, TransportCommand::Next, |_| Some(false), |_| 0));
    assert_eq!(cache.fetched_at, Some(7));
    assert!(transport_send(
        &mut cache,
        TransportCommand::Next,
        |_| Some(true),
        |_| panic!("the adapter delivered"),
    ));
    assert_eq!(cache.fetched_at, None);
}
