//! macOS Now Playing info and media transport control.
//!
//! The library holds every decision that is made on the way between Apple's
//! private MediaRemote framework and the caller: what payloads mean, which way a
//! command takes, when an answer is kept, where the adapter lies. What only the
//! system can do (calling the framework, running the adapter, looking at the
//! file system, reading the clock) comes in as values or as functions to call.
//!
//! When the framework, its symbols or the adapter are absent, everything
//! degrades to "unavailable" instead of failing.

pub mod adapter;
pub mod cache;
pub mod double;
pub mod json;
pub mod laws;
pub mod now_playing;
pub mod parser;
pub mod rendering;
pub mod rounding;
pub mod seek;
pub mod session;
pub mod single;
pub mod spectrum;
pub mod staging;
pub mod subscription;
pub mod text;
pub mod transport;
pub mod youtube;

pub use adapter::{
    parse_adapter_now_playing, parse_adapter_output, read_adapter_now_playing,
    MAX_ADAPTER_OUTPUT_BYTES, MAX_ARTWORK_BASE64_BYTES,
};
pub use cache::{adapter_now_playing, invalidate_adapter_cache, AdapterCache};
pub use double::Double;
pub use json::{Json, JsonNumber};
pub use now_playing::{parse_json_c_string, parse_now_playing, NowPlaying};
pub use seek::{seek, seek_position_micros};
pub use session::{
    compose_media_snapshot, media_snapshot, now_playing_available, now_playing_fetch,
    output_volume, set_output_volume, timeout_ms, valid_output_volume, MediaSnapshot,
};
pub use single::Single;
pub use spectrum::{
    parse_spectrum, spectrum_levels, spectrum_permission_granted, spectrum_request_permission,
    spectrum_start, spectrum_start_with_existing_consent, Spectrum, SPECTRUM_BAND_FREQUENCIES_HZ,
};
pub use staging::{
    adapter_arguments, adapter_directory, adapter_seek, adapter_send, AdapterCandidate,
    AdapterParts, AdapterRequest,
};
pub use subscription::{
    now_playing_subscribe, subscription_trampoline, subscription_update, Subscription,
    SubscriptionRequest, Subscriptions,
};
pub use transport::{
    resolve_capabilities, resolve_transport_send, transport_available, transport_capabilities,
    transport_send, Capabilities, TransportCommand, UnknownCommand, COMMAND_CODE_CAPACITY,
};
pub use youtube::{youtube_video_id, youtube_video_id_from_url};
