//! Video IDs and the links that name them.

use ultra_media_remote::{youtube_video_id, youtube_video_id_from_url};

const ID: &str = "dQw4w9WgXcQ";

#[test]
fn youtube_id_requires_exact_identifiers_or_explicit_urls() {
    assert_eq!(
        youtube_video_id(Some("dQw4w9WgXcQ"), None).as_deref(),
        Some("dQw4w9WgXcQ")
    );
    assert_eq!(
        youtube_video_id(None, Some("https://youtu.be/dQw4w9WgXcQ?t=4")).as_deref(),
        Some("dQw4w9WgXcQ")
    );
    assert_eq!(
        youtube_video_id(None, Some("https://www.youtube.com/watch?v=dQw4w9WgXcQ")).as_deref(),
        Some("dQw4w9WgXcQ")
    );
    assert_eq!(
        youtube_video_id(Some("dQw4w9WgXcQ"), Some("https://youtu.be/aqz-KE-bpKQ"),),
        None,
    );
    assert_eq!(youtube_video_id(Some("UUID-dQw4w9WgXcQ"), None), None);
    assert_eq!(youtube_video_id(Some("A video title"), None), None);
    assert_eq!(
        youtube_video_id_from_url("https://example.com/watch?v=dQw4w9WgXcQ"),
        None
    );
    assert_eq!(
        youtube_video_id_from_url("https://www.youtube.com/watch?v=too-short"),
        None
    );
    assert_eq!(youtube_video_id(Some(" dQw4w9WgXcQ "), None), None);
}

#[test]
fn fields_confirm_together_and_in_any_order() {
    let link = "https://youtu.be/dQw4w9WgXcQ";
    assert_eq!(youtube_video_id(None, None), None);
    assert_eq!(youtube_video_id(Some(ID), Some(link)).as_deref(), Some(ID));
    assert_eq!(youtube_video_id(Some(link), Some(ID)).as_deref(), Some(ID));
    assert_eq!(youtube_video_id(Some("a title"), Some(link)).as_deref(), Some(ID));
    assert_eq!(youtube_video_id(Some(link), Some("aqz-KE-bpKQ")), None);
    assert_eq!(
        youtube_video_id(Some("3e2f7a1c-0a52-4a3e-9f0f-d0e6a6a1b2c3"), None),
        None
    );
}

#[test]
fn links_name_their_video() {
    for link in [
        "https://youtu.be/dQw4w9WgXcQ",
        "HTTP://YouTu.Be/dQw4w9WgXcQ#x",
        "https://youtu.be///dQw4w9WgXcQ?t=4",
        "https://youtube.com/watch?v=dQw4w9WgXcQ",
        "https://m.youtube.com/WATCH?list=x&v=dQw4w9WgXcQ&t=1",
        "https://www.youtube.com/watch?v=dQw4w9WgXcQ#v=other",
        "https://www.youtube.com/shorts/dQw4w9WgXcQ",
        "https://www.youtube.com/embed/dQw4w9WgXcQ/more?x=1",
        "https://www.youtube.com/live/dQw4w9WgXcQ?feature=share",
        "https://user:pw@www.youtube.com:443/watch?v=dQw4w9WgXcQ",
        " \u{a0}\nhttps://youtu.be/dQw4w9WgXcQ\u{3000}\t",
    ] {
        assert_eq!(youtube_video_id_from_url(link).as_deref(), Some(ID), "{link}");
    }
}

#[test]
fn other_links_name_nothing() {
    for link in [
        "",
        "://",
        "dQw4w9WgXcQ",
        "youtu.be/dQw4w9WgXcQ",
        "ftp://youtu.be/dQw4w9WgXcQ",
        "https://youtu.be",
        "https://youtu.be?v=dQw4w9WgXcQ",
        "https://youtu.be/dQw4w9WgXcQ/",
        "https://youtu.be/dQw4w9WgXc\u{e9}",
        "https://music.youtube.com/watch?v=dQw4w9WgXcQ",
        "https://youtube.com@example.com/watch?v=dQw4w9WgXcQ",
        "https://www.youtube.com/watch?w=dQw4w9WgXcQ",
        "https://www.youtube.com/watch#?v=dQw4w9WgXcQ",
        "https://www.youtube.com/watch/?v=dQw4w9WgXcQ",
        "https://www.youtube.com/Shorts/dQw4w9WgXcQ",
        "https://www.youtube.com/watch?v=too-short&v=dQw4w9WgXcQ",
    ] {
        assert_eq!(youtube_video_id_from_url(link), None, "{link}");
    }
}

/// The same rules, in the string methods of std.
fn by_string_methods(value: &str) -> Option<String> {
    let id = |candidate: &str| {
        let known = |b: u8| b.is_ascii_alphanumeric() || b == b'_' || b == b'-';
        (candidate.len() == 11 && candidate.bytes().all(known)).then_some(candidate.to_owned())
    };
    let (scheme, rest) = value.trim().split_once("://")?;
    if !scheme.eq_ignore_ascii_case("http") && !scheme.eq_ignore_ascii_case("https") {
        return None;
    }
    let (authority, remainder) = rest.split_at(rest.find(['/', '?', '#']).unwrap_or(rest.len()));
    let host = authority.rsplit('@').next()?.split(':').next()?.to_ascii_lowercase();
    match host.as_str() {
        "youtu.be" => id(remainder.trim_start_matches('/').split(['?', '#']).next()?),
        "youtube.com" | "www.youtube.com" | "m.youtube.com" => {
            let (path, query) = remainder.split_once('?').unwrap_or((remainder, ""));
            if path.eq_ignore_ascii_case("/watch") {
                let value = query.split('&').find_map(|part| part.strip_prefix("v="))?;
                return id(value.split('#').next()?);
            }
            let rest = path
                .strip_prefix("/shorts/")
                .or_else(|| path.strip_prefix("/embed/"))
                .or_else(|| path.strip_prefix("/live/"))?;
            id(rest.split(['/', '?', '#']).next()?)
        }
        _ => None,
    }
}

#[test]
fn random_links_are_read_alike() {
    let pieces = [
        "http", "https", "HTTPS", "://", ":", "/", "//", "?", "#", "&", "@", "youtu.be", "YOUTU.BE",
        "youtube.com", "www.youtube.com", "m.youtube.com", "/watch", "/Watch", "v=", "?v=", "&v=",
        "/shorts/", "/embed/", "/live/", "dQw4w9WgXcQ", "aqz-KE-bpK_", "short", " ", "\u{2003}",
        "\u{e9}", ":443", "user@",
    ];
    let mut state: u64 = 0x2545_f491_4f6c_dd1d;
    let mut next = |bound: usize| {
        state ^= state << 13;
        state ^= state >> 7;
        state ^= state << 17;
        (state % bound as u64) as usize
    };
    let mut found = 0;
    for round in 0..300_000 {
        let mut link = String::new();
        if round % 3 > 0 {
            // Most links start as links do.
            link.push_str(["http", "https"][next(2)]);
            link.push_str("://");
            link.push_str(pieces[11 + next(5)]);
        }
        for _ in 0..next(6) {
            link.push_str(pieces[next(pieces.len())]);
        }
        let id = youtube_video_id_from_url(&link);
        assert_eq!(id, by_string_methods(&link), "{link}");
        found += id.is_some() as usize;
    }
    assert!(found > 100, "{found} links named a video");
}
