use hifi_core::api::{
    release_to_track, search_params, search_query, split_artist, tracks_from_releases,
    url_from_ytdlp, watch_url, youtube_search_query, DiscogsRelease, LookupError,
};
use hifi_core::models::Track;

fn release(title: &str) -> DiscogsRelease {
    DiscogsRelease {
        title: title.to_string(),
        year: None,
        cover_image: None,
        thumb: None,
        id: None,
        resource_url: None,
    }
}

fn pair(a: &str, b: &str) -> (String, String) {
    (a.to_string(), b.to_string())
}

#[test]
fn splits_artist_and_title() {
    assert_eq!(split_artist("Daft Punk - Discovery"), pair("Daft Punk", "Discovery"));
    assert_eq!(split_artist("  A  -  B  "), pair("A", "B"));
    assert_eq!(split_artist("A - B - C"), pair("A", "B - C"));
    assert_eq!(split_artist("Discovery"), pair("unknown artist", "Discovery"));
    assert_eq!(split_artist("  Solo  "), pair("unknown artist", "Solo"));
    assert_eq!(split_artist("A-B"), pair("unknown artist", "A-B"));
    assert_eq!(split_artist(" - B"), pair("", "B"));
    assert_eq!(split_artist(""), pair("unknown artist", ""));
    assert_eq!(split_artist("Sigur Rós - Ágætis byrjun"), pair("Sigur Rós", "Ágætis byrjun"));
}

#[test]
fn split_gives_back_joined_parts() {
    for (a, t) in [("Air", "Moon Safari"), ("", "x"), ("A B", "C - D"), ("x", "")] {
        let joined = format!("{} - {}", a, t);
        assert_eq!(split_artist(&joined), pair(a, t));
    }
}

#[test]
fn release_becomes_track() {
    let mut r = release("Daft Punk - Discovery");
    r.year = Some("2001".to_string());
    r.cover_image = Some("cover.jpg".to_string());
    r.thumb = Some("thumb.jpg".to_string());
    r.id = Some(123);
    r.resource_url = Some("https://api.discogs.com/releases/123".to_string());
    let t = release_to_track(&r);
    assert_eq!(
        t,
        Track {
            id: "https://api.discogs.com/releases/123".to_string(),
            title: "Daft Punk".to_string(),
            artist: Some("Discovery".to_string()),
            album: None,
            year: Some(2001),
            artwork: Some("cover.jpg".to_string()),
        }
    );
}

#[test]
fn track_id_falls_back_to_number_then_title() {
    let mut r = release("Air - Moon Safari");
    r.id = Some(4242);
    r.thumb = Some("thumb.jpg".to_string());
    let t = release_to_track(&r);
    assert_eq!(t.id, "4242");
    assert_eq!(t.artwork, Some("thumb.jpg".to_string()));
    let t = release_to_track(&release("Air - Moon Safari"));
    assert_eq!(t.id, "Air-Moon Safari");
    assert_eq!(t.artwork, None);
    let t = release_to_track(&release("Moon Safari"));
    assert_eq!(t.id, "unknown artist-Moon Safari");
    assert_eq!(t.title, "unknown artist");
    assert_eq!(t.artist, Some("Moon Safari".to_string()));
}

#[test]
fn year_only_where_it_is_a_number() {
    for (text, year) in [("1999", Some(1999)), ("", None), ("199x", None), ("70000", None), ("+12", Some(12))] {
        let mut r = release("A - B");
        r.year = Some(text.to_string());
        assert_eq!(release_to_track(&r).year, year, "year {:?}", text);
    }
}

#[test]
fn tracks_keep_the_order_of_releases() {
    let rs = vec![release("A - 1"), release("B - 2"), release("C")];
    let ts = tracks_from_releases(&rs);
    let titles: Vec<&str> = ts.iter().map(|t| t.title.as_str()).collect();
    assert_eq!(titles, vec!["A", "B", "unknown artist"]);
    assert!(tracks_from_releases(&Vec::new()).is_empty());
}

#[test]
fn blank_queries_are_not_searched() {
    assert_eq!(search_query(""), None);
    assert_eq!(search_query("   \t\n"), None);
    assert_eq!(search_query("  daft punk "), Some("daft punk".to_string()));
    let once = search_query(" x y ").unwrap();
    assert_eq!(search_query(&once), Some(once.clone()));
}

#[test]
fn search_parameters() {
    let ps = search_params("daft punk");
    assert_eq!(
        ps,
        vec![
            ("q".to_string(), "daft punk".to_string()),
            ("type".to_string(), "release".to_string()),
            ("per_page".to_string(), "10".to_string()),
        ]
    );
}

#[test]
fn stream_lookup_query() {
    assert_eq!(youtube_search_query("Air", "La femme d'argent"), "ytsearch1:Air - La femme d'argent topic");
}

#[test]
fn watch_url_from_first_line() {
    assert_eq!(watch_url("dQw4w9WgXcQ\n"), "https://www.youtube.com/watch?v=dQw4w9WgXcQ");
    assert_eq!(watch_url("abc\r\nsecond\n"), "https://www.youtube.com/watch?v=abc");
    assert_eq!(watch_url("  abc  \nx"), "https://www.youtube.com/watch?v=abc");
    assert_eq!(watch_url("abc"), "https://www.youtube.com/watch?v=abc");
    assert_eq!(watch_url(""), "https://www.youtube.com/watch?v=");
    assert_eq!(watch_url("\nabc"), "https://www.youtube.com/watch?v=");
}

#[test]
fn ytdlp_run_gives_url_or_error() {
    assert_eq!(
        url_from_ytdlp(true, b"xyz\n", b""),
        Ok("https://www.youtube.com/watch?v=xyz".to_string())
    );
    assert_eq!(
        url_from_ytdlp(false, b"xyz\n", b"ERROR: no match"),
        Err(LookupError::YtdlpFailed("ytdlp failed to extract url ERROR: no match".to_string()))
    );
    assert_eq!(
        url_from_ytdlp(false, b"", b"bad\xff"),
        Err(LookupError::YtdlpFailed("ytdlp failed to extract url bad\u{FFFD}".to_string()))
    );
    assert_eq!(
        url_from_ytdlp(true, b"\xffid\n", b""),
        Ok("https://www.youtube.com/watch?v=\u{FFFD}id".to_string())
    );
}
