use vodfriends_rs::token::{
    token_from_fields, AccessToken, AccessTokenResolver, CLIENT_ID, OPERATION_NAME, PLAYER_TYPE,
    TWITCH_GQL_API,
};
use vodfriends_rs::gql::GQL_GET_ACCESS_TOKEN_QUERY;
use vodfriends_rs::utils::{ErrorKind, TwitchClientError};
use vodfriends_rs::variants::{
    variants_of_lines, VariantPlaylistResolver, VariantSet, ACCESS_RESTRICTED,
    MISSING_VARIANT_NAME, MISSING_VARIANT_URL,
};

fn master(lines: &[&str]) -> String {
    lines.join("\n")
}

fn media(label: &str) -> String {
    format!("#EXT-X-MEDIA:TYPE=VIDEO,GROUP-ID=\"{label}\",NAME=\"{label}\",AUTOSELECT=YES")
}

#[test]
fn variants_are_read_from_a_master_manifest() {
    let text = master(&[
        "#EXTM3U",
        "#EXT-X-TWITCH-INFO:ORIGIN=\"s3\"",
        &media("1080p60"),
        "#EXT-X-STREAM-INF:BANDWIDTH=8000000,VIDEO=\"chunked\"",
        "https://cdn/chunked/index-dvr.m3u8",
        &media("720p60"),
        "#EXT-X-STREAM-INF:BANDWIDTH=3000000,VIDEO=\"720p60\"",
        "https://cdn/720p60/index-dvr.m3u8",
    ]);
    let set = VariantPlaylistResolver::resolve_variants(&text).unwrap();
    assert_eq!(set.len(), 2);
    assert_eq!(set.labels(), vec!["1080p60".to_string(), "720p60".to_string()]);
    assert_eq!(set.get("1080p60"), Some("https://cdn/chunked/index-dvr.m3u8".to_string()));
    assert_eq!(set.get("720p60"), Some("https://cdn/720p60/index-dvr.m3u8".to_string()));
    assert_eq!(set.get("480p"), None);
    assert!(set.contains_key("720p60"));
    assert!(!set.contains_key("720p"));
}

#[test]
fn first_declaration_of_a_label_wins() {
    let text = master(&[
        "#EXTM3U",
        &media("720p60"),
        "#EXT-X-STREAM-INF:BANDWIDTH=1",
        "https://cdn/first.m3u8",
        &media("720p60"),
        "#EXT-X-STREAM-INF:BANDWIDTH=2",
        "https://cdn/second.m3u8",
    ]);
    let set = VariantPlaylistResolver::resolve_variants(&text).unwrap();
    assert_eq!(set.len(), 1);
    assert_eq!(set.get("720p60"), Some("https://cdn/first.m3u8".to_string()));
}

#[test]
fn manifest_follows_the_variant_line_directly_or_after_comments() {
    let text = master(&[
        &media("a"),
        "https://cdn/a.m3u8",
        &media("b"),
        "#one",
        "#two",
        "https://cdn/b.m3u8",
    ]);
    let set = VariantPlaylistResolver::resolve_variants(&text).unwrap();
    assert_eq!(set.get("a"), Some("https://cdn/a.m3u8".to_string()));
    assert_eq!(set.get("b"), Some("https://cdn/b.m3u8".to_string()));
}

#[test]
fn restricted_manifest_is_refused() {
    let text = master(&[
        "[{\"error_code\":\"vod_manifest_restricted\"}]",
        &media("720p60"),
        "#x",
        "https://cdn/x.m3u8",
    ]);
    let e = VariantPlaylistResolver::resolve_variants(&text).unwrap_err();
    assert_eq!(e.kind(), ErrorKind::AccessRestricted);
    assert_eq!(e.message(), ACCESS_RESTRICTED);
}

#[test]
fn restricted_marker_counts_on_the_first_line_only() {
    let text = master(&["#EXTM3U", "vod_manifest_restricted", &media("a"), "u"]);
    let set = VariantPlaylistResolver::resolve_variants(&text).unwrap();
    assert_eq!(set.get("a"), Some("u".to_string()));
}

#[test]
fn variant_without_a_name_is_a_manifest_error() {
    for line in ["#EXT-X-MEDIA:TYPE=VIDEO", "#EXT-X-MEDIA:NAME=\"720p60"] {
        let e = VariantPlaylistResolver::resolve_variants(&master(&[line, "#x", "u"])).unwrap_err();
        assert_eq!(e.kind(), ErrorKind::ManifestParse);
        assert_eq!(e.message(), MISSING_VARIANT_NAME);
    }
}

#[test]
fn variant_without_a_manifest_is_a_manifest_error() {
    for lines in [vec![media("a")], vec![media("a"), "#only".to_string(), "#comments".to_string()]]
    {
        let lines: Vec<&str> = lines.iter().map(|s| s.as_str()).collect();
        let e = VariantPlaylistResolver::resolve_variants(&master(&lines)).unwrap_err();
        assert_eq!(e.kind(), ErrorKind::ManifestParse);
        assert_eq!(e.message(), MISSING_VARIANT_URL);
    }
}

#[test]
fn known_label_needs_no_manifest_line() {
    let text = master(&[&media("a"), "u", &media("a")]);
    let set = VariantPlaylistResolver::resolve_variants(&text).unwrap();
    assert_eq!(set.len(), 1);
    assert_eq!(set.get("a"), Some("u".to_string()));
}

#[test]
fn manifest_without_variants_gives_an_empty_set() {
    let set = VariantPlaylistResolver::resolve_variants("#EXTM3U\n").unwrap();
    assert_eq!(set.len(), 0);
    assert_eq!(set, VariantSet::new());
    let lines: Vec<Vec<char>> = Vec::new();
    assert_eq!(variants_of_lines(&lines).unwrap().len(), 0);
}

#[test]
fn variant_set_keeps_the_first_entry_of_a_label() {
    let mut set = VariantSet::new();
    set.insert_first("a".to_string(), "1".to_string());
    set.insert_first("b".to_string(), "2".to_string());
    set.insert_first("a".to_string(), "3".to_string());
    assert_eq!(set.len(), 2);
    assert_eq!(set.get("a"), Some("1".to_string()));
    assert_eq!(set.labels(), vec!["a".to_string(), "b".to_string()]);
}

#[test]
fn playlist_address_is_signed_with_the_token() {
    let token = AccessToken { value: "{\"v\":1}".to_string(), signature: "abc123".to_string() };
    assert_eq!(
        VariantPlaylistResolver::playlist_uri("1888413079", &token),
        "http://usher.ttvnw.net/vod/1888413079?nauth={\"v\":1}&nauthsig=abc123&allow_source=true&player=twitchweb"
    );
}

#[test]
fn token_request_asks_for_a_video() {
    let r = AccessTokenResolver::request("1888413079");
    assert_eq!(r.url, TWITCH_GQL_API);
    assert_eq!(r.url, "https://gql.twitch.tv/gql");
    assert_eq!(r.client_id, CLIENT_ID);
    assert_eq!(r.operation_name, OPERATION_NAME);
    assert_eq!(r.operation_name, "PlaybackAccessToken_Template");
    assert_eq!(r.query, GQL_GET_ACCESS_TOKEN_QUERY);
    assert!(!r.is_live);
    assert!(r.is_vod);
    assert_eq!(r.login, "");
    assert_eq!(r.vod_id, "1888413079");
    assert_eq!(r.player_type, PLAYER_TYPE);
    assert_eq!(r.player_type, "embed");
}

#[test]
fn token_is_read_from_the_answer() {
    let body = "{\"data\":{\"videoPlaybackAccessToken\":{\"value\":\"{\\\"vod_id\\\":1}\",\
                \"signature\":\"f00d\",\"__typename\":\"PlaybackAccessToken\"}},\"extensions\":{}}";
    let token = AccessTokenResolver::resolve(body, "1").unwrap();
    assert_eq!(token, AccessToken { value: "{\"vod_id\":1}".to_string(), signature: "f00d".to_string() });
}

#[test]
fn answer_without_a_token_is_an_auth_error() {
    for body in [
        "{\"data\":{\"videoPlaybackAccessToken\":null}}",
        "{\"data\":{\"videoPlaybackAccessToken\":{\"value\":\"v\"}}}",
        "{\"data\":{\"videoPlaybackAccessToken\":{\"signature\":\"s\"}}}",
        "{\"data\":{\"videoPlaybackAccessToken\":{\"value\":1,\"signature\":\"s\"}}}",
        "{\"errors\":[]}",
        "not json",
        "",
    ] {
        let e = AccessTokenResolver::resolve(body, "42").unwrap_err();
        assert_eq!(e.kind(), ErrorKind::Auth);
        assert_eq!(e.message(), "Failed to get access token for the video : 42");
    }
}

#[test]
fn token_needs_both_fields() {
    let t = token_from_fields(Some("v".to_string()), Some("s".to_string()), "7").unwrap();
    assert_eq!(t, AccessToken { value: "v".to_string(), signature: "s".to_string() });
    assert_eq!(t.copy(), t);
    for (v, s) in [(None, Some("s".to_string())), (Some("v".to_string()), None), (None, None)] {
        let e = token_from_fields(v, s, "7").unwrap_err();
        assert_eq!(e.kind(), ErrorKind::Auth);
        assert_eq!(e.message(), "Failed to get access token for the video : 7");
    }
}

#[test]
fn error_keeps_kind_and_message() {
    let e = TwitchClientError::new("Couldn't get video chunks");
    assert_eq!(e.kind(), ErrorKind::Unclassified);
    assert_eq!(e.message(), "Couldn't get video chunks");
    let e = TwitchClientError::of(ErrorKind::Network, "down");
    assert_eq!(e.kind(), ErrorKind::Network);
    assert_eq!(e.message(), "down");
    let e = TwitchClientError::with_kind(ErrorKind::Assembly, "gone".to_string());
    assert_eq!(e.kind(), ErrorKind::Assembly);
    assert_eq!(e.copy(), e);
}

#[test]
fn quality_asked_for_must_be_declared() {
    let mut set = VariantSet::new();
    set.insert_first("720p60".to_string(), "u".to_string());
    assert_eq!(VariantPlaylistResolver::select(&set, "720p60").unwrap(), "u");
    let e = VariantPlaylistResolver::select(&set, "chunked").unwrap_err();
    assert_eq!(e.kind(), ErrorKind::ManifestParse);
    assert_eq!(e.message(), "Couldn't find the video quality : chunked");
}
