use vodfriends_rs::assembler::{append_chunked, Assembler, TempStore, CHUNK_SIZE};
use vodfriends_rs::download_options::DownloadOptions;
use vodfriends_rs::fetcher::{FetchRequest, SegmentFetcher};
use vodfriends_rs::keyed::TextMap;
use vodfriends_rs::links::{LinkAction, LinkEvent, LinkPhase, LinkResolution};
use vodfriends_rs::planner::{Segment, SegmentPlan, SegmentPlanner};
use vodfriends_rs::requests::{lines_as_strings, strings_as_lines, TwitchClient};
use vodfriends_rs::session::{Action, DownloadSession, Event, Fraction, Phase, VideoInfo};
use vodfriends_rs::token::AccessTokenResolver;
use vodfriends_rs::twitch::VodFriendClient;
use vodfriends_rs::utils::{ErrorKind, TwitchClientError};
use vodfriends_rs::variants::ACCESS_RESTRICTED;

const BROADCAST: i64 = 1_704_164_645;
const PLAYLIST: &str = "https://cdn.example/vod/chunked/index-dvr.m3u8";

fn media_manifest() -> String {
    [
        "#EXTM3U",
        "#ID3-EQUIV-TDTG:2024-01-02T03:04:05",
        "#EXTINF:9.009,",
        "seg-0.ts",
        "#EXTINF:9.009,",
        "#EXT-X-BYTERANGE:100@0",
        "seg-1-muted.ts",
        "#EXTINF:4.004,",
        "#EXT-X-BYTERANGE:50@100",
        "seg-1-muted.ts",
        "#EXTINF:2.000,",
        "seg-2.ts",
        "#EXT-X-ENDLIST",
    ]
    .join("\n")
}

fn plan() -> SegmentPlan {
    SegmentPlanner::plan(&media_manifest(), BROADCAST + 7200).unwrap()
}

fn fetched(session: &mut DownloadSession) -> Action {
    session.advance(Event::ManifestFetched { body: media_manifest(), now: BROADCAST + 7200 })
}

fn started() -> DownloadSession {
    let mut client = TwitchClient::new();
    client.set_temp_folder("./temp/".to_string());
    client.download_vod(PLAYLIST.to_string(), DownloadOptions::new("1888413079".to_string()))
}

fn request(name: &str) -> FetchRequest {
    FetchRequest {
        url: format!("https://cdn.example/vod/chunked/{name}"),
        temp_name: name.to_string(),
    }
}

fn fetch(name: &str, wait_millis: u64) -> Action {
    Action::FetchSegment { request: request(name), temp_folder: "./temp/".to_string(), wait_millis }
}

fn report(completed: usize, total: usize) -> Action {
    Action::Report {
        video: VideoInfo { video_id: "1888413079".to_string() },
        progress: Fraction { completed, total },
    }
}

#[test]
fn options_have_the_documented_defaults() {
    let o = DownloadOptions::new("1888413079".to_string());
    assert_eq!(o.oauth_token, "");
    assert_eq!(o.video_id, "1888413079");
    assert_eq!(o.quality, "720p60");
    assert_eq!(o.filename, "1888413079");
    assert_eq!(o.filepath, "./downloads/");
    assert_eq!(o.get_video_id(), "1888413079");
    assert_eq!(o.get_output_filename(), "1888413079");
    assert_eq!(o.get_output_filepath(), "./downloads/");
}

#[test]
fn clients_keep_their_temporary_directory() {
    assert_eq!(TwitchClient::new().get_temp_folder(), "/twitch_download_tmp/");
    let mut client = TwitchClient::new();
    client.set_temp_folder("/tmp/x".to_string());
    assert_eq!(client.get_temp_folder(), "/tmp/x");
    let mut friend = VodFriendClient::new();
    friend.set_temp_directory("./temp/");
    let session =
        friend.download_vod(PLAYLIST.to_string(), DownloadOptions::new("1".to_string()));
    assert_eq!(session.phase(), Phase::AwaitingManifest);
    assert_eq!(session.pending(), Action::FetchManifest { url: PLAYLIST.to_string() });
    assert_eq!(friend.download_progress().len(), 0);
}

#[test]
fn playlists_are_the_lines_of_the_manifest() {
    let client = TwitchClient::new();
    assert_eq!(
        client.get_video_playlists("a\nb\n"),
        vec!["a".to_string(), "b".to_string(), "".to_string()]
    );
    assert_eq!(VodFriendClient::new().get_video_playlists("x"), vec!["x".to_string()]);
    assert_eq!(lines_as_strings(""), vec!["".to_string()]);
    assert_eq!(strings_as_lines(&vec!["ab".to_string()]), vec![vec!['a', 'b']]);
}

#[test]
fn client_calculates_the_age_of_a_video() {
    let chunks = lines_as_strings(&media_manifest());
    assert_eq!(TwitchClient::calculate_vod_age(&chunks, BROADCAST + 3600).unwrap(), 3600);
    let e = TwitchClient::calculate_vod_age(&vec!["#EXTM3U".to_string()], 0).unwrap_err();
    assert_eq!(e.kind(), ErrorKind::ManifestParse);
}

#[test]
fn requests_are_made_against_the_directory_of_the_manifest() {
    assert_eq!(
        SegmentFetcher::base_url(PLAYLIST),
        Some("https://cdn.example/vod/chunked".to_string())
    );
    assert_eq!(SegmentFetcher::base_url("index-dvr.m3u8"), None);
    assert_eq!(SegmentFetcher::base_url("/x"), Some("".to_string()));
    let p = plan();
    assert_eq!(
        SegmentFetcher::requests(&p, "https://cdn.example/vod/chunked"),
        vec![request("seg-0.ts"), request("seg-1.ts"), request("seg-2.ts")]
    );
    let muted = Segment {
        filename: "seg-1-muted.ts".to_string(),
        duration_micros: 1,
        muted: true,
        sequence_index: 0,
    };
    assert_eq!(
        SegmentFetcher::request(&muted, false, "b"),
        FetchRequest { url: "b/seg-1-muted.ts".to_string(), temp_name: "seg-1-muted.ts".to_string() }
    );
    assert_eq!(
        SegmentFetcher::request(&muted, true, "b"),
        FetchRequest { url: "b/seg-1.ts".to_string(), temp_name: "seg-1.ts".to_string() }
    );
}

#[test]
fn download_runs_in_plan_order_and_reports_after_each_segment() {
    let mut session = started();
    assert_eq!(session.pending(), Action::FetchManifest { url: PLAYLIST.to_string() });
    let mut action = fetched(&mut session);
    let mut reports: Vec<Fraction> = Vec::new();
    let mut fetches: Vec<String> = Vec::new();
    let mut steps = 0;
    loop {
        steps += 1;
        assert!(steps < 100);
        action = match action {
            Action::FetchSegment { request, temp_folder, wait_millis } => {
                assert_eq!(temp_folder, "./temp/");
                assert_eq!(wait_millis, 0);
                assert_eq!(request.url, format!("https://cdn.example/vod/chunked/{}", request.temp_name));
                fetches.push(request.temp_name);
                session.advance(Event::SegmentFetched)
            }
            Action::Report { video, progress } => {
                assert_eq!(video.video_id, "1888413079");
                assert_eq!(session.progress().get("1888413079"), Some(&progress));
                assert_eq!(session.fraction(), progress);
                reports.push(progress);
                session.advance(Event::Reported)
            }
            Action::Assemble { temp_folder, temp_names, output_path, output_filename } => {
                assert_eq!(temp_folder, "./temp/");
                assert_eq!(temp_names, fetches);
                assert_eq!(output_path, "./downloads/");
                assert_eq!(output_filename, "1888413079");
                session.advance(Event::Assembled)
            }
            Action::Done => break,
            other => panic!("unexpected action {other:?}"),
        };
    }
    assert_eq!(session.phase(), Phase::Finished);
    assert_eq!(fetches, vec!["seg-0.ts", "seg-1.ts", "seg-2.ts"]);
    assert_eq!(
        reports,
        vec![
            Fraction { completed: 1, total: 3 },
            Fraction { completed: 2, total: 3 },
            Fraction { completed: 3, total: 3 },
        ]
    );
    let values: Vec<f64> = reports.iter().map(|f| f.completed as f64 / f.total as f64).collect();
    assert!(values.windows(2).all(|w| w[0] <= w[1]));
    assert_eq!(*values.last().unwrap(), 1.0);
    assert_eq!(session.advance(Event::SegmentFetched), Action::Done);
    assert_eq!(session.plan(), &plan());
}

#[test]
fn download_steps_one_by_one() {
    let mut session = started();
    assert_eq!(
        fetched(&mut session),
        fetch("seg-0.ts", 0)
    );
    assert_eq!(session.phase(), Phase::Fetching);
    assert_eq!(session.advance(Event::SegmentFetched), report(1, 3));
    assert_eq!(session.phase(), Phase::Reporting);
    assert_eq!(
        session.advance(Event::Reported),
        fetch("seg-1.ts", 0)
    );
    assert_eq!(session.advance(Event::SegmentFetched), report(2, 3));
    assert_eq!(session.pending(), report(2, 3));
}

#[test]
fn failed_manifest_request_is_a_network_error() {
    let mut session = started();
    let action = session.advance(Event::Failed { cause: "timed out".to_string() });
    let expected =
        TwitchClientError::of(ErrorKind::Network, "Couldn't get video chunks : timed out");
    assert_eq!(action, Action::Abort { error: expected.copy() });
    assert_eq!(session.phase(), Phase::Failed);
    assert_eq!(session.advance(Event::SegmentFetched), Action::Abort { error: expected });
}

#[test]
fn manifest_that_cannot_be_read_ends_the_download() {
    let mut session = started();
    let action = session.advance(Event::ManifestFetched { body: "#EXTM3U".to_string(), now: 0 });
    match action {
        Action::Abort { error } => assert_eq!(error.kind(), ErrorKind::ManifestParse),
        other => panic!("unexpected action {other:?}"),
    }
}

#[test]
fn failed_segment_ends_the_download() {
    let mut session = started();
    fetched(&mut session);
    session.advance(Event::SegmentFetched);
    session.advance(Event::Reported);
    let action = session.advance(Event::Failed { cause: "404".to_string() });
    let expected = TwitchClientError::of(
        ErrorKind::SegmentFetch,
        "Failed to execute request for part seg-1.ts, got error : 404",
    );
    assert_eq!(action, Action::Abort { error: expected.copy() });
    assert_eq!(session.advance(Event::Reported), Action::Abort { error: expected.copy() });
    assert_eq!(session.advance(Event::Assembled), Action::Abort { error: expected });
    assert_eq!(session.fraction(), Fraction { completed: 1, total: 3 });
}

#[test]
fn failed_assembly_ends_the_download() {
    let mut session = started();
    fetched(&mut session);
    for _ in 0..3 {
        session.advance(Event::SegmentFetched);
        session.advance(Event::Reported);
    }
    assert_eq!(session.phase(), Phase::Assembling);
    let action = session.advance(Event::Failed { cause: "disk full".to_string() });
    let expected = TwitchClientError::of(
        ErrorKind::Assembly,
        "Failed to combine video parts, got error : disk full",
    );
    assert_eq!(action, Action::Abort { error: expected });
}

#[test]
fn event_out_of_turn_ends_the_download() {
    let mut session = started();
    let expected = TwitchClientError::of(ErrorKind::Unclassified, "Unexpected event");
    assert_eq!(session.advance(Event::Reported), Action::Abort { error: expected.copy() });
    let mut session = started();
    fetched(&mut session);
    assert_eq!(session.advance(Event::Assembled), Action::Abort { error: expected.copy() });
    let mut session = started();
    fetched(&mut session);
    session.advance(Event::SegmentFetched);
    assert_eq!(
        session.advance(Event::Failed { cause: "sink".to_string() }),
        Action::Abort { error: expected }
    );
}

#[test]
fn manifest_address_without_a_directory_cannot_fetch_segments() {
    let client = TwitchClient::new();
    let mut session =
        client.download_vod("index.m3u8".to_string(), DownloadOptions::new("9".to_string()));
    let action = fetched(&mut session);
    let expected = TwitchClientError::of(
        ErrorKind::SegmentFetch,
        "Failed to download video part : seg-0.ts",
    );
    assert_eq!(action, Action::Abort { error: expected });
}

#[test]
fn empty_plan_goes_straight_to_assembly() {
    let mut session = started();
    let body = "#ID3-EQUIV-TDTG:2024-01-02T03:04:05".to_string();
    let action = session.advance(Event::ManifestFetched { body, now: BROADCAST });
    assert_eq!(
        action,
        Action::Assemble {
            temp_folder: "./temp/".to_string(),
            temp_names: Vec::new(),
            output_path: "./downloads/".to_string(),
            output_filename: "1888413079".to_string(),
        }
    );
    assert_eq!(session.advance(Event::Assembled), Action::Done);
    assert_eq!(session.progress().len(), 0);
}

#[test]
fn client_takes_over_the_progress_of_a_download() {
    let mut friend = VodFriendClient::new();
    friend.set_temp_directory("./temp/");
    let mut session =
        friend.download_vod(PLAYLIST.to_string(), DownloadOptions::new("55".to_string()));
    fetched(&mut session);
    session.advance(Event::SegmentFetched);
    friend.record_progress(&session);
    assert_eq!(friend.download_progress().get("55"), Some(&Fraction { completed: 1, total: 3 }));
    let other = friend.download_vod(PLAYLIST.to_string(), DownloadOptions::new("56".to_string()));
    assert_eq!(other.progress().get("55"), Some(&Fraction { completed: 1, total: 3 }));
    assert_eq!(other.progress().get("56"), None);
}

#[test]
fn output_is_in_plan_order_whatever_the_order_of_writing() {
    let p = plan();
    let parts: Vec<(&str, Vec<u8>)> = vec![
        ("seg-0.ts", vec![0, 1, 2]),
        ("seg-1.ts", vec![10, 11]),
        ("seg-2.ts", vec![20, 21, 22, 23]),
    ];
    let expected: Vec<u8> = vec![0, 1, 2, 10, 11, 20, 21, 22, 23];
    for order in [[0, 1, 2], [2, 1, 0], [1, 2, 0], [2, 0, 1]] {
        let mut store = TempStore::new();
        store.insert("unrelated.ts".to_string(), vec![99]);
        for i in order {
            store.insert(parts[i].0.to_string(), parts[i].1.clone());
        }
        assert_eq!(Assembler::assemble(&p, &store).unwrap(), expected);
    }
}

#[test]
fn later_write_of_a_name_replaces_the_earlier() {
    let p = plan();
    let mut store = TempStore::new();
    store.insert("seg-0.ts".to_string(), vec![1]);
    store.insert("seg-1.ts".to_string(), vec![2]);
    store.insert("seg-2.ts".to_string(), vec![3]);
    store.insert("seg-1.ts".to_string(), vec![7, 7]);
    assert_eq!(Assembler::assemble(&p, &store).unwrap(), vec![1, 7, 7, 3]);
}

#[test]
fn missing_segment_is_an_assembly_error() {
    let p = plan();
    let mut store = TempStore::new();
    store.insert("seg-0.ts".to_string(), vec![1]);
    store.insert("seg-1-muted.ts".to_string(), vec![2]);
    let e = Assembler::assemble(&p, &store).unwrap_err();
    assert_eq!(e.kind(), ErrorKind::Assembly);
    assert_eq!(e.message(), "Failed to open chunk file : seg-1.ts");
}

#[test]
fn segments_are_copied_whole_across_chunks() {
    let text = "#ID3-EQUIV-TDTG:2024-01-02T03:04:05\n#EXTINF:1,\na.ts\n#EXTINF:1,\nb.ts";
    let p = SegmentPlanner::plan(text, BROADCAST).unwrap();
    let a: Vec<u8> = (0..(2 * CHUNK_SIZE + 17)).map(|i| (i % 251) as u8).collect();
    let b: Vec<u8> = (0..CHUNK_SIZE).map(|i| (i % 13) as u8).collect();
    let mut store = TempStore::new();
    store.insert("b.ts".to_string(), b.clone());
    store.insert("a.ts".to_string(), a.clone());
    let mut expected = a.clone();
    expected.extend_from_slice(&b);
    assert_eq!(Assembler::assemble(&p, &store).unwrap(), expected);
    let mut out = vec![5u8];
    append_chunked(&mut out, &a);
    assert_eq!(out.len(), a.len() + 1);
    assert_eq!(&out[1..], &a[..]);
    append_chunked(&mut out, &Vec::new());
    assert_eq!(out.len(), a.len() + 1);
}

#[test]
fn text_map_sets_and_gets() {
    let mut m: TextMap<u8> = TextMap::new();
    assert_eq!(m.len(), 0);
    assert_eq!(m.get("a"), None);
    m.insert("a".to_string(), 1);
    m.insert("b".to_string(), 2);
    m.insert("a".to_string(), 3);
    assert_eq!(m.len(), 2);
    assert_eq!(m.get("a"), Some(&3));
    assert_eq!(m.get("b"), Some(&2));
    assert!(m.contains_key("b"));
    assert!(!m.contains_key("c"));
    assert_eq!(m.keys(), vec!["a".to_string(), "b".to_string()]);
    assert_eq!(m.duplicate(), m);
}

fn token_body() -> String {
    "{\"data\":{\"videoPlaybackAccessToken\":{\"value\":\"val\",\"signature\":\"sig\"}}}".to_string()
}

fn master_manifest() -> String {
    [
        "#EXTM3U",
        "#EXT-X-MEDIA:TYPE=VIDEO,GROUP-ID=\"720p60\",NAME=\"720p60\",AUTOSELECT=YES",
        "#EXT-X-STREAM-INF:BANDWIDTH=1",
        "https://cdn.example/vod/720p60/index-dvr.m3u8",
    ]
    .join("\n")
}

#[test]
fn links_are_resolved_in_two_requests() {
    let client = TwitchClient::new();
    let mut links = client.get_vod_links(&DownloadOptions::new("1888413079".to_string()));
    assert_eq!(links.phase(), LinkPhase::AwaitingToken);
    assert_eq!(
        links.pending(),
        LinkAction::RequestToken { request: AccessTokenResolver::request("1888413079") }
    );
    let action = links.advance(LinkEvent::Answered { body: token_body() });
    assert_eq!(
        action,
        LinkAction::RequestManifest {
            uri: "http://usher.ttvnw.net/vod/1888413079?nauth=val&nauthsig=sig&allow_source=true&player=twitchweb".to_string(),
            client_id: "kd1unb4b3q4t58fwlpcbzcbnm76a8fp".to_string(),
        }
    );
    assert_eq!(links.token().value, "val");
    assert_eq!(links.advance(LinkEvent::Answered { body: master_manifest() }), LinkAction::Done);
    assert_eq!(links.phase(), LinkPhase::Resolved);
    assert_eq!(
        links.variants().get("720p60"),
        Some("https://cdn.example/vod/720p60/index-dvr.m3u8".to_string())
    );
    assert_eq!(links.advance(LinkEvent::Failed { cause: "late".to_string() }), LinkAction::Done);
}

#[test]
fn restricted_manifest_ends_the_resolution() {
    let mut links = VodFriendClient::new().get_vod_links(&DownloadOptions::new("5".to_string()));
    links.advance(LinkEvent::Answered { body: token_body() });
    let body = "[{\"error\":\"vod_manifest_restricted\"}]\n".to_string() + &master_manifest();
    let expected = TwitchClientError::of(ErrorKind::AccessRestricted, ACCESS_RESTRICTED);
    assert_eq!(
        links.advance(LinkEvent::Answered { body }),
        LinkAction::Abort { error: expected.copy() }
    );
    assert_eq!(links.phase(), LinkPhase::Failed);
    assert_eq!(links.variants().len(), 0);
    assert_eq!(
        links.advance(LinkEvent::Answered { body: master_manifest() }),
        LinkAction::Abort { error: expected }
    );
}

#[test]
fn failed_requests_end_the_resolution() {
    let mut links = LinkResolution::new("5".to_string());
    let action = links.advance(LinkEvent::Failed { cause: "dns".to_string() });
    let expected = TwitchClientError::of(
        ErrorKind::Network,
        "Unable to get Access Token, got error : dns",
    );
    assert_eq!(action, LinkAction::Abort { error: expected });
    let mut links = LinkResolution::new("5".to_string());
    links.advance(LinkEvent::Answered { body: token_body() });
    let action = links.advance(LinkEvent::Failed { cause: "500".to_string() });
    let expected = TwitchClientError::of(
        ErrorKind::Network,
        "Failed to get video playlists, got error : 500",
    );
    assert_eq!(action, LinkAction::Abort { error: expected });
    let mut links = LinkResolution::new("5".to_string());
    match links.advance(LinkEvent::Answered { body: "{}".to_string() }) {
        LinkAction::Abort { error } => assert_eq!(error.kind(), ErrorKind::Auth),
        other => panic!("unexpected action {other:?}"),
    }
}

#[test]
fn failed_segment_is_asked_for_again_within_the_limit() {
    let mut client = TwitchClient::new();
    client.set_temp_folder("./temp/".to_string());
    client.set_retry_limit(2);
    let mut session =
        client.download_vod(PLAYLIST.to_string(), DownloadOptions::new("1888413079".to_string()));
    assert_eq!(fetched(&mut session), fetch("seg-0.ts", 0));
    assert_eq!(session.advance(Event::Failed { cause: "reset".to_string() }), fetch("seg-0.ts", 500));
    assert_eq!(session.advance(Event::SegmentFetched), report(1, 3));
    assert_eq!(session.advance(Event::Reported), fetch("seg-1.ts", 0));
    assert_eq!(session.advance(Event::Failed { cause: "a".to_string() }), fetch("seg-1.ts", 500));
    assert_eq!(session.advance(Event::Failed { cause: "b".to_string() }), fetch("seg-1.ts", 1000));
    let expected = TwitchClientError::of(
        ErrorKind::SegmentFetch,
        "Failed to execute request for part seg-1.ts, got error : c",
    );
    assert_eq!(
        session.advance(Event::Failed { cause: "c".to_string() }),
        Action::Abort { error: expected }
    );
    assert_eq!(session.phase(), Phase::Failed);
    assert!(!session.may_remove_temp());
}

#[test]
fn wait_doubles_up_to_the_cap() {
    let waits: Vec<u64> = (0..10).map(DownloadSession::backoff).collect();
    assert_eq!(waits, vec![0, 500, 1000, 2000, 4000, 8000, 16000, 30000, 30000, 30000]);
    assert_eq!(DownloadSession::backoff(usize::MAX), 30000);
}

#[test]
fn temporary_storage_may_go_once_the_output_is_written() {
    let mut session = started();
    assert!(!session.may_remove_temp());
    fetched(&mut session);
    for _ in 0..3 {
        assert!(!session.may_remove_temp());
        session.advance(Event::SegmentFetched);
        session.advance(Event::Reported);
    }
    assert!(!session.may_remove_temp());
    session.advance(Event::Assembled);
    assert!(session.may_remove_temp());
}

#[test]
fn session_can_be_made_without_a_client() {
    let session = DownloadSession::new(
        PLAYLIST.to_string(),
        DownloadOptions::new("3".to_string()),
        "t".to_string(),
        1,
        TextMap::new(),
    );
    assert_eq!(session.pending(), Action::FetchManifest { url: PLAYLIST.to_string() });
    assert_eq!(session.fraction(), Fraction { completed: 0, total: 0 });
}
