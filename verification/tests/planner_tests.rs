use vodfriends_rs::decimal::parse_duration;
use vodfriends_rs::fetcher::SegmentFetcher;
use vodfriends_rs::planner::{
    age_from_timestamp, plan_lines, plan_segments, plan_with_age, vod_age_at, Segment,
    SegmentPlan, SegmentPlanner,
    DURATION_OUT_OF_RANGE, MALFORMED_TIMESTAMP, MISSING_SEGMENT_NAME, MISSING_TIMESTAMP,
    TIMESTAMP_OUT_OF_RANGE, UNPARSABLE_DURATION,
};
use vodfriends_rs::utils::ErrorKind;

/// 2024-01-02T03:04:05 in seconds since the Unix epoch.
const BROADCAST: i64 = 1_704_164_645;

fn manifest(lines: &[&str]) -> String {
    lines.join("\n")
}

fn chars(s: &str) -> Vec<char> {
    s.chars().collect()
}

fn segment(filename: &str, duration_micros: u64, muted: bool, sequence_index: usize) -> Segment {
    Segment { filename: filename.to_string(), duration_micros, muted, sequence_index }
}

fn scenario() -> String {
    manifest(&[
        "#EXTM3U",
        "#EXT-X-VERSION:3",
        "#ID3-EQUIV-TDTG:2024-01-02T03:04:05",
        "#EXTINF:9.009,",
        "seg-0.ts",
        "#EXTINF:9.009,",
        "#EXT-X-BYTERANGE:100@0",
        "seg-1-muted.ts",
        "#EXTINF:4.004,",
        "#EXT-X-BYTERANGE:50@100",
        "seg-1-muted.ts",
        "#EXT-X-ENDLIST",
    ])
}

#[test]
fn plan_merges_byte_ranged_repeats() {
    let plan = SegmentPlanner::plan(&scenario(), BROADCAST + 2 * 3600).unwrap();
    assert_eq!(
        plan,
        SegmentPlan {
            segments: vec![
                segment("seg-0.ts", 9_009_000, false, 0),
                segment("seg-1-muted.ts", 13_013_000, true, 1),
            ],
            vod_age_seconds: 7200,
            apply_unmute: true,
        }
    );
}

#[test]
fn plan_durations_in_seconds() {
    let plan = SegmentPlanner::plan(&scenario(), BROADCAST + 2 * 3600).unwrap();
    let seconds: Vec<f64> =
        plan.segments.iter().map(|s| s.duration_micros as f64 / 1_000_000.0).collect();
    assert_eq!(seconds, vec![9.009, 13.013]);
    assert_eq!(plan.vod_age_seconds as f64 / 3600.0, 2.0);
}

#[test]
fn plan_fetches_unmuted_name_while_young() {
    let plan = SegmentPlanner::plan(&scenario(), BROADCAST + 2 * 3600).unwrap();
    assert_eq!(SegmentFetcher::fetch_name(&plan.segments[0], plan.apply_unmute), "seg-0.ts");
    assert_eq!(SegmentFetcher::fetch_name(&plan.segments[1], plan.apply_unmute), "seg-1.ts");
    assert_eq!(plan.segments[1].filename, "seg-1-muted.ts");
    assert_eq!(
        SegmentFetcher::temp_names(&plan),
        vec!["seg-0.ts".to_string(), "seg-1.ts".to_string()]
    );
}

#[test]
fn plan_keeps_muted_name_when_old() {
    let plan = SegmentPlanner::plan(&scenario(), BROADCAST + 30 * 3600).unwrap();
    assert!(!plan.apply_unmute);
    assert_eq!(
        SegmentFetcher::temp_names(&plan),
        vec!["seg-0.ts".to_string(), "seg-1-muted.ts".to_string()]
    );
}

#[test]
fn unmute_window_ends_at_24_hours() {
    let just_inside = SegmentPlanner::plan(&scenario(), BROADCAST + 86_399).unwrap();
    assert_eq!(just_inside.vod_age_seconds, 86_399);
    assert!(just_inside.apply_unmute);
    let boundary = SegmentPlanner::plan(&scenario(), BROADCAST + 86_400).unwrap();
    assert_eq!(boundary.vod_age_seconds, 86_400);
    assert!(!boundary.apply_unmute);
    let outside = SegmentPlanner::plan(&scenario(), BROADCAST + 86_401).unwrap();
    assert!(!outside.apply_unmute);
}

#[test]
fn age_of_a_video_from_the_future_is_negative() {
    let plan = SegmentPlanner::plan(&scenario(), BROADCAST - 10).unwrap();
    assert_eq!(plan.vod_age_seconds, -10);
    assert!(plan.apply_unmute);
}

#[test]
fn timestamp_is_read_by_the_calendar() {
    let lines = vec![chars("#ID3-EQUIV-TDTG:1970-01-02T00:00:01")];
    assert_eq!(vod_age_at(&lines, 86_401 + 5).unwrap(), 5);
    let lines = vec![chars("#ID3-EQUIV-TDTG:2000-03-01T00:00:00")];
    assert_eq!(vod_age_at(&lines, 951_868_800).unwrap(), 0);
}

#[test]
fn timestamp_text_is_trimmed() {
    let lines = vec![chars("junk"), chars("#ID3-EQUIV-TDTG: \t2024-01-02T03:04:05 \r")];
    assert_eq!(vod_age_at(&lines, BROADCAST + 1).unwrap(), 1);
}

#[test]
fn first_timestamp_line_decides() {
    let lines = vec![
        chars("#ID3-EQUIV-TDTG:2024-01-02T03:04:05"),
        chars("#ID3-EQUIV-TDTG:1999-01-01T00:00:00"),
    ];
    assert_eq!(vod_age_at(&lines, BROADCAST + 7).unwrap(), 7);
}

#[test]
fn missing_timestamp_is_a_manifest_error() {
    let e = SegmentPlanner::plan(&manifest(&["#EXTM3U", "#EXTINF:1.0,", "a.ts"]), 0).unwrap_err();
    assert_eq!(e.kind(), ErrorKind::ManifestParse);
    assert_eq!(e.message(), MISSING_TIMESTAMP);
}

#[test]
fn malformed_timestamp_is_a_manifest_error() {
    let text = manifest(&["#ID3-EQUIV-TDTG:yesterday", "#EXTINF:1.0,", "a.ts"]);
    let e = SegmentPlanner::plan(&text, 0).unwrap_err();
    assert_eq!(e.kind(), ErrorKind::ManifestParse);
    assert_eq!(e.message(), MALFORMED_TIMESTAMP);
    let text = manifest(&["#ID3-EQUIV-TDTG:2024-13-02T03:04:05"]);
    assert_eq!(SegmentPlanner::plan(&text, 0).unwrap_err().message(), MALFORMED_TIMESTAMP);
}

#[test]
fn age_out_of_range_is_a_manifest_error() {
    let e = age_from_timestamp(Some(i64::MIN), 1).unwrap_err();
    assert_eq!(e.kind(), ErrorKind::ManifestParse);
    assert_eq!(e.message(), TIMESTAMP_OUT_OF_RANGE);
    assert_eq!(age_from_timestamp(Some(5), 12).unwrap(), 7);
    assert_eq!(age_from_timestamp(None, 12).unwrap_err().message(), MALFORMED_TIMESTAMP);
}

#[test]
fn manifest_errors_come_before_segment_errors() {
    let text = manifest(&["#EXTINF:abc,", "a.ts"]);
    assert_eq!(SegmentPlanner::plan(&text, 0).unwrap_err().kind(), ErrorKind::ManifestParse);
}

#[test]
fn unparsable_duration_is_a_segment_error() {
    for bad in ["#EXTINF:abc,", "#EXTINF:,", "#EXTINF:1.5,title", "#EXTINF:1e3,", "#EXTINF:-1,"] {
        let text = manifest(&["#ID3-EQUIV-TDTG:2024-01-02T03:04:05", bad, "a.ts"]);
        let e = SegmentPlanner::plan(&text, BROADCAST).unwrap_err();
        assert_eq!(e.kind(), ErrorKind::SegmentParse);
        assert_eq!(e.message(), UNPARSABLE_DURATION);
    }
}

#[test]
fn duration_line_without_a_name_is_a_segment_error() {
    for lines in [
        vec!["#ID3-EQUIV-TDTG:2024-01-02T03:04:05", "#EXTINF:1.0,"],
        vec!["#ID3-EQUIV-TDTG:2024-01-02T03:04:05", "#EXTINF:1.0,", "#EXT-X-BYTERANGE:1@0"],
    ] {
        let e = SegmentPlanner::plan(&manifest(&lines), BROADCAST).unwrap_err();
        assert_eq!(e.kind(), ErrorKind::SegmentParse);
        assert_eq!(e.message(), MISSING_SEGMENT_NAME);
    }
}

#[test]
fn durations_that_add_up_too_far_are_a_segment_error() {
    let text = manifest(&[
        "#ID3-EQUIV-TDTG:2024-01-02T03:04:05",
        "#EXTINF:18446744073709.551615,",
        "a.ts",
        "#EXTINF:0.000001,",
        "a.ts",
    ]);
    let e = SegmentPlanner::plan(&text, BROADCAST).unwrap_err();
    assert_eq!(e.kind(), ErrorKind::SegmentParse);
    assert_eq!(e.message(), DURATION_OUT_OF_RANGE);
}

#[test]
fn repeats_merge_with_or_without_byte_range() {
    let text = manifest(&[
        "#ID3-EQUIV-TDTG:2024-01-02T03:04:05",
        "#EXTINF:1.5,",
        "a.ts",
        "#EXTINF:2,",
        "b.ts",
        "#EXTINF:0.25,,",
        "a.ts",
        "#EXTINF:3.000,",
        "#EXT-X-BYTERANGE:7@0",
        "c-muted.ts",
        "#EXTINF:4.75,",
        "b.ts",
    ]);
    let plan = SegmentPlanner::plan(&text, BROADCAST + 90_000).unwrap();
    assert_eq!(
        plan.segments,
        vec![
            segment("a.ts", 1_750_000, false, 0),
            segment("b.ts", 6_750_000, false, 1),
            segment("c-muted.ts", 3_000_000, true, 3),
        ]
    );
    assert_eq!(plan.vod_age_seconds, 90_000);
    assert!(!plan.apply_unmute);
}

#[test]
fn plan_of_lines_equals_plan_of_text() {
    let text = scenario();
    let lines: Vec<Vec<char>> = text.split('\n').map(chars).collect();
    assert_eq!(
        plan_lines(&lines, BROADCAST).unwrap(),
        SegmentPlanner::plan(&text, BROADCAST).unwrap()
    );
}

#[test]
fn manifest_without_segments_gives_an_empty_plan() {
    let text = manifest(&["#EXTM3U", "#ID3-EQUIV-TDTG:2024-01-02T03:04:05", ""]);
    let plan = SegmentPlanner::plan(&text, BROADCAST + 3).unwrap();
    assert!(plan.segments.is_empty());
    assert_eq!(plan.vod_age_seconds, 3);
}

#[test]
fn duration_is_read_as_a_decimal_number() {
    assert_eq!(parse_duration(&chars("9.009")), Some(9_009_000));
    assert_eq!(parse_duration(&chars("10")), Some(10_000_000));
    assert_eq!(parse_duration(&chars("0")), Some(0));
    assert_eq!(parse_duration(&chars(".5")), Some(500_000));
    assert_eq!(parse_duration(&chars("5.")), Some(5_000_000));
    assert_eq!(parse_duration(&chars("0.0000019")), Some(1));
    assert_eq!(parse_duration(&chars("007.250")), Some(7_250_000));
    assert_eq!(parse_duration(&chars("18446744073709.551615")), Some(u64::MAX));
}

#[test]
fn duration_that_is_no_decimal_number_is_refused() {
    for bad in ["", ".", "1.2.3", "1e3", "+1", "-1", " 1", "1 ", "abc", "1,5", "٣"] {
        assert_eq!(parse_duration(&chars(bad)), None);
    }
    assert_eq!(parse_duration(&chars("18446744073709.551616")), None);
    assert_eq!(parse_duration(&chars("18446744073710")), None);
    assert_eq!(parse_duration(&chars("99999999999999999999999999")), None);
}

#[test]
fn segments_need_no_timestamp() {
    let lines: Vec<Vec<char>> =
        ["#EXTINF:1.5,", "a.ts", "#EXTINF:2.5,", "#EXT-X-BYTERANGE:1@0", "a.ts", "#EXTINF:1,", "b"]
            .iter()
            .map(|l| chars(l))
            .collect();
    assert_eq!(
        plan_segments(&lines).unwrap(),
        vec![segment("a.ts", 4_000_000, false, 0), segment("b", 1_000_000, false, 2)]
    );
    let plan = plan_with_age(&lines, 86_399).unwrap();
    assert_eq!(plan.vod_age_seconds, 86_399);
    assert!(plan.apply_unmute);
    assert_eq!(plan.segments, plan_segments(&lines).unwrap());
    assert!(!plan_with_age(&lines, 86_400).unwrap().apply_unmute);
    assert!(plan_with_age(&lines, i64::MIN).unwrap().apply_unmute);
    let bad: Vec<Vec<char>> = vec![chars("#EXTINF:x,"), chars("a.ts")];
    assert_eq!(plan_segments(&bad).unwrap_err().message(), UNPARSABLE_DURATION);
    assert_eq!(plan_with_age(&bad, 0).unwrap_err().kind(), ErrorKind::SegmentParse);
}
