//! The segment planner: from the lines of a media manifest to the ordered,
//! deduplicated list of segments to fetch.
//!
//! A manifest names a segment once for every byte range that it serves of
//! it. The plan holds each file once, in the order of first appearance, with
//! the durations of all its appearances added up.

use crate::decimal::{duration_micros, parse_duration};
use crate::text::{
    chars_of, contains, contains_text, copy_range, end_without_trailing, find_tagged, first_tagged,
    is_prefix, lemma_first_tagged, lines_of, lines_view, split_lines, starts_with, string_of,
    strip_trailing, trim, trimmed,
};
use crate::utils::{ErrorKind, ErrorView, TwitchClientError};
use vstd::prelude::*;

verus! {

/// What a line that gives a segment's duration begins with.
pub const DURATION_TAG: &'static str = "#EXTINF:";

/// What a line that gives a segment's byte range begins with.
pub const BYTE_RANGE_TAG: &'static str = "#EXT-X-BYTERANGE";

/// What the line that gives the time of broadcast begins with.
pub const TIMESTAMP_TAG: &'static str = "#ID3-EQUIV-TDTG:";

/// The form in which the time of broadcast is written.
pub const TIMESTAMP_FORMAT: &'static str = "%Y-%m-%dT%H:%M:%S";

/// What the name of a muted segment holds.
pub const MUTED_MARKER: &'static str = "-muted";

/// The age in seconds from which a video no longer serves the unmuted form
/// of a muted segment: 24 hours.
pub const UNMUTE_WINDOW_SECONDS: i64 = 86_400;

/// The message of the error for a manifest without a time of broadcast.
pub const MISSING_TIMESTAMP: &'static str =
    "Couldn't find the timestamp when trying to calculate VOD age";

/// The message of the error for a time of broadcast that cannot be read.
pub const MALFORMED_TIMESTAMP: &'static str =
    "Couldn't get timestamp when trying to calculate VOD age";

/// The message of the error for a time of broadcast too far from now.
pub const TIMESTAMP_OUT_OF_RANGE: &'static str =
    "Timestamp is out of range when trying to calculate VOD age";

/// The message of the error for a duration that cannot be read.
pub const UNPARSABLE_DURATION: &'static str = "Couldn't parse the duration of a video part";

/// The message of the error for a duration line that no name follows.
pub const MISSING_SEGMENT_NAME: &'static str = "Couldn't find the name of a video part";

/// The message of the error for durations that add up to too much.
pub const DURATION_OUT_OF_RANGE: &'static str = "The duration of a video part is out of range";

/// One segment of a plan.
#[derive(Debug, Clone, PartialEq, Eq)]
pub struct Segment {
    /// The name of the segment's file, as the manifest writes it.
    pub filename: String,
    /// How long the segment plays, in microseconds.
    pub duration_micros: u64,
    /// Whether the platform has silenced the segment.
    pub muted: bool,
    /// The place of the segment's first appearance among the duration lines
    /// of the manifest, counted from 0.
    pub sequence_index: usize,
}

/// A segment as contracts speak of it.
pub struct SegmentView {
    pub filename: Seq<char>,
    pub duration_micros: nat,
    pub muted: bool,
    pub sequence_index: nat,
}

impl View for Segment {
    type V = SegmentView;

    open spec fn view(&self) -> SegmentView {
        SegmentView {
            filename: self.filename@,
            duration_micros: self.duration_micros as nat,
            muted: self.muted,
            sequence_index: self.sequence_index as nat,
        }
    }
}

/// The views of the segments in `segments`.
pub open spec fn segments_view(segments: Seq<Segment>) -> Seq<SegmentView> {
    Seq::new(segments.len(), |i: int| segments[i]@)
}

/// The segments of a video in the order of reassembly, with the video's age.
#[derive(Debug, Clone, PartialEq, Eq)]
pub struct SegmentPlan {
    /// The segments, in the order in which the manifest first names them.
    pub segments: Vec<Segment>,
    /// The time since the broadcast, in whole seconds.
    pub vod_age_seconds: i64,
    /// Whether to ask for the unmuted form of muted segments.
    pub apply_unmute: bool,
}

/// A plan as contracts speak of it.
pub struct SegmentPlanView {
    pub segments: Seq<SegmentView>,
    pub vod_age_seconds: int,
    pub apply_unmute: bool,
}

impl View for SegmentPlan {
    type V = SegmentPlanView;

    open spec fn view(&self) -> SegmentPlanView {
        SegmentPlanView {
            segments: segments_view(self.segments@),
            vod_age_seconds: self.vod_age_seconds as int,
            apply_unmute: self.apply_unmute,
        }
    }
}

/// An error of the kind `kind` with the message `details`.
pub open spec fn fault(kind: ErrorKind, details: Seq<char>) -> ErrorView {
    ErrorView { kind, details }
}

// ---------------------------------------------------------------------------
// The age of the video

/// The seconds since the Unix epoch of the date and time that `text` writes
/// in the form `format`, as `chrono` reads them; none where `chrono` refuses
/// the text.
pub uninterp spec fn naive_datetime_seconds(text: Seq<char>, format: Seq<char>) -> Option<i64>;

/// Calls `chrono::NaiveDateTime::parse_from_str` on `text` and `format`, and
/// hands out the result as seconds since the Unix epoch
/// (`NaiveDateTime::and_utc`, `DateTime::timestamp`). The contract gives
/// that number a name and claims nothing else of it.
#[verifier::external_body]
fn parse_naive_datetime(text: &str, format: &str) -> (r: Option<i64>)
    ensures
        r == naive_datetime_seconds(text@, format@),
{
    match chrono::NaiveDateTime::parse_from_str(text, format) {
        Ok(t) => Some(t.and_utc().timestamp()),
        Err(_) => None,
    }
}

/// The text of the time of broadcast on the line `line` that begins with the
/// timestamp tag.
pub open spec fn timestamp_text(line: Seq<char>) -> Seq<char> {
    trim(line.skip(TIMESTAMP_TAG@.len() as int))
}

/// The age at the time `now` of a video broadcast at the time `timestamp`,
/// both in seconds since the Unix epoch.
pub open spec fn age_outcome(timestamp: Option<i64>, now: i64) -> Result<i64, ErrorView> {
    match timestamp {
        None => Err(fault(ErrorKind::ManifestParse, MALFORMED_TIMESTAMP@)),
        Some(t) => if i64::MIN <= now - t <= i64::MAX {
            Ok((now - t) as i64)
        } else {
            Err(fault(ErrorKind::ManifestParse, TIMESTAMP_OUT_OF_RANGE@))
        },
    }
}

/// The age at the time `now` of the video whose manifest has the lines
/// `lines`: the time since the broadcast that the first timestamp line
/// gives.
pub open spec fn vod_age_outcome(lines: Seq<Seq<char>>, now: i64) -> Result<i64, ErrorView> {
    match first_tagged(lines, TIMESTAMP_TAG@) {
        None => Err(fault(ErrorKind::ManifestParse, MISSING_TIMESTAMP@)),
        Some(i) => age_outcome(
            naive_datetime_seconds(timestamp_text(lines[i]), TIMESTAMP_FORMAT@),
            now,
        ),
    }
}

/// Whether a video of the age `age_seconds` still serves the unmuted form of
/// a muted segment: it does while it is less than 24 hours old.
pub open spec fn within_unmute_window(age_seconds: int) -> bool {
    age_seconds < UNMUTE_WINDOW_SECONDS
}

/// The age at the time `now` of a video whose time of broadcast was read as
/// `timestamp`, in seconds.
pub fn age_from_timestamp(timestamp: Option<i64>, now: i64) -> (r: Result<i64, TwitchClientError>)
    ensures
        match r {
            Ok(age) => age_outcome(timestamp, now) == Ok::<i64, ErrorView>(age),
            Err(e) => age_outcome(timestamp, now) == Err::<i64, ErrorView>(e@),
        },
{
    match timestamp {
        None => Err(TwitchClientError::of(ErrorKind::ManifestParse, MALFORMED_TIMESTAMP)),
        Some(t) => match now.checked_sub(t) {
            Some(age) => Ok(age),
            None => Err(TwitchClientError::of(ErrorKind::ManifestParse, TIMESTAMP_OUT_OF_RANGE)),
        },
    }
}

/// The age at the time `now` of the video whose manifest has the lines
/// `lines`, in seconds.
pub fn vod_age_at(lines: &Vec<Vec<char>>, now: i64) -> (r: Result<i64, TwitchClientError>)
    ensures
        match r {
            Ok(age) => vod_age_outcome(lines_view(lines@), now) == Ok::<i64, ErrorView>(age),
            Err(e) => vod_age_outcome(lines_view(lines@), now) == Err::<i64, ErrorView>(e@),
        },
{
    let tag = chars_of(TIMESTAMP_TAG);
    let i = match find_tagged(lines, &tag) {
        Some(i) => i,
        None => {
            return Err(TwitchClientError::of(ErrorKind::ManifestParse, MISSING_TIMESTAMP));
        },
    };
    let line = &lines[i];
    proof {
        lemma_first_tagged(lines_view(lines@), tag@);
        assert(lines_view(lines@)[i as int] == line@);
        assert(line@.subrange(tag.len() as int, line.len() as int) == line@.skip(tag.len() as int));
    }
    let rest = copy_range(line, tag.len(), line.len());
    let text = string_of(&trimmed(&rest));
    age_from_timestamp(parse_naive_datetime(text.as_str(), TIMESTAMP_FORMAT), now)
}

// ---------------------------------------------------------------------------
// The duration lines of a manifest

/// Whether `line` gives a segment's duration.
pub open spec fn is_duration_line(line: Seq<char>) -> bool {
    is_prefix(DURATION_TAG@, line)
}

/// The text of the duration on the duration line `line`: what follows the
/// tag, without the commas at its end.
pub open spec fn duration_text(line: Seq<char>) -> Seq<char> {
    strip_trailing(line.skip(DURATION_TAG@.len() as int), ',')
}

/// The index of the line that names the segment whose duration line is
/// `lines[i]`: the next line, or the one after it where the next line gives a
/// byte range.
pub open spec fn name_line(lines: Seq<Seq<char>>, i: int) -> int {
    if i + 1 < lines.len() && is_prefix(BYTE_RANGE_TAG@, lines[i + 1]) {
        i + 2
    } else {
        i + 1
    }
}

/// Whether the segment name `name` marks the segment as muted.
pub open spec fn is_muted_name(name: Seq<char>) -> bool {
    contains(name, MUTED_MARKER@)
}

/// The segment that the duration line `lines[i]` and the lines after it
/// describe, as the record at the place `position` among the duration lines.
pub open spec fn record_at(lines: Seq<Seq<char>>, i: int, position: nat) -> Result<
    SegmentView,
    ErrorView,
> {
    match duration_micros(duration_text(lines[i])) {
        None => Err(fault(ErrorKind::SegmentParse, UNPARSABLE_DURATION@)),
        Some(d) => if name_line(lines, i) < lines.len() {
            Ok(
                SegmentView {
                    filename: lines[name_line(lines, i)],
                    duration_micros: d as nat,
                    muted: is_muted_name(lines[name_line(lines, i)]),
                    sequence_index: position,
                },
            )
        } else {
            Err(fault(ErrorKind::SegmentParse, MISSING_SEGMENT_NAME@))
        },
    }
}

/// The records of the duration lines among `lines[i..]`, in order, numbered
/// from `position`; the error of the first that cannot be read.
pub open spec fn records_from(lines: Seq<Seq<char>>, i: int, position: nat) -> Result<
    Seq<SegmentView>,
    ErrorView,
>
    decreases lines.len() - i,
{
    if i < 0 || i >= lines.len() {
        Ok(Seq::<SegmentView>::empty())
    } else if !is_duration_line(lines[i]) {
        records_from(lines, i + 1, position)
    } else {
        match record_at(lines, i, position) {
            Err(e) => Err(e),
            Ok(r) => match records_from(lines, i + 1, position + 1) {
                Err(e) => Err(e),
                Ok(rs) => Ok(seq![r] + rs),
            },
        }
    }
}

/// The records of all the duration lines of a manifest, numbered from 0.
pub open spec fn records_of(lines: Seq<Seq<char>>) -> Result<Seq<SegmentView>, ErrorView> {
    records_from(lines, 0, 0)
}

// ---------------------------------------------------------------------------
// Merging the records of one file

/// The index of the first of `plan` with the name `name`, if there is one.
pub open spec fn position_of(plan: Seq<SegmentView>, name: Seq<char>) -> Option<int>
    decreases plan.len(),
{
    if plan.len() == 0 {
        None
    } else {
        match position_of(plan.drop_last(), name) {
            Some(k) => Some(k),
            None => if plan.last().filename == name {
                Some(plan.len() - 1)
            } else {
                None
            },
        }
    }
}

/// `plan` with the record `r` taken in: added to the entry of the same name
/// where there is one, else put at the end as a new entry.
pub open spec fn absorb(plan: Seq<SegmentView>, r: SegmentView) -> Seq<SegmentView> {
    match position_of(plan, r.filename) {
        Some(k) => plan.update(
            k,
            SegmentView { duration_micros: plan[k].duration_micros + r.duration_micros, ..plan[k] },
        ),
        None => plan.push(r),
    }
}

/// The plan for `records`: one entry for each name, in the order of first
/// appearance, with the durations of all the records of that name added up.
pub open spec fn merge(records: Seq<SegmentView>) -> Seq<SegmentView>
    decreases records.len(),
{
    if records.len() == 0 {
        Seq::<SegmentView>::empty()
    } else {
        absorb(merge(records.drop_last()), records.last())
    }
}

/// Whether every duration in `plan` fits in 64 bits.
pub open spec fn durations_fit(plan: Seq<SegmentView>) -> bool {
    forall|k: int| 0 <= k < plan.len() ==> (#[trigger] plan[k]).duration_micros <= u64::MAX
}

/// The segments of the plan for a manifest with the lines `lines`: the
/// records of its duration lines, merged by name.
pub open spec fn segments_outcome(lines: Seq<Seq<char>>) -> Result<Seq<SegmentView>, ErrorView> {
    match records_of(lines) {
        Err(e) => Err(e),
        Ok(records) => if durations_fit(merge(records)) {
            Ok(merge(records))
        } else {
            Err(fault(ErrorKind::SegmentParse, DURATION_OUT_OF_RANGE@))
        },
    }
}

/// The plan for a manifest with the lines `lines` of a video that is
/// `age` seconds old.
pub open spec fn aged_plan_outcome(lines: Seq<Seq<char>>, age: i64) -> Result<
    SegmentPlanView,
    ErrorView,
> {
    match segments_outcome(lines) {
        Err(e) => Err(e),
        Ok(segments) => Ok(
            SegmentPlanView {
                segments: segments,
                vod_age_seconds: age as int,
                apply_unmute: within_unmute_window(age as int),
            },
        ),
    }
}

/// The plan made at the time `now` from a manifest with the lines `lines`.
pub open spec fn plan_outcome(lines: Seq<Seq<char>>, now: i64) -> Result<
    SegmentPlanView,
    ErrorView,
> {
    match vod_age_outcome(lines, now) {
        Err(e) => Err(e),
        Ok(age) => aged_plan_outcome(lines, age),
    }
}

// ---------------------------------------------------------------------------
// Reading and merging

/// Reads the record that the duration line `lines[i]` and the lines after it
/// describe.
fn read_record(
    lines: &Vec<Vec<char>>,
    i: usize,
    position: usize,
    duration_tag: &Vec<char>,
    byte_range_tag: &Vec<char>,
    muted_marker: &Vec<char>,
) -> (r: Result<Segment, TwitchClientError>)
    requires
        i < lines.len(),
        is_duration_line(lines@[i as int]@),
        duration_tag@ == DURATION_TAG@,
        byte_range_tag@ == BYTE_RANGE_TAG@,
        muted_marker@ == MUTED_MARKER@,
    ensures
        match r {
            Ok(s) => record_at(lines_view(lines@), i as int, position as nat) == Ok::<
                SegmentView,
                ErrorView,
            >(s@),
            Err(e) => record_at(lines_view(lines@), i as int, position as nat) == Err::<
                SegmentView,
                ErrorView,
            >(e@),
        },
{
    let ghost all = lines_view(lines@);
    let line = &lines[i];
    assert(all[i as int] == line@);
    let end = end_without_trailing(line, duration_tag.len(), ',');
    let text = copy_range(line, duration_tag.len(), end);
    let duration = match parse_duration(&text) {
        Some(d) => d,
        None => {
            return Err(TwitchClientError::of(ErrorKind::SegmentParse, UNPARSABLE_DURATION));
        },
    };
    let mut j: usize = i + 1;
    if j < lines.len() {
        assert(all[j as int] == lines@[j as int]@);
        if starts_with(&lines[j], byte_range_tag) {
            j = j + 1;
        }
    }
    assert(j == name_line(all, i as int));
    if j >= lines.len() {
        return Err(TwitchClientError::of(ErrorKind::SegmentParse, MISSING_SEGMENT_NAME));
    }
    let name = &lines[j];
    assert(all[j as int] == name@);
    Ok(
        Segment {
            filename: string_of(name),
            duration_micros: duration,
            muted: contains_text(name, muted_marker),
            sequence_index: position,
        },
    )
}

/// Reads the records of all the duration lines of a manifest.
fn read_records(lines: &Vec<Vec<char>>) -> (r: Result<Vec<Segment>, TwitchClientError>)
    ensures
        match r {
            Ok(v) => records_of(lines_view(lines@)) == Ok::<Seq<SegmentView>, ErrorView>(
                segments_view(v@),
            ),
            Err(e) => records_of(lines_view(lines@)) == Err::<Seq<SegmentView>, ErrorView>(e@),
        },
{
    let duration_tag = chars_of(DURATION_TAG);
    let byte_range_tag = chars_of(BYTE_RANGE_TAG);
    let muted_marker = chars_of(MUTED_MARKER);
    let ghost all = lines_view(lines@);
    let mut records: Vec<Segment> = Vec::new();
    let mut i: usize = 0;
    proof {
        match records_from(all, 0, 0) {
            Ok(rs) => {
                assert(segments_view(records@) + rs == rs);
            },
            Err(_) => {},
        }
    }
    while i < lines.len()
        invariant
            i <= lines.len(),
            all == lines_view(lines@),
            duration_tag@ == DURATION_TAG@,
            byte_range_tag@ == BYTE_RANGE_TAG@,
            muted_marker@ == MUTED_MARKER@,
            records_of(all) == match records_from(all, i as int, records.len() as nat) {
                Ok(rs) => Ok::<Seq<SegmentView>, ErrorView>(segments_view(records@) + rs),
                Err(e) => Err::<Seq<SegmentView>, ErrorView>(e),
            },
        decreases lines.len() - i,
    {
        assert(all[i as int] == lines@[i as int]@);
        if starts_with(&lines[i], &duration_tag) {
            let ghost before = segments_view(records@);
            let position = records.len();
            match read_record(lines, i, position, &duration_tag, &byte_range_tag, &muted_marker) {
                Err(e) => {
                    return Err(e);
                },
                Ok(segment) => {
                    records.push(segment);
                    proof {
                        assert(segments_view(records@) == before.push(segment@));
                        match records_from(all, i + 1, (position + 1) as nat) {
                            Ok(rs) => {
                                assert(before + (seq![segment@] + rs) == before.push(segment@)
                                    + rs);
                            },
                            Err(_) => {},
                        }
                    }
                },
            }
        }
        i += 1;
    }
    proof {
        assert(segments_view(records@) + Seq::<SegmentView>::empty() == segments_view(records@));
    }
    Ok(records)
}

/// What `position_of` finds is the first entry of that name.
pub proof fn lemma_position_of(plan: Seq<SegmentView>, name: Seq<char>)
    ensures
        match position_of(plan, name) {
            Some(k) => 0 <= k < plan.len() && plan[k].filename == name && forall|j: int|
                0 <= j < k ==> (#[trigger] plan[j]).filename != name,
            None => forall|j: int| 0 <= j < plan.len() ==> (#[trigger] plan[j]).filename != name,
        },
    decreases plan.len(),
{
    if plan.len() > 0 {
        let head = plan.drop_last();
        lemma_position_of(head, name);
        assert(forall|j: int| 0 <= j < head.len() ==> head[j] == plan[j]);
    }
}

/// An entry found among the first `n` of a plan is the entry found in the
/// whole plan.
proof fn lemma_position_of_extends(plan: Seq<SegmentView>, n: int, name: Seq<char>)
    requires
        0 <= n <= plan.len(),
        position_of(plan.take(n), name) is Some,
    ensures
        position_of(plan, name) == position_of(plan.take(n), name),
    decreases plan.len(),
{
    if n < plan.len() {
        assert(plan.drop_last().take(n) == plan.take(n));
        lemma_position_of_extends(plan.drop_last(), n, name);
    } else {
        assert(plan.take(n) == plan);
    }
}

/// The index of the first of `plan` with the name `name`.
fn find_segment(plan: &Vec<Segment>, name: &String) -> (r: Option<usize>)
    ensures
        match r {
            Some(k) => position_of(segments_view(plan@), name@) == Some(k as int) && k
                < plan.len(),
            None => position_of(segments_view(plan@), name@) == None::<int>,
        },
{
    let ghost all = segments_view(plan@);
    let mut i: usize = 0;
    while i < plan.len()
        invariant
            i <= plan.len(),
            all == segments_view(plan@),
            position_of(all.take(i as int), name@) == None::<int>,
        decreases plan.len() - i,
    {
        proof {
            assert(all.take(i + 1).drop_last() == all.take(i as int));
            assert(all.take(i + 1).last() == plan@[i as int]@);
        }
        if plan[i].filename == *name {
            proof {
                lemma_position_of_extends(all, i + 1, name@);
            }
            return Some(i);
        }
        i += 1;
    }
    assert(all.take(plan.len() as int) == all);
    None
}

/// Taking in more records moves no entry of a plan and makes none shorter.
pub proof fn lemma_merge_grows(records: Seq<SegmentView>, n: int)
    requires
        0 <= n <= records.len(),
    ensures
        merge(records.take(n)).len() <= merge(records).len(),
        forall|k: int|
            0 <= k < merge(records.take(n)).len() ==> {
                let early = #[trigger] merge(records.take(n))[k];
                let late = merge(records)[k];
                &&& late.filename == early.filename
                &&& late.muted == early.muted
                &&& late.sequence_index == early.sequence_index
                &&& late.duration_micros >= early.duration_micros
            },
    decreases records.len(),
{
    if n == records.len() {
        assert(records.take(n) == records);
    } else {
        let head = records.drop_last();
        lemma_merge_grows(head, n);
        assert(head.take(n) == records.take(n));
        lemma_position_of(merge(head), records.last().filename);
    }
}

/// Merges the records of one file into one entry each.
fn merge_records(records: &Vec<Segment>) -> (r: Result<Vec<Segment>, TwitchClientError>)
    ensures
        match r {
            Ok(plan) => durations_fit(merge(segments_view(records@))) && segments_view(plan@)
                == merge(segments_view(records@)),
            Err(e) => !durations_fit(merge(segments_view(records@))) && e@ == fault(
                ErrorKind::SegmentParse,
                DURATION_OUT_OF_RANGE@,
            ),
        },
{
    let ghost all = segments_view(records@);
    let mut plan: Vec<Segment> = Vec::new();
    let mut i: usize = 0;
    assert(all.take(0) == Seq::<SegmentView>::empty());
    while i < records.len()
        invariant
            i <= records.len(),
            all == segments_view(records@),
            segments_view(plan@) == merge(all.take(i as int)),
        decreases records.len() - i,
    {
        let record = &records[i];
        let ghost before = segments_view(plan@);
        proof {
            assert(all.take(i + 1).drop_last() == all.take(i as int));
            assert(all.take(i + 1).last() == record@);
            lemma_position_of(before, record@.filename);
        }
        match find_segment(&plan, &record.filename) {
            Some(k) => {
                let entry = &plan[k];
                assert(before[k as int] == entry@);
                match entry.duration_micros.checked_add(record.duration_micros) {
                    Some(total) => {
                        let merged = Segment {
                            filename: entry.filename.clone(),
                            duration_micros: total,
                            muted: entry.muted,
                            sequence_index: entry.sequence_index,
                        };
                        plan.set(k, merged);
                        assert(segments_view(plan@) == before.update(k as int, merged@));
                    },
                    None => {
                        proof {
                            lemma_merge_grows(all, i + 1);
                            let early = merge(all.take(i + 1));
                            assert(early[k as int].duration_micros > u64::MAX);
                            assert(merge(all)[k as int].duration_micros > u64::MAX);
                        }
                        return Err(
                            TwitchClientError::of(ErrorKind::SegmentParse, DURATION_OUT_OF_RANGE),
                        );
                    },
                }
            },
            None => {
                let fresh = Segment {
                    filename: record.filename.clone(),
                    duration_micros: record.duration_micros,
                    muted: record.muted,
                    sequence_index: record.sequence_index,
                };
                plan.push(fresh);
                assert(segments_view(plan@) == before.push(record@));
            },
        }
        i += 1;
    }
    proof {
        assert(all.take(records.len() as int) == all);
        assert forall|k: int| 0 <= k < merge(all).len() implies (#[trigger] merge(
            all,
        )[k]).duration_micros <= u64::MAX by {
            assert(merge(all)[k] == plan@[k]@);
        }
    }
    Ok(plan)
}

/// Reads the segments of a manifest that is already split into lines: one
/// for each name that a duration line is followed by, in the order of first
/// appearance, with the durations of all the lines of that name added up.
pub fn plan_segments(lines: &Vec<Vec<char>>) -> (r: Result<Vec<Segment>, TwitchClientError>)
    ensures
        match r {
            Ok(segments) => segments_outcome(lines_view(lines@)) == Ok::<
                Seq<SegmentView>,
                ErrorView,
            >(segments_view(segments@)),
            Err(e) => segments_outcome(lines_view(lines@)) == Err::<Seq<SegmentView>, ErrorView>(
                e@,
            ),
        },
{
    match read_records(lines) {
        Ok(records) => merge_records(&records),
        Err(e) => Err(e),
    }
}

/// Makes the plan for a manifest that is already split into lines, of a
/// video that is `age` seconds old.
pub fn plan_with_age(lines: &Vec<Vec<char>>, age: i64) -> (r: Result<
    SegmentPlan,
    TwitchClientError,
>)
    ensures
        match r {
            Ok(p) => aged_plan_outcome(lines_view(lines@), age) == Ok::<
                SegmentPlanView,
                ErrorView,
            >(p@),
            Err(e) => aged_plan_outcome(lines_view(lines@), age) == Err::<
                SegmentPlanView,
                ErrorView,
            >(e@),
        },
        r matches Ok(p) ==> p.vod_age_seconds == age && p.apply_unmute == (age < 86_400)
            && is_plan(p@.segments),
{
    proof {
        if segments_outcome(lines_view(lines@)) is Ok {
            lemma_segments_are_plan(lines_view(lines@));
        }
    }
    match plan_segments(lines) {
        Ok(segments) => Ok(
            SegmentPlan { segments, vod_age_seconds: age, apply_unmute: age < UNMUTE_WINDOW_SECONDS },
        ),
        Err(e) => Err(e),
    }
}

/// Makes the plan for a manifest that is already split into lines, at the
/// time `now` in seconds since the Unix epoch.
pub fn plan_lines(lines: &Vec<Vec<char>>, now: i64) -> (r: Result<SegmentPlan, TwitchClientError>)
    ensures
        match r {
            Ok(p) => plan_outcome(lines_view(lines@), now) == Ok::<SegmentPlanView, ErrorView>(
                p@,
            ),
            Err(e) => plan_outcome(lines_view(lines@), now) == Err::<SegmentPlanView, ErrorView>(
                e@,
            ),
        },
        r matches Ok(p) ==> p.apply_unmute == (p.vod_age_seconds < 86_400) && is_plan(
            p@.segments,
        ),
{
    match vod_age_at(lines, now) {
        Ok(age) => plan_with_age(lines, age),
        Err(e) => Err(e),
    }
}

/// The planner of segments.
pub struct SegmentPlanner;

impl SegmentPlanner {
    /// Makes the plan for the media manifest `manifest` at the time `now`,
    /// given in seconds since the Unix epoch.
    ///
    /// The age of the video is the time from the manifest's first timestamp
    /// line to `now`; unmuted forms are asked for while the video is less
    /// than 24 hours old. Every line that begins with the duration tag gives
    /// one record; the records of one file make one entry, which keeps the
    /// place of the first and the sum of their durations.
    pub fn plan(manifest: &str, now: i64) -> (r: Result<SegmentPlan, TwitchClientError>)
        ensures
            match r {
                Ok(p) => plan_outcome(split_lines(manifest@), now) == Ok::<
                    SegmentPlanView,
                    ErrorView,
                >(p@),
                Err(e) => plan_outcome(split_lines(manifest@), now) == Err::<
                    SegmentPlanView,
                    ErrorView,
                >(e@),
            },
            r matches Ok(p) ==> p.apply_unmute == (p.vod_age_seconds < 86_400) && is_plan(
                p@.segments,
            ),
    {
        let text = chars_of(manifest);
        let lines = lines_of(&text);
        plan_lines(&lines, now)
    }
}

// ---------------------------------------------------------------------------
// What a plan holds

/// The sum of the durations of the records in `records` with the name `name`.
pub open spec fn total_duration(records: Seq<SegmentView>, name: Seq<char>) -> nat
    decreases records.len(),
{
    if records.len() == 0 {
        0
    } else if records.last().filename == name {
        total_duration(records.drop_last(), name) + records.last().duration_micros
    } else {
        total_duration(records.drop_last(), name)
    }
}

/// The number of records in `records` whose name an earlier record has.
pub open spec fn repeats(records: Seq<SegmentView>) -> nat
    decreases records.len(),
{
    if records.len() == 0 {
        0
    } else if position_of(records.drop_last(), records.last().filename) is Some {
        repeats(records.drop_last()) + 1
    } else {
        repeats(records.drop_last())
    }
}

/// The index of the first of `records` with the name `name`; -1 where there
/// is none.
pub open spec fn first_place(records: Seq<SegmentView>, name: Seq<char>) -> int {
    match position_of(records, name) {
        Some(f) => f,
        None => -1,
    }
}

/// Whether the entry `entry` stands for all the records in `records` that
/// have its name: it keeps the place and the mark of the first of them and
/// the sum of their durations.
pub open spec fn stands_for(entry: SegmentView, records: Seq<SegmentView>) -> bool {
    let f = first_place(records, entry.filename);
    &&& 0 <= f < records.len()
    &&& entry.sequence_index == records[f].sequence_index
    &&& entry.muted == records[f].muted
    &&& entry.duration_micros == total_duration(records, entry.filename)
}

/// Whether `plan` is the merged form of `records`: one entry for each name
/// that occurs, in the order of first appearance, each standing for all the
/// records of its name.
pub open spec fn is_merged(plan: Seq<SegmentView>, records: Seq<SegmentView>) -> bool {
    &&& plan.len() + repeats(records) == records.len()
    &&& forall|k: int| 0 <= k < plan.len() ==> stands_for(#[trigger] plan[k], records)
    &&& forall|j: int, k: int|
        0 <= j < k < plan.len() ==> first_place(records, (#[trigger] plan[j]).filename)
            < first_place(records, (#[trigger] plan[k]).filename)
    &&& forall|i: int|
        0 <= i < records.len() ==> position_of(plan, (#[trigger] records[i]).filename) is Some
}

/// Plans with the same names in the same places find a name at the same
/// place.
proof fn lemma_position_of_names(a: Seq<SegmentView>, b: Seq<SegmentView>, name: Seq<char>)
    requires
        a.len() == b.len(),
        forall|k: int| 0 <= k < a.len() ==> a[k].filename == b[k].filename,
    ensures
        position_of(a, name) == position_of(b, name),
    decreases a.len(),
{
    if a.len() > 0 {
        lemma_position_of_names(a.drop_last(), b.drop_last(), name);
    }
}

/// Records none of which has the name `name` add up to nothing for it.
proof fn lemma_total_duration_absent(records: Seq<SegmentView>, name: Seq<char>)
    requires
        forall|i: int| 0 <= i < records.len() ==> (#[trigger] records[i]).filename != name,
    ensures
        total_duration(records, name) == 0,
    decreases records.len(),
{
    if records.len() > 0 {
        let head = records.drop_last();
        assert(forall|i: int| 0 <= i < head.len() ==> head[i] == records[i]);
        lemma_total_duration_absent(head, name);
    }
}

/// The plan that `merge` makes is the merged form of the records.
pub proof fn lemma_merge_is_merged(records: Seq<SegmentView>)
    ensures
        is_merged(merge(records), records),
    decreases records.len(),
{
    if records.len() > 0 {
        let head = records.drop_last();
        let last = records.last();
        let name = last.filename;
        let plan = merge(head);
        let next = merge(records);
        lemma_merge_is_merged(head);
        lemma_position_of(plan, name);
        lemma_position_of(head, name);
        assert(forall|i: int| 0 <= i < head.len() ==> head[i] == records[i]);
        // A name that the earlier records hold keeps its first place.
        assert forall|k: int| 0 <= k < plan.len() implies first_place(
            records,
            (#[trigger] plan[k]).filename,
        ) == first_place(head, plan[k].filename) && 0 <= first_place(head, plan[k].filename)
            < head.len() by {
            assert(stands_for(plan[k], head));
        }
        match position_of(plan, name) {
            Some(at) => {
                // The name is known: some earlier record has it.
                assert(stands_for(plan[at], head));
                assert(position_of(head, name) is Some);
                assert(next.len() == plan.len());
                assert forall|k: int| 0 <= k < next.len() implies stands_for(
                    #[trigger] next[k],
                    records,
                ) by {
                    assert(stands_for(plan[k], head));
                    if k != at {
                        if k < at {
                            assert(plan[k].filename != name);
                        } else {
                            assert(first_place(head, plan[at].filename) < first_place(
                                head,
                                plan[k].filename,
                            ));
                        }
                    }
                }
                assert forall|j: int, k: int| 0 <= j < k < next.len() implies first_place(
                    records,
                    (#[trigger] next[j]).filename,
                ) < first_place(records, (#[trigger] next[k]).filename) by {
                    assert(next[j].filename == plan[j].filename);
                    assert(next[k].filename == plan[k].filename);
                }
                assert forall|i: int| 0 <= i < records.len() implies position_of(
                    next,
                    (#[trigger] records[i]).filename,
                ) is Some by {
                    lemma_position_of_names(plan, next, records[i].filename);
                    if i < head.len() {
                        assert(position_of(plan, head[i].filename) is Some);
                    }
                }
            },
            None => {
                // The name is new: no earlier record has it.
                assert forall|i: int| 0 <= i < head.len() implies (#[trigger] head[i]).filename
                    != name by {
                    assert(position_of(plan, head[i].filename) is Some);
                }
                assert(position_of(head, name) is None);
                lemma_total_duration_absent(head, name);
                assert(next == plan.push(last));
                assert(next.drop_last() == plan);
                assert(first_place(records, name) == records.len() - 1);
                assert forall|k: int| 0 <= k < next.len() implies stands_for(
                    #[trigger] next[k],
                    records,
                ) by {
                    if k < plan.len() {
                        assert(stands_for(plan[k], head));
                        assert(plan[k].filename != name);
                    }
                }
                assert forall|j: int, k: int| 0 <= j < k < next.len() implies first_place(
                    records,
                    (#[trigger] next[j]).filename,
                ) < first_place(records, (#[trigger] next[k]).filename) by {
                    assert(next[j] == plan[j]);
                    if k < plan.len() {
                        assert(next[k] == plan[k]);
                    }
                }
                assert forall|i: int| 0 <= i < records.len() implies position_of(
                    next,
                    (#[trigger] records[i]).filename,
                ) is Some by {
                    if i < head.len() {
                        assert(position_of(plan, head[i].filename) is Some);
                    }
                }
            },
        }
    }
}

/// The number of duration lines among `lines[i..]`.
pub open spec fn duration_lines(lines: Seq<Seq<char>>, i: int) -> nat
    decreases lines.len() - i,
{
    if i < 0 || i >= lines.len() {
        0
    } else if is_duration_line(lines[i]) {
        1 + duration_lines(lines, i + 1)
    } else {
        duration_lines(lines, i + 1)
    }
}

/// Where every duration line can be read there is one record for each, and
/// each record holds its place among them and the mark of its name.
pub proof fn lemma_records_numbered(lines: Seq<Seq<char>>, i: int, position: nat)
    requires
        records_from(lines, i, position) is Ok,
    ensures
        records_from(lines, i, position)->Ok_0.len() == duration_lines(lines, i),
        forall|k: int|
            0 <= k < records_from(lines, i, position)->Ok_0.len() ==> {
                let r = #[trigger] records_from(lines, i, position)->Ok_0[k];
                r.sequence_index == position + k && r.muted == is_muted_name(r.filename)
            },
    decreases lines.len() - i,
{
    if 0 <= i < lines.len() {
        if !is_duration_line(lines[i]) {
            lemma_records_numbered(lines, i + 1, position);
        } else {
            lemma_records_numbered(lines, i + 1, position + 1);
            let first = record_at(lines, i, position)->Ok_0;
            let rest = records_from(lines, i + 1, position + 1)->Ok_0;
            let all = records_from(lines, i, position)->Ok_0;
            assert(all == seq![first] + rest);
            assert forall|k: int| 0 <= k < all.len() implies {
                let r = #[trigger] all[k];
                r.sequence_index == position + k && r.muted == is_muted_name(r.filename)
            } by {
                if k > 0 {
                    assert(all[k] == rest[k - 1]);
                }
            }
        }
    }
}

/// Whether the segments `plan` are in the form of a plan: no name occurs
/// twice, the places of first appearance go up, and a segment is marked as
/// muted exactly where its name holds the marker.
pub open spec fn is_plan(plan: Seq<SegmentView>) -> bool {
    &&& forall|j: int, k: int|
        0 <= j < k < plan.len() ==> (#[trigger] plan[j]).sequence_index < (
        #[trigger] plan[k]).sequence_index
    &&& forall|j: int, k: int|
        0 <= j < k < plan.len() ==> (#[trigger] plan[j]).filename != (#[trigger] plan[k]).filename
    &&& forall|k: int|
        0 <= k < plan.len() ==> (#[trigger] plan[k]).muted == is_muted_name(plan[k].filename)
}

/// A manifest with N duration lines, of which M repeat the name of an
/// earlier one, gives N - M segments. Each holds the place among the
/// duration lines at which its name first appears and the sum of the
/// durations of all the lines with its name, and the segments stand in the
/// order of those places.
pub proof fn lemma_segments_are_plan(lines: Seq<Seq<char>>)
    requires
        segments_outcome(lines) is Ok,
    ensures
        records_of(lines) is Ok,
        records_of(lines)->Ok_0.len() == duration_lines(lines, 0),
        segments_outcome(lines)->Ok_0.len() == duration_lines(lines, 0) - repeats(
            records_of(lines)->Ok_0,
        ),
        forall|k: int|
            0 <= k < segments_outcome(lines)->Ok_0.len() ==> {
                let entry = #[trigger] segments_outcome(lines)->Ok_0[k];
                &&& entry.sequence_index == first_place(records_of(lines)->Ok_0, entry.filename)
                &&& entry.duration_micros == total_duration(
                    records_of(lines)->Ok_0,
                    entry.filename,
                )
            },
        is_plan(segments_outcome(lines)->Ok_0),
{
    let records = records_of(lines)->Ok_0;
    let plan = merge(records);
    assert(segments_outcome(lines)->Ok_0 == plan);
    lemma_records_numbered(lines, 0, 0);
    lemma_merge_is_merged(records);
    assert forall|k: int| 0 <= k < plan.len() implies {
        let entry = #[trigger] plan[k];
        &&& entry.sequence_index == first_place(records, entry.filename)
        &&& entry.duration_micros == total_duration(records, entry.filename)
        &&& entry.muted == is_muted_name(entry.filename)
    } by {
        assert(stands_for(plan[k], records));
        let f = first_place(records, plan[k].filename);
        lemma_position_of(records, plan[k].filename);
        assert(records[f].sequence_index == f);
    }
    assert forall|j: int, k: int| 0 <= j < k < plan.len() implies (#[trigger] plan[j]).filename
        != (#[trigger] plan[k]).filename by {
        assert(first_place(records, plan[j].filename) < first_place(records, plan[k].filename));
    }
}

/// What holds of the segments of a manifest holds of the plan made from it
/// at any time: N duration lines of which M repeat an earlier name give
/// N - M entries, each with the place of its first line and the sum of the
/// durations of its lines; and the unmuted forms are asked for exactly while
/// the video is less than 24 hours old.
pub proof fn lemma_plan_entries(lines: Seq<Seq<char>>, now: i64)
    requires
        plan_outcome(lines, now) is Ok,
    ensures
        segments_outcome(lines) == Ok::<Seq<SegmentView>, ErrorView>(
            plan_outcome(lines, now)->Ok_0.segments,
        ),
        vod_age_outcome(lines, now) == Ok::<i64, ErrorView>(
            plan_outcome(lines, now)->Ok_0.vod_age_seconds as i64,
        ),
        plan_outcome(lines, now)->Ok_0.apply_unmute <==> plan_outcome(
            lines,
            now,
        )->Ok_0.vod_age_seconds < 24 * 3600,
        plan_outcome(lines, now)->Ok_0.segments.len() == duration_lines(lines, 0) - repeats(
            records_of(lines)->Ok_0,
        ),
        is_plan(plan_outcome(lines, now)->Ok_0.segments),
{
    lemma_segments_are_plan(lines);
}

} // verus!
