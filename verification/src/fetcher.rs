//! The segment fetcher: what to ask for each segment of a plan, and under
//! which name to keep what comes back.
//!
//! Where a video is young enough and a segment is muted, the fetcher asks
//! for the segment under its name without the marker. What comes back is
//! kept under the name that was asked for.

use crate::planner::{Segment, SegmentPlan, SegmentPlanView, SegmentView, MUTED_MARKER};
use crate::text::{chars_of, last_index_of, remove_all, remove_all_of, rfind_char, string_of,
    string_of_range};
use vstd::prelude::*;
use vstd::string::StringExecFns;

verus! {

/// What stands between the address of a directory and a name in it.
pub const SEPARATOR: &'static str = "/";

/// The name under which to ask for `segment`: its name without the muted
/// marker where the unmuted form is to be had and the segment is muted, else
/// its name as it is.
pub open spec fn fetch_name(segment: SegmentView, apply_unmute: bool) -> Seq<char> {
    if apply_unmute && segment.muted {
        remove_all(segment.filename, MUTED_MARKER@)
    } else {
        segment.filename
    }
}

/// The names under which to ask for the segments of `plan`, in plan order.
pub open spec fn fetch_names(plan: SegmentPlanView) -> Seq<Seq<char>> {
    Seq::new(plan.segments.len(), |k: int| fetch_name(plan.segments[k], plan.apply_unmute))
}

/// The address of the directory that holds the manifest at `playlist_url`:
/// what stands before the last `/`.
pub open spec fn base_url_of(playlist_url: Seq<char>) -> Option<Seq<char>> {
    match last_index_of(playlist_url, '/') {
        Some(i) => Some(playlist_url.subrange(0, i)),
        None => None,
    }
}

/// The address of the file `name` in the directory at `base_url`.
pub open spec fn segment_url(base_url: Seq<char>, name: Seq<char>) -> Seq<char> {
    base_url + SEPARATOR@ + name
}

/// What to ask for one segment, and where to keep it.
#[derive(Debug, Clone, PartialEq, Eq)]
pub struct FetchRequest {
    /// The address to get.
    pub url: String,
    /// The name of the file in temporary storage that receives the bytes.
    pub temp_name: String,
}

/// A request as contracts speak of it.
pub struct FetchRequestView {
    pub url: Seq<char>,
    pub temp_name: Seq<char>,
}

impl View for FetchRequest {
    type V = FetchRequestView;

    open spec fn view(&self) -> FetchRequestView {
        FetchRequestView { url: self.url@, temp_name: self.temp_name@ }
    }
}

/// The request for `segment` against the directory at `base_url`.
pub open spec fn request_for(segment: SegmentView, apply_unmute: bool, base_url: Seq<char>) -> FetchRequestView {
    FetchRequestView {
        url: segment_url(base_url, fetch_name(segment, apply_unmute)),
        temp_name: fetch_name(segment, apply_unmute),
    }
}

/// The fetcher of segments.
pub struct SegmentFetcher;

impl SegmentFetcher {
    /// The address of the directory that holds the manifest at
    /// `playlist_url`; none where the address holds no `/`.
    pub fn base_url(playlist_url: &str) -> (r: Option<String>)
        ensures
            match r {
                Some(base) => base_url_of(playlist_url@) == Some(base@),
                None => base_url_of(playlist_url@) == None::<Seq<char>>,
            },
    {
        let url = chars_of(playlist_url);
        match rfind_char(&url, '/') {
            Some(i) => {
                proof {
                    crate::text::lemma_last_index_of(url@, '/');
                }
                Some(string_of_range(&url, 0, i))
            },
            None => None,
        }
    }

    /// The name under which to ask for `segment`.
    pub fn fetch_name(segment: &Segment, apply_unmute: bool) -> (name: String)
        ensures
            name@ == fetch_name(segment@, apply_unmute),
    {
        if apply_unmute && segment.muted {
            let name = chars_of(segment.filename.as_str());
            let marker = chars_of(MUTED_MARKER);
            string_of(&remove_all_of(&name, &marker))
        } else {
            segment.filename.clone()
        }
    }

    /// The request for `segment` against the directory at `base_url`.
    pub fn request(segment: &Segment, apply_unmute: bool, base_url: &str) -> (r: FetchRequest)
        ensures
            r@ == request_for(segment@, apply_unmute, base_url@),
    {
        let name = SegmentFetcher::fetch_name(segment, apply_unmute);
        let url = String::from_str(base_url).concat(SEPARATOR).concat(name.as_str());
        FetchRequest { url, temp_name: name }
    }

    /// The requests for the segments of `plan` against the directory at
    /// `base_url`, in plan order.
    pub fn requests(plan: &SegmentPlan, base_url: &str) -> (r: Vec<FetchRequest>)
        ensures
            r@.len() == plan@.segments.len(),
            forall|k: int|
                0 <= k < r@.len() ==> (#[trigger] r@[k])@ == request_for(
                    plan@.segments[k],
                    plan@.apply_unmute,
                    base_url@,
                ),
    {
        let mut r: Vec<FetchRequest> = Vec::new();
        let mut i: usize = 0;
        while i < plan.segments.len()
            invariant
                i <= plan.segments.len(),
                r@.len() == i,
                forall|k: int|
                    0 <= k < i ==> (#[trigger] r@[k])@ == request_for(
                        plan@.segments[k],
                        plan@.apply_unmute,
                        base_url@,
                    ),
            decreases plan.segments.len() - i,
        {
            assert(plan@.segments[i as int] == plan.segments@[i as int]@);
            r.push(SegmentFetcher::request(&plan.segments[i], plan.apply_unmute, base_url));
            i += 1;
        }
        r
    }

    /// The names under which the segments of `plan` are kept in temporary
    /// storage, in plan order.
    pub fn temp_names(plan: &SegmentPlan) -> (r: Vec<String>)
        ensures
            r@.len() == plan@.segments.len(),
            forall|k: int| 0 <= k < r@.len() ==> (#[trigger] r@[k])@ == fetch_names(plan@)[k],
    {
        let mut r: Vec<String> = Vec::new();
        let mut i: usize = 0;
        while i < plan.segments.len()
            invariant
                i <= plan.segments.len(),
                r@.len() == i,
                forall|k: int| 0 <= k < i ==> (#[trigger] r@[k])@ == fetch_names(plan@)[k],
            decreases plan.segments.len() - i,
        {
            assert(plan@.segments[i as int] == plan.segments@[i as int]@);
            r.push(SegmentFetcher::fetch_name(&plan.segments[i], plan.apply_unmute));
            i += 1;
        }
        r
    }
}

} // verus!
