//! One download, as a machine that is told what has happened and says what
//! to do next.
//!
//! The caller carries out each action (a request, a write, a call of the
//! progress sink) and reports how it went. The machine decides the order:
//! the manifest first, then the segments one by one in plan order with a
//! progress report after each, then the assembly. A segment that could not
//! be fetched is asked for again, after a growing wait, as often as the
//! download allows; every other failure ends the download at once.
//!
//! The machine asks for one thing at a time, so a caller that wants to stop
//! does so between two actions by asking for no more.

use crate::download_options::DownloadOptions;
use crate::fetcher::{
    base_url_of, fetch_name, fetch_names, request_for, FetchRequest, FetchRequestView,
    SegmentFetcher,
};
use crate::keyed::TextMap;
use crate::planner::{plan_outcome, SegmentPlan, SegmentPlanView, SegmentPlanner, SegmentView};
use crate::text::split_lines;
use crate::utils::{ErrorKind, ErrorView, TwitchClientError};
use vstd::prelude::*;
use vstd::string::StringExecFns;

verus! {

/// What the message of the error for a manifest that could not be fetched
/// begins with; the cause follows.
pub const MANIFEST_FETCH_FAILED: &'static str = "Couldn't get video chunks : ";

/// What the message of the error for a segment that could not be fetched
/// begins with; the name asked for, `GOT_ERROR` and the cause follow.
pub const SEGMENT_FETCH_FAILED: &'static str = "Failed to execute request for part ";

/// What stands between a name and a cause in a message.
pub const GOT_ERROR: &'static str = ", got error : ";

/// What the message of the error for a manifest address without a directory
/// begins with; the name of the segment follows.
pub const NO_BASE_URL: &'static str = "Failed to download video part : ";

/// What the message of the error for a failed assembly begins with; the
/// cause follows.
pub const ASSEMBLY_FAILED: &'static str = "Failed to combine video parts, got error : ";

/// The wait in milliseconds before a segment is asked for a second time.
pub const BACKOFF_BASE_MILLIS: u64 = 500;

/// The longest wait in milliseconds before a segment is asked for again.
pub const BACKOFF_CAP_MILLIS: u64 = 30_000;

/// The message of the error for an event that the machine did not wait for.
pub const UNEXPECTED_EVENT: &'static str = "Unexpected event";

/// The video that a progress report is about.
#[derive(Debug, Clone, PartialEq, Eq)]
pub struct VideoInfo {
    pub video_id: String,
}

/// How far a download is: `completed` of `total` segments are there.
#[derive(Debug, Clone, Copy, PartialEq, Eq, Structural)]
pub struct Fraction {
    pub completed: usize,
    pub total: usize,
}

/// Where a download stands.
#[derive(Debug, Clone, Copy, PartialEq, Eq, Structural)]
pub enum Phase {
    /// The media manifest is being fetched.
    AwaitingManifest,
    /// A segment is being fetched.
    Fetching,
    /// The progress sink is being told of a fetched segment.
    Reporting,
    /// The segments are being put together.
    Assembling,
    /// The output is written.
    Finished,
    /// The download has failed.
    Failed,
}

/// What the caller reports to the machine.
#[derive(Debug, Clone, PartialEq, Eq)]
pub enum Event {
    /// The manifest came back with the text `body`, at the time `now` in
    /// seconds since the Unix epoch.
    ManifestFetched { body: String, now: i64 },
    /// The segment asked for is in temporary storage.
    SegmentFetched,
    /// The progress sink has been called.
    Reported,
    /// The output is written.
    Assembled,
    /// The action could not be carried out.
    Failed { cause: String },
}

/// An event as contracts speak of it.
pub enum EventView {
    ManifestFetched { body: Seq<char>, now: i64 },
    SegmentFetched,
    Reported,
    Assembled,
    Failed { cause: Seq<char> },
}

impl View for Event {
    type V = EventView;

    open spec fn view(&self) -> EventView {
        match self {
            Event::ManifestFetched { body, now } => EventView::ManifestFetched {
                body: body@,
                now: *now,
            },
            Event::SegmentFetched => EventView::SegmentFetched,
            Event::Reported => EventView::Reported,
            Event::Assembled => EventView::Assembled,
            Event::Failed { cause } => EventView::Failed { cause: cause@ },
        }
    }
}

/// What the machine tells the caller to do.
#[derive(Debug, Clone, PartialEq, Eq)]
pub enum Action {
    /// Get the media manifest at `url`.
    FetchManifest { url: String },
    /// Wait for `wait_millis` milliseconds, then get `request.url` and write
    /// the bytes to the file `request.temp_name` in the directory
    /// `temp_folder`.
    FetchSegment { request: FetchRequest, temp_folder: String, wait_millis: u64 },
    /// Tell the progress sink how far the download of `video` is.
    Report { video: VideoInfo, progress: Fraction },
    /// Write the files `temp_names` of the directory `temp_folder`, in this
    /// order, to the file `output_filename` in the directory `output_path`.
    Assemble {
        temp_folder: String,
        temp_names: Vec<String>,
        output_path: String,
        output_filename: String,
    },
    /// Nothing is left to do.
    Done,
    /// The download has failed with `error`.
    Abort { error: TwitchClientError },
}

/// An action as contracts speak of it.
pub enum ActionView {
    FetchManifest { url: Seq<char> },
    FetchSegment { request: FetchRequestView, temp_folder: Seq<char>, wait_millis: u64 },
    Report { video_id: Seq<char>, progress: Fraction },
    Assemble {
        temp_folder: Seq<char>,
        temp_names: Seq<Seq<char>>,
        output_path: Seq<char>,
        output_filename: Seq<char>,
    },
    Done,
    Abort { error: ErrorView },
}

/// The views of the strings in `texts`.
pub open spec fn texts_view(texts: Seq<String>) -> Seq<Seq<char>> {
    Seq::new(texts.len(), |i: int| texts[i]@)
}

impl View for Action {
    type V = ActionView;

    open spec fn view(&self) -> ActionView {
        match self {
            Action::FetchManifest { url } => ActionView::FetchManifest { url: url@ },
            Action::FetchSegment { request, temp_folder, wait_millis } => {
                ActionView::FetchSegment {
                    request: request@,
                    temp_folder: temp_folder@,
                    wait_millis: *wait_millis,
                }
            },
            Action::Report { video, progress } => ActionView::Report {
                video_id: video.video_id@,
                progress: *progress,
            },
            Action::Assemble { temp_folder, temp_names, output_path, output_filename } => {
                ActionView::Assemble {
                    temp_folder: temp_folder@,
                    temp_names: texts_view(temp_names@),
                    output_path: output_path@,
                    output_filename: output_filename@,
                }
            },
            Action::Done => ActionView::Done,
            Action::Abort { error } => ActionView::Abort { error: error@ },
        }
    }
}

/// A download as contracts speak of it.
pub struct SessionView {
    pub video_id: Seq<char>,
    pub output_path: Seq<char>,
    pub output_filename: Seq<char>,
    pub playlist_url: Seq<char>,
    pub temp_folder: Seq<char>,
    pub phase: Phase,
    pub plan: SegmentPlanView,
    /// The number of segments that are in temporary storage.
    pub completed: nat,
    /// How often a segment is asked for again after a failure before the
    /// download is given up.
    pub retry_limit: nat,
    /// How often the segment that is being fetched has failed.
    pub attempts: nat,
    /// The progress of each video, by its identifier.
    pub progress: Map<Seq<char>, Fraction>,
    /// The error of a failed download.
    pub failure: ErrorView,
}

impl SessionView {
    /// The number of segments to fetch.
    pub open spec fn total(self) -> nat {
        self.plan.segments.len()
    }

    /// The segment to fetch next.
    pub open spec fn current(self) -> SegmentView {
        self.plan.segments[self.completed as int]
    }

    /// Whether the download is in order.
    pub open spec fn wf(self) -> bool {
        &&& self.completed <= self.total() <= usize::MAX
        &&& self.attempts <= self.retry_limit <= usize::MAX
        &&& self.phase == Phase::AwaitingManifest ==> self.completed == 0
        &&& self.phase == Phase::Fetching ==> self.completed < self.total() && base_url_of(
            self.playlist_url,
        ) is Some
        &&& self.phase == Phase::Reporting ==> self.completed > 0
        &&& self.phase == Phase::Assembling || self.phase == Phase::Finished ==> self.completed
            == self.total()
        &&& self.completed > 0 ==> self.progress.contains_key(self.video_id)
            && self.progress[self.video_id] == (Fraction {
            completed: self.completed as usize,
            total: self.total() as usize,
        })
    }
}

/// The wait in milliseconds before a segment that has failed `attempts`
/// times is asked for again: nothing before the first request, then a wait
/// that doubles with each failure up to the cap.
pub open spec fn backoff_millis(attempts: nat) -> nat
    decreases attempts,
{
    if attempts == 0 {
        0
    } else if attempts == 1 {
        BACKOFF_BASE_MILLIS as nat
    } else if backoff_millis((attempts - 1) as nat) * 2 >= BACKOFF_CAP_MILLIS {
        BACKOFF_CAP_MILLIS as nat
    } else {
        backoff_millis((attempts - 1) as nat) * 2
    }
}

/// The wait never exceeds the cap, and once it has reached the cap it stays
/// there.
pub proof fn lemma_backoff_capped(earlier: nat, later: nat)
    requires
        earlier <= later,
    ensures
        backoff_millis(later) <= BACKOFF_CAP_MILLIS,
        backoff_millis(earlier) <= backoff_millis(later),
        backoff_millis(earlier) == BACKOFF_CAP_MILLIS ==> backoff_millis(later)
            == BACKOFF_CAP_MILLIS,
    decreases later,
{
    if later > 0 {
        if earlier < later {
            lemma_backoff_capped(earlier, (later - 1) as nat);
        } else {
            lemma_backoff_capped((earlier - 1) as nat, (later - 1) as nat);
        }
    }
}

/// The download `s` failed with `error`.
pub open spec fn failed(s: SessionView, error: ErrorView) -> SessionView {
    SessionView { phase: Phase::Failed, failure: error, ..s }
}

/// The download `s` on its way to the next segment, or to the assembly where
/// no segment is left.
pub open spec fn proceed(s: SessionView) -> SessionView {
    if s.completed < s.total() {
        if base_url_of(s.playlist_url) is Some {
            SessionView { phase: Phase::Fetching, ..s }
        } else {
            failed(
                s,
                ErrorView {
                    kind: ErrorKind::SegmentFetch,
                    details: NO_BASE_URL@ + s.current().filename,
                },
            )
        }
    } else {
        SessionView { phase: Phase::Assembling, ..s }
    }
}

/// The download `s` after an event that it did not wait for.
pub open spec fn confused(s: SessionView) -> SessionView {
    failed(s, ErrorView { kind: ErrorKind::Unclassified, details: UNEXPECTED_EVENT@ })
}

/// The download `s` after the event `e`.
pub open spec fn step(s: SessionView, e: EventView) -> SessionView {
    match s.phase {
        Phase::AwaitingManifest => match e {
            EventView::ManifestFetched { body, now } => match plan_outcome(split_lines(body), now) {
                Ok(plan) => if plan.segments.len() <= usize::MAX {
                    proceed(SessionView { plan: plan, ..s })
                } else {
                    confused(s)
                },
                Err(error) => failed(s, error),
            },
            EventView::Failed { cause } => failed(
                s,
                ErrorView { kind: ErrorKind::Network, details: MANIFEST_FETCH_FAILED@ + cause },
            ),
            _ => confused(s),
        },
        Phase::Fetching => match e {
            EventView::SegmentFetched => SessionView {
                phase: Phase::Reporting,
                completed: s.completed + 1,
                attempts: 0,
                progress: s.progress.insert(
                    s.video_id,
                    Fraction { completed: (s.completed + 1) as usize, total: s.total() as usize },
                ),
                ..s
            },
            EventView::Failed { cause } => if s.attempts < s.retry_limit {
                SessionView { attempts: s.attempts + 1, ..s }
            } else {
                failed(
                    s,
                    ErrorView {
                        kind: ErrorKind::SegmentFetch,
                        details: SEGMENT_FETCH_FAILED@ + fetch_name(
                            s.current(),
                            s.plan.apply_unmute,
                        ) + GOT_ERROR@ + cause,
                    },
                )
            },
            _ => confused(s),
        },
        Phase::Reporting => match e {
            EventView::Reported => proceed(s),
            _ => confused(s),
        },
        Phase::Assembling => match e {
            EventView::Assembled => SessionView { phase: Phase::Finished, ..s },
            EventView::Failed { cause } => failed(
                s,
                ErrorView { kind: ErrorKind::Assembly, details: ASSEMBLY_FAILED@ + cause },
            ),
            _ => confused(s),
        },
        Phase::Finished => s,
        Phase::Failed => s,
    }
}

/// What the download `s` waits for the caller to do.
pub open spec fn pending_action(s: SessionView) -> ActionView {
    match s.phase {
        Phase::AwaitingManifest => ActionView::FetchManifest { url: s.playlist_url },
        Phase::Fetching => ActionView::FetchSegment {
            request: request_for(s.current(), s.plan.apply_unmute, base_url_of(s.playlist_url)->0),
            temp_folder: s.temp_folder,
            wait_millis: backoff_millis(s.attempts) as u64,
        },
        Phase::Reporting => ActionView::Report {
            video_id: s.video_id,
            progress: Fraction { completed: s.completed as usize, total: s.total() as usize },
        },
        Phase::Assembling => ActionView::Assemble {
            temp_folder: s.temp_folder,
            temp_names: fetch_names(s.plan),
            output_path: s.output_path,
            output_filename: s.output_filename,
        },
        Phase::Finished => ActionView::Done,
        Phase::Failed => ActionView::Abort { error: s.failure },
    }
}

/// One download.
#[derive(Debug, Clone)]
pub struct DownloadSession {
    video_id: String,
    output_path: String,
    output_filename: String,
    playlist_url: String,
    temp_folder: String,
    phase: Phase,
    plan: SegmentPlan,
    completed: usize,
    retry_limit: usize,
    attempts: usize,
    progress: TextMap<Fraction>,
    failure: TwitchClientError,
}

impl View for DownloadSession {
    type V = SessionView;

    closed spec fn view(&self) -> SessionView {
        SessionView {
            video_id: self.video_id@,
            output_path: self.output_path@,
            output_filename: self.output_filename@,
            playlist_url: self.playlist_url@,
            temp_folder: self.temp_folder@,
            phase: self.phase,
            plan: self.plan@,
            completed: self.completed as nat,
            retry_limit: self.retry_limit as nat,
            attempts: self.attempts as nat,
            progress: self.progress@,
            failure: self.failure@,
        }
    }
}

impl DownloadSession {
    /// Whether the download is in order.
    pub closed spec fn wf(&self) -> bool {
        self.progress.wf() && self@.wf()
    }

    /// A download of the manifest at `playlist_url` as `options` asks for
    /// it, with `temp_folder` as temporary storage. A segment that fails is
    /// asked for again up to `retry_limit` times. `progress` is the progress
    /// of the videos that were downloaded before.
    pub fn new(
        playlist_url: String,
        options: DownloadOptions,
        temp_folder: String,
        retry_limit: usize,
        progress: TextMap<Fraction>,
    ) -> (session: DownloadSession)
        requires
            progress.wf(),
        ensures
            session.wf(),
            session@.phase == Phase::AwaitingManifest,
            session@.video_id == options.video_id@,
            session@.output_path == options.filepath@,
            session@.output_filename == options.filename@,
            session@.playlist_url == playlist_url@,
            session@.temp_folder == temp_folder@,
            session@.plan.segments.len() == 0,
            session@.completed == 0,
            session@.retry_limit == retry_limit,
            session@.attempts == 0,
            session@.progress == progress@,
            pending_action(session@) == (ActionView::FetchManifest { url: playlist_url@ }),
    {
        DownloadSession {
            video_id: options.video_id,
            output_path: options.filepath,
            output_filename: options.filename,
            playlist_url,
            temp_folder,
            phase: Phase::AwaitingManifest,
            plan: SegmentPlan { segments: Vec::new(), vod_age_seconds: 0, apply_unmute: false },
            completed: 0,
            retry_limit,
            attempts: 0,
            progress,
            failure: TwitchClientError::new(""),
        }
    }

    /// Where the download stands.
    pub fn phase(&self) -> (phase: Phase)
        ensures
            phase == self@.phase,
    {
        self.phase
    }

    /// The plan of the download; without segments until the manifest is
    /// read.
    pub fn plan(&self) -> (plan: &SegmentPlan)
        ensures
            plan@ == self@.plan,
    {
        &self.plan
    }

    /// The progress of each video, by its identifier.
    pub fn progress(&self) -> (progress: &TextMap<Fraction>)
        requires
            self.wf(),
        ensures
            progress.wf(),
            progress@ == self@.progress,
    {
        &self.progress
    }

    /// How far this download is.
    pub fn fraction(&self) -> (f: Fraction)
        requires
            self.wf(),
        ensures
            f.completed == self@.completed,
            f.total == self@.total(),
    {
        Fraction { completed: self.completed, total: self.plan.segments.len() }
    }

    /// Whether temporary storage may be cleared: only once the output is
    /// written. After a failure the files stay for inspection.
    pub fn may_remove_temp(&self) -> (r: bool)
        ensures
            r == (self@.phase == Phase::Finished),
    {
        match self.phase {
            Phase::Finished => true,
            _ => false,
        }
    }

    /// The wait in milliseconds before a segment that has failed `attempts`
    /// times is asked for again.
    pub fn backoff(attempts: usize) -> (wait: u64)
        ensures
            wait == backoff_millis(attempts as nat),
    {
        if attempts == 0 {
            return 0;
        }
        let mut wait: u64 = BACKOFF_BASE_MILLIS;
        let mut done: usize = 1;
        while done < attempts && wait < BACKOFF_CAP_MILLIS
            invariant
                1 <= done <= attempts,
                wait == backoff_millis(done as nat),
                wait <= BACKOFF_CAP_MILLIS,
            decreases attempts - done,
        {
            wait = if wait * 2 >= BACKOFF_CAP_MILLIS {
                BACKOFF_CAP_MILLIS
            } else {
                wait * 2
            };
            done += 1;
        }
        proof {
            lemma_backoff_capped(done as nat, attempts as nat);
        }
        wait
    }

    /// What the download waits for the caller to do.
    pub fn pending(&self) -> (action: Action)
        requires
            self.wf(),
        ensures
            action@ == pending_action(self@),
    {
        match self.phase {
            Phase::AwaitingManifest => Action::FetchManifest { url: self.playlist_url.clone() },
            Phase::Fetching => {
                assert(self@.current() == self.plan.segments@[self.completed as int]@);
                match SegmentFetcher::base_url(self.playlist_url.as_str()) {
                    Some(base) => Action::FetchSegment {
                        request: SegmentFetcher::request(
                            &self.plan.segments[self.completed],
                            self.plan.apply_unmute,
                            base.as_str(),
                        ),
                        temp_folder: self.temp_folder.clone(),
                        wait_millis: DownloadSession::backoff(self.attempts),
                    },
                    None => Action::Done,
                }
            },
            Phase::Reporting => Action::Report {
                video: VideoInfo { video_id: self.video_id.clone() },
                progress: Fraction { completed: self.completed, total: self.plan.segments.len() },
            },
            Phase::Assembling => {
                let temp_names = SegmentFetcher::temp_names(&self.plan);
                assert(texts_view(temp_names@) == fetch_names(self@.plan));
                Action::Assemble {
                    temp_folder: self.temp_folder.clone(),
                    temp_names,
                    output_path: self.output_path.clone(),
                    output_filename: self.output_filename.clone(),
                }
            },
            Phase::Finished => Action::Done,
            Phase::Failed => Action::Abort { error: self.failure.copy() },
        }
    }

    /// Ends the download with `error`.
    fn fail(&mut self, error: TwitchClientError)
        requires
            old(self).wf(),
        ensures
            final(self).wf(),
            final(self)@ == failed(old(self)@, error@),
    {
        self.phase = Phase::Failed;
        self.failure = error;
    }

    /// Ends the download for an event that it did not wait for.
    fn confuse(&mut self)
        requires
            old(self).wf(),
        ensures
            final(self).wf(),
            final(self)@ == confused(old(self)@),
    {
        self.fail(TwitchClientError::of(ErrorKind::Unclassified, UNEXPECTED_EVENT));
    }

    /// Goes on to the next segment, or to the assembly.
    fn go_on(&mut self)
        requires
            old(self).progress.wf(),
            old(self)@.completed <= old(self)@.total(),
            old(self)@.attempts <= old(self)@.retry_limit,
            old(self)@.completed > 0 ==> old(self)@.progress.contains_key(old(self)@.video_id)
                && old(self)@.progress[old(self)@.video_id] == (Fraction {
                completed: old(self)@.completed as usize,
                total: old(self)@.total() as usize,
            }),
        ensures
            final(self).wf(),
            final(self)@ == proceed(old(self)@),
    {
        if self.completed < self.plan.segments.len() {
            if SegmentFetcher::base_url(self.playlist_url.as_str()).is_some() {
                self.phase = Phase::Fetching;
            } else {
                assert(self@.current() == self.plan.segments@[self.completed as int]@);
                let message = String::from_str(NO_BASE_URL).concat(
                    self.plan.segments[self.completed].filename.as_str(),
                );
                self.phase = Phase::Failed;
                self.failure = TwitchClientError::with_kind(ErrorKind::SegmentFetch, message);
            }
        } else {
            self.phase = Phase::Assembling;
        }
    }

    /// Takes in what has happened, and says what to do next.
    pub fn advance(&mut self, event: Event) -> (action: Action)
        requires
            old(self).wf(),
        ensures
            final(self).wf(),
            final(self)@ == step(old(self)@, event@),
            action@ == pending_action(final(self)@),
    {
        match self.phase {
            Phase::AwaitingManifest => match event {
                Event::ManifestFetched { body, now } => match SegmentPlanner::plan(
                    body.as_str(),
                    now,
                ) {
                    Ok(plan) => {
                        self.plan = plan;
                        self.go_on();
                    },
                    Err(error) => {
                        self.fail(error);
                    },
                },
                Event::Failed { cause } => {
                    let message = String::from_str(MANIFEST_FETCH_FAILED).concat(cause.as_str());
                    self.fail(TwitchClientError::with_kind(ErrorKind::Network, message));
                },
                _ => {
                    self.confuse();
                },
            },
            Phase::Fetching => match event {
                Event::SegmentFetched => {
                    self.completed = self.completed + 1;
                    self.attempts = 0;
                    self.progress.insert(
                        self.video_id.clone(),
                        Fraction { completed: self.completed, total: self.plan.segments.len() },
                    );
                    self.phase = Phase::Reporting;
                },
                Event::Failed { cause } => if self.attempts < self.retry_limit {
                    self.attempts = self.attempts + 1;
                } else {
                    assert(self@.current() == self.plan.segments@[self.completed as int]@);
                    let name = SegmentFetcher::fetch_name(
                        &self.plan.segments[self.completed],
                        self.plan.apply_unmute,
                    );
                    let message = String::from_str(SEGMENT_FETCH_FAILED).concat(
                        name.as_str(),
                    ).concat(GOT_ERROR).concat(cause.as_str());
                    self.fail(TwitchClientError::with_kind(ErrorKind::SegmentFetch, message));
                },
                _ => {
                    self.confuse();
                },
            },
            Phase::Reporting => match event {
                Event::Reported => {
                    self.go_on();
                },
                _ => {
                    self.confuse();
                },
            },
            Phase::Assembling => match event {
                Event::Assembled => {
                    self.phase = Phase::Finished;
                },
                Event::Failed { cause } => {
                    let message = String::from_str(ASSEMBLY_FAILED).concat(cause.as_str());
                    self.fail(TwitchClientError::with_kind(ErrorKind::Assembly, message));
                },
                _ => {
                    self.confuse();
                },
            },
            Phase::Finished => {},
            Phase::Failed => {},
        }
        self.pending()
    }
}

// ---------------------------------------------------------------------------
// What holds of every download

/// The download `s` after the events `events`, one after the other.
pub open spec fn run(s: SessionView, events: Seq<EventView>) -> SessionView
    decreases events.len(),
{
    if events.len() == 0 {
        s
    } else {
        run(step(s, events[0]), events.skip(1))
    }
}

/// The progress that the download `s` tells the sink of while the events
/// `events` come in: one report for each segment fetched.
pub open spec fn reports(s: SessionView, events: Seq<EventView>) -> Seq<Fraction>
    decreases events.len(),
{
    if events.len() == 0 {
        Seq::<Fraction>::empty()
    } else {
        let next = step(s, events[0]);
        let rest = reports(next, events.skip(1));
        if s.phase == Phase::Fetching && next.phase == Phase::Reporting {
            seq![Fraction { completed: next.completed as usize, total: next.total() as usize }]
                + rest
        } else {
            rest
        }
    }
}

/// A download that is in order stays in order; it never loses a segment, and
/// once the manifest is read its plan stays as it is.
pub proof fn lemma_step_keeps_order(s: SessionView, e: EventView)
    requires
        s.wf(),
    ensures
        step(s, e).wf(),
        step(s, e).completed >= s.completed,
        s.phase != Phase::AwaitingManifest ==> step(s, e).plan == s.plan && step(s, e).phase
            != Phase::AwaitingManifest,
        s.phase == Phase::AwaitingManifest ==> step(s, e).phase != Phase::AwaitingManifest,
        s.phase == Phase::Failed ==> step(s, e) == s,
        s.phase == Phase::Finished ==> step(s, e) == s,
{
}

/// A failed download stays failed, whatever comes in, and reports nothing.
pub proof fn lemma_failure_is_final(s: SessionView, events: Seq<EventView>)
    requires
        s.phase == Phase::Failed,
    ensures
        run(s, events) == s,
        reports(s, events) == Seq::<Fraction>::empty(),
        pending_action(run(s, events)) == (ActionView::Abort { error: s.failure }),
    decreases events.len(),
{
    if events.len() > 0 {
        lemma_failure_is_final(s, events.skip(1));
    }
}

/// The reports of a download count up: each tells of more segments than the
/// one before and than the download had at the start, of no more than there
/// are, and all tell of the same total.
pub proof fn lemma_reports_count_up(s: SessionView, events: Seq<EventView>)
    requires
        s.wf(),
    ensures
        forall|k: int|
            0 <= k < reports(s, events).len() ==> {
                let r = #[trigger] reports(s, events)[k];
                &&& s.completed < r.completed <= r.total
                &&& s.phase != Phase::AwaitingManifest ==> r.total == s.total()
            },
        forall|j: int, k: int|
            0 <= j < k < reports(s, events).len() ==> (#[trigger] reports(s, events)[j]).completed
                < (#[trigger] reports(s, events)[k]).completed && reports(s, events)[j].total
                == reports(s, events)[k].total,
    decreases events.len(),
{
    if events.len() > 0 {
        let next = step(s, events[0]);
        let rest = reports(next, events.skip(1));
        let all = reports(s, events);
        lemma_step_keeps_order(s, events[0]);
        lemma_reports_count_up(next, events.skip(1));
        if s.phase == Phase::Fetching && next.phase == Phase::Reporting {
            assert(all == seq![
                Fraction { completed: next.completed as usize, total: next.total() as usize },
            ] + rest);
            assert forall|k: int| 0 <= k < all.len() implies {
                let r = #[trigger] all[k];
                &&& s.completed < r.completed <= r.total
                &&& s.phase != Phase::AwaitingManifest ==> r.total == s.total()
            } by {
                if k > 0 {
                    assert(all[k] == rest[k - 1]);
                }
            }
            assert forall|j: int, k: int| 0 <= j < k < all.len() implies (#[trigger] all[j]).completed
                < (#[trigger] all[k]).completed && all[j].total == all[k].total by {
                assert(all[k] == rest[k - 1]);
                if j > 0 {
                    assert(all[j] == rest[j - 1]);
                }
            }
        } else {
            assert(all == rest);
        }
    }
}

/// A download that has finished has all its segments. The last report, if
/// there was one, told of all of them; and there was one if a segment was
/// still to be fetched at the start.
pub proof fn lemma_finished_reported(s: SessionView, events: Seq<EventView>)
    requires
        s.wf(),
        run(s, events).phase == Phase::Finished,
    ensures
        run(s, events).completed == run(s, events).total(),
        run(s, events).total() <= usize::MAX,
        s.phase != Phase::AwaitingManifest ==> run(s, events).total() == s.total(),
        reports(s, events).len() > 0 ==> reports(s, events).last() == (Fraction {
            completed: run(s, events).total() as usize,
            total: run(s, events).total() as usize,
        }),
        s.phase != Phase::Assembling && s.phase != Phase::Finished && s.completed < run(
            s,
            events,
        ).total() ==> reports(s, events).len() > 0,
    decreases events.len(),
{
    if events.len() > 0 {
        let next = step(s, events[0]);
        let rest = reports(next, events.skip(1));
        let all = reports(s, events);
        lemma_step_keeps_order(s, events[0]);
        if next.phase == Phase::Failed {
            lemma_failure_is_final(next, events.skip(1));
        }
        lemma_finished_reported(next, events.skip(1));
        lemma_reports_count_up(next, events.skip(1));
        if s.phase == Phase::Fetching && next.phase == Phase::Reporting {
            let head = Fraction { completed: next.completed as usize, total: next.total() as usize };
            assert(all == seq![head] + rest);
            if rest.len() > 0 {
                assert(all.last() == rest.last());
            } else {
                assert(all.last() == head);
            }
        } else {
            assert(all == rest);
        }
    }
}

/// A download that allows no retries ends with the first segment that could
/// not be fetched; one that allows some asks for the same segment again
/// until they are used up.
pub proof fn lemma_segment_failure(s: SessionView, cause: Seq<char>)
    requires
        s.wf(),
        s.phase == Phase::Fetching,
    ensures
        s.attempts == s.retry_limit ==> step(s, EventView::Failed { cause }).phase
            == Phase::Failed && step(s, EventView::Failed { cause }).failure.kind
            == ErrorKind::SegmentFetch,
        s.attempts < s.retry_limit ==> step(s, EventView::Failed { cause }).phase
            == Phase::Fetching && step(s, EventView::Failed { cause }).completed == s.completed
            && step(s, EventView::Failed { cause }).attempts == s.attempts + 1 && pending_action(
            step(s, EventView::Failed { cause }),
        )->FetchSegment_request == pending_action(s)->FetchSegment_request,
{
}

/// The progress told to the sink never goes down, and a download that runs
/// from its start to its end tells of all its segments at last: the last
/// report is the whole.
pub proof fn lemma_progress_reports(s: SessionView, events: Seq<EventView>)
    requires
        s.wf(),
    ensures
        forall|j: int, k: int|
            0 <= j < k < reports(s, events).len() ==> (#[trigger] reports(s, events)[j]).total == (
            #[trigger] reports(s, events)[k]).total && reports(s, events)[j].completed <= reports(
                s,
                events,
            )[k].completed,
        s.phase == Phase::AwaitingManifest && run(s, events).phase == Phase::Finished && run(
            s,
            events,
        ).total() > 0 ==> reports(s, events).len() > 0 && reports(s, events).last().completed
            == reports(s, events).last().total,
{
    lemma_reports_count_up(s, events);
    if run(s, events).phase == Phase::Finished {
        lemma_finished_reported(s, events);
    }
}

} // verus!
