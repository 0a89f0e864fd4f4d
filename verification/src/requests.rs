//! A client that holds where temporary files go, and starts the two ways of
//! a download: to the variants of a video, and from a variant to the file.

use crate::download_options::DownloadOptions;
use crate::keyed::TextMap;
use crate::links::{LinkPhase, LinkResolution};
use crate::planner::{vod_age_at, vod_age_outcome};
use crate::session::{pending_action, texts_view, ActionView, DownloadSession, Fraction, Phase};
use crate::text::{chars_of, lines_of, lines_view, split_lines, string_of};
use crate::utils::{ErrorView, TwitchClientError};
use crate::variants::VariantView;
use vstd::prelude::*;

verus! {

/// The directory for temporary files of a client that was given no other.
pub const DEFAULT_TEMP_FOLDER: &'static str = "/twitch_download_tmp/";

/// The lines of `text`, each as a string.
pub fn lines_as_strings(text: &str) -> (lines: Vec<String>)
    ensures
        texts_view(lines@) == split_lines(text@),
{
    let chars = chars_of(text);
    let split = lines_of(&chars);
    let mut lines: Vec<String> = Vec::new();
    let mut i: usize = 0;
    while i < split.len()
        invariant
            i <= split.len(),
            lines@.len() == i,
            forall|k: int| 0 <= k < i ==> (#[trigger] lines@[k])@ == split@[k]@,
        decreases split.len() - i,
    {
        lines.push(string_of(&split[i]));
        i += 1;
    }
    assert(texts_view(lines@) == lines_view(split@));
    lines
}

/// The characters of each of `lines`.
pub fn strings_as_lines(lines: &Vec<String>) -> (r: Vec<Vec<char>>)
    ensures
        lines_view(r@) == texts_view(lines@),
{
    let mut r: Vec<Vec<char>> = Vec::new();
    let mut i: usize = 0;
    while i < lines.len()
        invariant
            i <= lines.len(),
            r@.len() == i,
            forall|k: int| 0 <= k < i ==> (#[trigger] r@[k])@ == lines@[k]@,
        decreases lines.len() - i,
    {
        r.push(chars_of(lines[i].as_str()));
        i += 1;
    }
    assert(lines_view(r@) == texts_view(lines@));
    r
}

/// A client of the platform.
#[derive(Debug, Clone, PartialEq, Eq)]
pub struct TwitchClient {
    temp_folder: String,
    retry_limit: usize,
}

impl TwitchClient {
    /// The directory for temporary files.
    pub closed spec fn temp_folder_view(&self) -> Seq<char> {
        self.temp_folder@
    }

    /// How often a segment is asked for again after a failure.
    pub closed spec fn retry_limit_view(&self) -> nat {
        self.retry_limit as nat
    }

    /// A client that keeps temporary files in the default directory and
    /// gives a download up at the first failure.
    pub fn new() -> (client: TwitchClient)
        ensures
            client.temp_folder_view() == DEFAULT_TEMP_FOLDER@,
            client.retry_limit_view() == 0,
    {
        TwitchClient { temp_folder: DEFAULT_TEMP_FOLDER.to_owned(), retry_limit: 0 }
    }

    /// Sets how often a segment is asked for again after a failure.
    pub fn set_retry_limit(&mut self, retry_limit: usize)
        ensures
            final(self).retry_limit_view() == retry_limit,
            final(self).temp_folder_view() == old(self).temp_folder_view(),
    {
        self.retry_limit = retry_limit;
    }

    /// The directory for temporary files.
    pub fn get_temp_folder(self) -> (folder: String)
        ensures
            folder@ == self.temp_folder_view(),
    {
        self.temp_folder
    }

    /// Sets the directory for temporary files.
    pub fn set_temp_folder(&mut self, new_temp_folder: String)
        ensures
            final(self).temp_folder_view() == new_temp_folder@,
            final(self).retry_limit_view() == old(self).retry_limit_view(),
    {
        self.temp_folder = new_temp_folder;
    }

    /// The lines of the master manifest `manifest`.
    pub fn get_video_playlists(&self, manifest: &str) -> (playlists: Vec<String>)
        ensures
            texts_view(playlists@) == split_lines(manifest@),
    {
        lines_as_strings(manifest)
    }

    /// The age in seconds, at the time `now`, of the video whose media
    /// manifest has the lines `video_chunks`. `now` is in seconds since the
    /// Unix epoch.
    pub fn calculate_vod_age(video_chunks: &Vec<String>, now: i64) -> (r: Result<
        i64,
        TwitchClientError,
    >)
        ensures
            match r {
                Ok(age) => vod_age_outcome(texts_view(video_chunks@), now) == Ok::<i64, ErrorView>(
                    age,
                ),
                Err(e) => vod_age_outcome(texts_view(video_chunks@), now) == Err::<i64, ErrorView>(
                    e@,
                ),
            },
    {
        let lines = strings_as_lines(video_chunks);
        vod_age_at(&lines, now)
    }

    /// Starts the way to the variants of the video that `download_options`
    /// names.
    pub fn get_vod_links(&self, download_options: &DownloadOptions) -> (links: LinkResolution)
        ensures
            links.wf(),
            links@.video_id == download_options.video_id@,
            links@.phase == LinkPhase::AwaitingToken,
            links@.variants == Seq::<VariantView>::empty(),
    {
        LinkResolution::new(download_options.get_video_id())
    }

    /// Starts the download of the media manifest at `playlist_url` as
    /// `download_options` asks for it.
    pub fn download_vod(&self, playlist_url: String, download_options: DownloadOptions) -> (session:
        DownloadSession)
        ensures
            session.wf(),
            session@.phase == Phase::AwaitingManifest,
            session@.video_id == download_options.video_id@,
            session@.output_path == download_options.filepath@,
            session@.output_filename == download_options.filename@,
            session@.playlist_url == playlist_url@,
            session@.temp_folder == self.temp_folder_view(),
            session@.plan.segments.len() == 0,
            session@.completed == 0,
            session@.retry_limit == self.retry_limit_view(),
            session@.attempts == 0,
            session@.progress == Map::<Seq<char>, Fraction>::empty(),
            pending_action(session@) == (ActionView::FetchManifest { url: playlist_url@ }),
    {
        DownloadSession::new(
            playlist_url,
            download_options,
            self.temp_folder.clone(),
            self.retry_limit,
            TextMap::new(),
        )
    }
}

} // verus!
