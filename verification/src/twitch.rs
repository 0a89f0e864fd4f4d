//! A client that also keeps the progress of the videos it has downloaded.

use crate::download_options::DownloadOptions;
use crate::keyed::TextMap;
use crate::links::{LinkPhase, LinkResolution};
use crate::requests::lines_as_strings;
use crate::session::{pending_action, texts_view, ActionView, DownloadSession, Fraction, Phase};
use crate::text::split_lines;
use crate::variants::VariantView;
use vstd::prelude::*;

verus! {

/// A client of the platform with a progress map.
#[derive(Debug, Clone, PartialEq, Eq)]
pub struct VodFriendClient {
    temporary_folder: String,
    download_progress: TextMap<Fraction>,
}

impl VodFriendClient {
    /// Whether the client is in order.
    pub closed spec fn wf(&self) -> bool {
        self.download_progress.wf()
    }

    /// The directory for temporary files.
    pub closed spec fn temp_directory_view(&self) -> Seq<char> {
        self.temporary_folder@
    }

    /// The progress of each video, by its identifier.
    pub closed spec fn progress_view(&self) -> Map<Seq<char>, Fraction> {
        self.download_progress@
    }

    /// A client without a directory for temporary files and without
    /// progress.
    pub fn new() -> (client: VodFriendClient)
        ensures
            client.wf(),
            client.temp_directory_view() == Seq::<char>::empty(),
            client.progress_view() == Map::<Seq<char>, Fraction>::empty(),
    {
        VodFriendClient { temporary_folder: String::new(), download_progress: TextMap::new() }
    }

    /// Sets the directory for temporary files.
    pub fn set_temp_directory(&mut self, temp_dir: &str)
        requires
            old(self).wf(),
        ensures
            final(self).wf(),
            final(self).temp_directory_view() == temp_dir@,
            final(self).progress_view() == old(self).progress_view(),
    {
        self.temporary_folder = temp_dir.to_owned();
    }

    /// The progress of each video, by its identifier.
    pub fn download_progress(&self) -> (progress: &TextMap<Fraction>)
        requires
            self.wf(),
        ensures
            progress.wf(),
            progress@ == self.progress_view(),
    {
        &self.download_progress
    }

    /// The lines of the master manifest `manifest`.
    pub fn get_video_playlists(&self, manifest: &str) -> (playlists: Vec<String>)
        ensures
            texts_view(playlists@) == split_lines(manifest@),
    {
        lines_as_strings(manifest)
    }

    /// Starts the way to the variants of the video that `download_options`
    /// names.
    pub fn get_vod_links(&self, download_options: &DownloadOptions) -> (links: LinkResolution)
        ensures
            links.wf(),
            links@.video_id == download_options.video_id@,
            links@.phase == LinkPhase::AwaitingToken,
            links@.variants == Seq::<VariantView>::empty(),
    {
        LinkResolution::new(download_options.get_video_id())
    }

    /// Starts the download of the media manifest at `playlist_url` as
    /// `download_options` asks for it. The download starts from the
    /// progress that the client holds.
    pub fn download_vod(&mut self, playlist_url: String, download_options: DownloadOptions) -> (session:
        DownloadSession)
        requires
            old(self).wf(),
        ensures
            final(self).wf(),
            final(self).temp_directory_view() == old(self).temp_directory_view(),
            final(self).progress_view() == old(self).progress_view(),
            session.wf(),
            session@.phase == Phase::AwaitingManifest,
            session@.video_id == download_options.video_id@,
            session@.output_path == download_options.filepath@,
            session@.output_filename == download_options.filename@,
            session@.playlist_url == playlist_url@,
            session@.temp_folder == old(self).temp_directory_view(),
            session@.plan.segments.len() == 0,
            session@.completed == 0,
            session@.retry_limit == 0,
            session@.attempts == 0,
            session@.progress == old(self).progress_view(),
            pending_action(session@) == (ActionView::FetchManifest { url: playlist_url@ }),
    {
        DownloadSession::new(
            playlist_url,
            download_options,
            self.temporary_folder.clone(),
            0,
            self.download_progress.duplicate(),
        )
    }

    /// Takes over the progress that `session` has come to.
    pub fn record_progress(&mut self, session: &DownloadSession)
        requires
            old(self).wf(),
            session.wf(),
        ensures
            final(self).wf(),
            final(self).temp_directory_view() == old(self).temp_directory_view(),
            final(self).progress_view() == session@.progress,
    {
        self.download_progress = session.progress().duplicate();
    }
}

} // verus!
