//! What the caller asks for: which video, in which quality, written where.

use vstd::prelude::*;

verus! {

/// The quality that a request asks for unless the caller sets another.
pub const DEFAULT_QUALITY: &'static str = "720p60";

/// The directory that a request writes to unless the caller sets another.
pub const DEFAULT_FILEPATH: &'static str = "./downloads/";

/// A request to download one video.
#[derive(Debug, Clone)]
pub struct DownloadOptions {
    /// A token obtained beforehand; empty where there is none.
    pub oauth_token: String,
    /// The video to resolve.
    pub video_id: String,
    /// The name of the assembled file.
    pub filename: String,
    /// The directory that receives the assembled file.
    pub filepath: String,
    /// The label of the quality variant to download.
    pub quality: String,
}

impl DownloadOptions {
    /// A request for `video_id` with the default quality and directory, no
    /// token, and the video's identifier as the output file's name.
    pub fn new(video_id: String) -> (o: DownloadOptions)
        ensures
            o.oauth_token@ == Seq::<char>::empty(),
            o.video_id@ == video_id@,
            o.filename@ == video_id@,
            o.filepath@ == DEFAULT_FILEPATH@,
            o.quality@ == DEFAULT_QUALITY@,
    {
        DownloadOptions {
            oauth_token: String::new(),
            filename: video_id.clone(),
            video_id,
            quality: DEFAULT_QUALITY.to_owned(),
            filepath: DEFAULT_FILEPATH.to_owned(),
        }
    }

    /// The video to resolve.
    pub fn get_video_id(&self) -> (r: String)
        ensures
            r@ == self.video_id@,
    {
        self.video_id.clone()
    }

    /// The name of the assembled file.
    pub fn get_output_filename(&self) -> (r: String)
        ensures
            r@ == self.filename@,
    {
        self.filename.clone()
    }

    /// The directory that receives the assembled file.
    pub fn get_output_filepath(&self) -> (r: String)
        ensures
            r@ == self.filepath@,
    {
        self.filepath.clone()
    }
}

} // verus!
