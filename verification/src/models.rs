//! The values that the downloader passes around.
use vstd::prelude::*;

verus! {

/// What the site's home page says about its state.
#[derive(Clone, Copy, PartialEq, Eq, Structural, Debug)]
pub enum Availability {
    Available,
    Captcha,
    Unavailable,
}

/// The outcome of asking the site for an album page.
#[derive(Debug)]
pub enum ResolveAlbumResult {
    /// The page's HTML.
    Success(String),
    /// A Cloudflare challenge stands in the way.
    Cloudflare,
    Error,
}

/// The music service that an album comes from.
#[derive(Clone, Copy, PartialEq, Eq, Structural, Debug)]
pub enum Service {
    Qobuz,
    Tidal,
    Soundcloud,
}

/// Where an album's directory name carries the release year.
#[derive(Clone, Copy, PartialEq, Eq, Structural, Debug)]
pub enum AlbumYear {
    Append,
    Prepend,
}

/// What of an album is not downloaded.
#[derive(Clone, Copy, Debug)]
pub struct SkipConfig {
    pub tracks: bool,
    pub cover: bool,
}

/// How tracks are requested.
#[derive(Debug)]
pub struct DownloadConfig {
    pub country: String,
    pub metadata: bool,
    pub private: bool,
    pub downscale: String,
}

/// A track of an album page.
#[derive(Debug)]
pub struct Track {
    pub title: String,
    pub url: String,
    pub csrf: String,
    pub csrf_fallback: Option<String>,
    /// Whether the page names producers of the track.
    pub has_producers: bool,
}

/// A download that the site has accepted, and the server that prepares it.
#[derive(Debug)]
pub struct TrackDownload {
    pub server: String,
    pub handoff: String,
}

/// What the site answers to a request for a track.
#[derive(Debug)]
pub enum TrackDownloadResult {
    Accepted(TrackDownload),
    Refused { error: String },
}

/// How far a server is with a download.
#[derive(Debug)]
pub struct TrackDownloadStatus {
    pub status: String,
    pub message: String,
}

#[derive(Debug)]
pub struct Account {
    pub id: String,
    pub kind: String,
}

#[derive(Debug)]
pub struct Token {
    pub expiry: u64,
    pub primary: String,
    pub secondary: Option<String>,
}

#[derive(Debug)]
pub struct Upload {
    pub enabled: bool,
}

/// The body of a request for a track.
#[derive(Debug)]
pub struct TrackDownloadRequest {
    pub account: Account,
    pub compat: bool,
    pub downscale: String,
    pub handoff: bool,
    pub metadata: bool,
    pub private: bool,
    pub token: Token,
    pub upload: Upload,
    pub url: String,
}

} // verus!
