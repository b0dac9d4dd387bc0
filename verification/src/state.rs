use vstd::prelude::*;
use crate::text::opt_view;

verus! {

/// A track as the player and the playlists hold it.
pub struct TrackInfo {
    pub id: String,
    pub title: String,
    pub artist: String,
    pub album: String,
    pub duration_ms: u64,
    pub source: TrackSource,
    /// Path of a local file or URL of a remote stream.
    pub url: String,
    pub cover_url: Option<String>,
}

impl Clone for TrackInfo {
    fn clone(&self) -> (r: Self)
        ensures
            r == *self,
    {
        TrackInfo {
            id: self.id.clone(),
            title: self.title.clone(),
            artist: self.artist.clone(),
            album: self.album.clone(),
            duration_ms: self.duration_ms,
            source: self.source,
            url: self.url.clone(),
            cover_url: match &self.cover_url {
                Some(c) => Some(c.clone()),
                None => None,
            },
        }
    }
}

/// A track as plain values.
pub struct TrackView {
    pub id: Seq<char>,
    pub title: Seq<char>,
    pub artist: Seq<char>,
    pub album: Seq<char>,
    pub duration_ms: u64,
    pub source: TrackSource,
    pub url: Seq<char>,
    pub cover_url: Option<Seq<char>>,
}

impl View for TrackInfo {
    type V = TrackView;

    open spec fn view(&self) -> TrackView {
        TrackView {
            id: self.id@,
            title: self.title@,
            artist: self.artist@,
            album: self.album@,
            duration_ms: self.duration_ms,
            source: self.source,
            url: self.url@,
            cover_url: opt_view(self.cover_url),
        }
    }
}

/// The views of a list of tracks.
pub open spec fn track_views(ts: Seq<TrackInfo>) -> Seq<TrackView> {
    ts.map_values(|t: TrackInfo| t@)
}

/// Where a track comes from.
#[derive(Debug, Clone, Copy, PartialEq, Eq, Structural)]
pub enum TrackSource {
    Local,
    Netease,
    Bilibili,
    Youtube,
}

/// How the queue repeats.
#[derive(Debug, Clone, Copy, PartialEq, Eq, Structural)]
pub enum RepeatMode {
    Off,
    All,
    One,
}

} // verus!
