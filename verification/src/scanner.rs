use vstd::prelude::*;
use crate::state::{TrackInfo, TrackSource, TrackView};
use crate::text::{lowercase, push_str, str_eq, str_to_string, to_lowercase};

verus! {

/// An audio file extension that the scanner picks up (in lower case).
pub open spec fn is_audio_extension_spec(ext: Seq<char>) -> bool {
    ext == "mp3"@ || ext == "flac"@ || ext == "ogg"@ || ext == "wav"@ || ext == "m4a"@ || ext == "aac"@ || ext
        == "opus"@ || ext == "wma"@
}

/// Whether a file with extension `ext` is scanned: the extension in lower
/// case is an audio one.
pub fn is_audio_extension(ext: &str) -> (r: bool)
    ensures
        r == is_audio_extension_spec(lowercase(ext@)),
{
    let e = to_lowercase(ext);
    let e = e.as_str();
    str_eq(e, "mp3") || str_eq(e, "flac") || str_eq(e, "ogg") || str_eq(e, "wav") || str_eq(e, "m4a") || str_eq(
        e,
        "aac",
    ) || str_eq(e, "opus") || str_eq(e, "wma")
}

/// The track of a local file from what its tags hold: the title falls back
/// to the file stem (then `Unknown`), artist and album to `Unknown Artist`
/// and `Unknown Album`; the id is `local:` and the path.
pub open spec fn local_track_spec(
    path: Seq<char>,
    stem: Option<Seq<char>>,
    title: Option<Seq<char>>,
    artist: Option<Seq<char>>,
    album: Option<Seq<char>>,
    duration_ms: u64,
) -> TrackView {
    TrackView {
        id: "local:"@ + path,
        title: match title {
            Some(t) => t,
            None => match stem {
                Some(s) => s,
                None => "Unknown"@,
            },
        },
        artist: match artist {
            Some(a) => a,
            None => "Unknown Artist"@,
        },
        album: match album {
            Some(a) => a,
            None => "Unknown Album"@,
        },
        duration_ms: duration_ms,
        source: TrackSource::Local,
        url: path,
        cover_url: None,
    }
}

fn or_default(o: Option<String>, d: &str) -> (r: String)
    ensures
        r@ == match o {
            Some(s) => s@,
            None => d@,
        },
{
    match o {
        Some(s) => s,
        None => str_to_string(d),
    }
}

/// The track of a local file.
pub fn local_track(
    path: &str,
    stem: Option<String>,
    title: Option<String>,
    artist: Option<String>,
    album: Option<String>,
    duration_ms: u64,
) -> (r: TrackInfo)
    ensures
        r@ == local_track_spec(
            path@,
            crate::text::opt_view(stem),
            crate::text::opt_view(title),
            crate::text::opt_view(artist),
            crate::text::opt_view(album),
            duration_ms,
        ),
{
    let t = match title {
        Some(t) => t,
        None => or_default(stem, "Unknown"),
    };
    let mut id = str_to_string("local:");
    push_str(&mut id, path);
    TrackInfo {
        id,
        title: t,
        artist: or_default(artist, "Unknown Artist"),
        album: or_default(album, "Unknown Album"),
        duration_ms,
        source: TrackSource::Local,
        url: str_to_string(path),
        cover_url: None,
    }
}

} // verus!
