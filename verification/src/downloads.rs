use vstd::prelude::*;
use crate::error::AppError;
use crate::text::{lemma_trim_chars_from, contains_seq, contains_str, push_str, str_eq, str_to_string, to_chars, trim, trim_str};

verus! {

/// A track saved on disk, as the download manifest lists it.
pub struct DownloadedTrack {
    pub id: String,
    pub title: String,
    pub artist: String,
    pub album: String,
    pub duration_ms: u64,
    pub cover_url: Option<String>,
    pub source: String,
    pub file_path: String,
    pub file_size: u64,
    pub downloaded_at: u64,
}

/// A character that file names cannot hold.
pub open spec fn is_unsafe_file_char(c: char) -> bool {
    c == '/' || c == '\\' || c == ':' || c == '*' || c == '?' || c == '"' || c == '<' || c == '>' || c == '|'
}

/// `s` with each unsafe character replaced by `_`.
pub open spec fn replaced_unsafe(s: Seq<char>) -> Seq<char> {
    Seq::new(s.len(), |i: int| if is_unsafe_file_char(s[i]) { '_' } else { s[i] })
}

/// A file name part: unsafe characters replaced by `_`, then trimmed.
pub open spec fn sanitized(s: Seq<char>) -> Seq<char> {
    trim(replaced_unsafe(s))
}

/// Makes `s` safe as part of a file name.
pub fn sanitize_filename(s: &str) -> (r: String)
    ensures
        r@ == sanitized(s@),
{
    let v = to_chars(s);
    let mut out = String::new();
    let mut i: usize = 0;
    while i < v.len()
        invariant
            i <= v@.len(),
            v@ == s@,
            out@ == replaced_unsafe(v@).take(i as int),
        decreases v@.len() - i,
    {
        let c = v[i];
        let safe = if c == '/' || c == '\\' || c == ':' || c == '*' || c == '?' || c == '"' || c == '<' || c == '>'
            || c == '|' {
            '_'
        } else {
            c
        };
        out.push(safe);
        i = i + 1;
        assert(out@ =~= replaced_unsafe(v@).take(i as int));
    }
    assert(replaced_unsafe(v@).take(v@.len() as int) =~= replaced_unsafe(v@));
    trim_str(out.as_str())
}

/// A sanitized name part holds none of the characters that file names cannot hold.
pub proof fn law_sanitized_names_are_safe(s: Seq<char>)
    ensures
        forall|j: int| 0 <= j < sanitized(s).len() ==> !is_unsafe_file_char(#[trigger] sanitized(s)[j]),
{
    let r = replaced_unsafe(s);
    lemma_trim_chars_from(r);
    assert forall|j: int| 0 <= j < sanitized(s).len() implies !is_unsafe_file_char(#[trigger] sanitized(s)[j]) by {
        let i = choose|i: int| 0 <= i < r.len() && r[i] == trim(r)[j];
        assert(r[i] == trim(r)[j]);
    }
}

/// The file extension for a content type.
pub open spec fn spec_ext_for(content_type: Seq<char>) -> Seq<char> {
    if contains_seq(content_type, "mp4"@) || contains_seq(content_type, "m4a"@) || contains_seq(content_type, "aac"@) {
        "m4a"@
    } else if contains_seq(content_type, "ogg"@) || contains_seq(content_type, "opus"@) {
        "ogg"@
    } else if contains_seq(content_type, "webm"@) {
        "webm"@
    } else if contains_seq(content_type, "flac"@) {
        "flac"@
    } else if contains_seq(content_type, "wav"@) {
        "wav"@
    } else {
        "mp3"@
    }
}

/// The file extension for a content type: `mp3` unless it names another
/// format.
pub fn ext_from_content_type(content_type: &str) -> (r: &'static str)
    ensures
        r@ == spec_ext_for(content_type@),
{
    if contains_str(content_type, "mp4") || contains_str(content_type, "m4a") || contains_str(content_type, "aac") {
        "m4a"
    } else if contains_str(content_type, "ogg") || contains_str(content_type, "opus") {
        "ogg"
    } else if contains_str(content_type, "webm") {
        "webm"
    } else if contains_str(content_type, "flac") {
        "flac"
    } else if contains_str(content_type, "wav") {
        "wav"
    } else {
        "mp3"
    }
}

/// The `Referer` for a stream URL: Bilibili, YouTube, or NetEase otherwise.
pub open spec fn spec_referer_for(url: Seq<char>) -> Seq<char> {
    if contains_seq(url, "bilibili.com"@) || contains_seq(url, "bilivideo."@) {
        "https://www.bilibili.com"@
    } else if contains_seq(url, "youtube.com"@) || contains_seq(url, "googlevideo.com"@) {
        "https://music.youtube.com"@
    } else {
        "https://music.163.com"@
    }
}

/// The `Referer` that a stream URL is fetched with.
pub fn referer_for_url(url: &str) -> (r: &'static str)
    ensures
        r@ == spec_referer_for(url@),
{
    if contains_str(url, "bilibili.com") || contains_str(url, "bilivideo.") {
        "https://www.bilibili.com"
    } else if contains_str(url, "youtube.com") || contains_str(url, "googlevideo.com") {
        "https://music.youtube.com"
    } else {
        "https://music.163.com"
    }
}

/// `<artist> - <title>.<ext>`, or `<title>.<ext>` without an artist, both
/// names made safe.
pub open spec fn spec_download_filename(artist: Seq<char>, title: Seq<char>, ext: Seq<char>) -> Seq<char> {
    if artist.len() == 0 {
        sanitized(title) + "."@ + ext
    } else {
        sanitized(artist) + " - "@ + sanitized(title) + "."@ + ext
    }
}

/// The name under which a download is saved.
pub fn download_filename(artist: &str, title: &str, ext: &str) -> (r: String)
    ensures
        r@ == spec_download_filename(artist@, title@, ext@),
{
    let mut r = if artist.is_empty() {
        sanitize_filename(title)
    } else {
        let mut s = sanitize_filename(artist);
        push_str(&mut s, " - ");
        push_str(&mut s, sanitize_filename(title).as_str());
        s
    };
    push_str(&mut r, ".");
    push_str(&mut r, ext);
    r
}

/// Some entry of the manifest has the id `id`.
pub open spec fn is_downloaded(manifest: Seq<DownloadedTrack>, id: Seq<char>) -> bool {
    exists|i: int| 0 <= i < manifest.len() && (#[trigger] manifest[i]).id@ == id
}

/// The first position of the entry with id `id`.
pub open spec fn download_position(manifest: Seq<DownloadedTrack>, id: Seq<char>) -> Option<int>
    decreases manifest.len(),
{
    if manifest.len() == 0 {
        None
    } else {
        match download_position(manifest.drop_last(), id) {
            Some(k) => Some(k),
            None => if manifest.last().id@ == id { Some(manifest.len() - 1) } else { None },
        }
    }
}

proof fn lemma_download_position(m: Seq<DownloadedTrack>, id: Seq<char>)
    ensures
        match download_position(m, id) {
            Some(k) => 0 <= k < m.len() && m[k].id@ == id && forall|j: int| 0 <= j < k ==> m[j].id@ != id,
            None => forall|j: int| 0 <= j < m.len() ==> m[j].id@ != id,
        },
    decreases m.len(),
{
    if m.len() > 0 {
        lemma_download_position(m.drop_last(), id);
        assert forall|j: int| 0 <= j < m.len() - 1 implies m.drop_last()[j] == m[j] by {}
    }
}

fn find_download(manifest: &Vec<DownloadedTrack>, id: &str) -> (r: Option<usize>)
    ensures
        match r {
            Some(k) => k < manifest@.len() && download_position(manifest@, id@) == Some(k as int),
            None => download_position(manifest@, id@) is None,
        },
{
    proof {
        lemma_download_position(manifest@, id@);
    }
    let mut i: usize = 0;
    while i < manifest.len()
        invariant
            i <= manifest@.len(),
            forall|j: int| 0 <= j < i ==> (#[trigger] manifest@[j]).id@ != id@,
        decreases manifest@.len() - i,
    {
        if str_eq(manifest[i].id.as_str(), id) {
            proof {
                lemma_download_position(manifest@, id@);
                match download_position(manifest@, id@) {
                    Some(k) => {
                        assert(manifest@[k].id@ == id@);
                    },
                    None => {},
                }
            }
            return Some(i);
        }
        i = i + 1;
    }
    proof {
        match download_position(manifest@, id@) {
            Some(k) => {
                assert(manifest@[k].id@ == id@);
            },
            None => {},
        }
    }
    None
}

/// Whether a track is in the manifest already; downloading it again is
/// refused with `Track already downloaded`.
pub fn check_not_downloaded(manifest: &Vec<DownloadedTrack>, track_id: &str) -> (r: Result<(), AppError>)
    ensures
        !is_downloaded(manifest@, track_id@) ==> r is Ok,
        is_downloaded(manifest@, track_id@) ==> (r matches Err(e) && (e matches AppError::Other(m) && m@
            == "Track already downloaded"@)),
{
    proof {
        lemma_download_position(manifest@, track_id@);
    }
    match find_download(manifest, track_id) {
        Some(k) => {
            assert(manifest@[k as int].id@ == track_id@);
            Err(AppError::Other(str_to_string("Track already downloaded")))
        },
        None => Ok(()),
    }
}

/// Removes the first entry with id `track_id` from the manifest and gives
/// it, so that its file can be deleted; `Download not found` when there is
/// none.
pub fn remove_download(manifest: &mut Vec<DownloadedTrack>, track_id: &str) -> (r: Result<DownloadedTrack, AppError>)
    ensures
        match download_position(old(manifest)@, track_id@) {
            Some(k) => (r matches Ok(t) && t == old(manifest)@[k]) && final(manifest)@ == old(manifest)@.remove(k),
            None => (r matches Err(e) && (e matches AppError::NotFound(m) && m@ == "Download not found"@))
                && final(manifest)@ == old(manifest)@,
        },
{
    match find_download(manifest, track_id) {
        Some(k) => Ok(manifest.remove(k)),
        None => Err(AppError::NotFound(str_to_string("Download not found"))),
    }
}

} // verus!
