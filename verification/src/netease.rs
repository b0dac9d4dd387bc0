use vstd::prelude::*;
use crate::error::AppError;
use crate::decimal::{i64_to_string, int_decimal, nat_decimal, u64_to_string};
use crate::sync::models::copy_opt_string;
use crate::text::{push_str, str_eq, str_to_string};

verus! {

/// One song of a NetEase search.
pub struct NeteaseSearchResult {
    pub id: u64,
    pub name: String,
    pub artists: Vec<String>,
    pub album: String,
    pub duration_ms: u64,
    pub cover_url: Option<String>,
}

/// Where a NetEase song streams from; `audio_type` is the format (`mp3`,
/// `flac`, ...).
pub struct NeteaseSongUrl {
    pub url: Option<String>,
    pub br: u64,
    pub size: u64,
    pub audio_type: String,
}

/// The lyrics that NetEase holds for a song: plain LRC, its translation,
/// word-timed YRC and its translation.
pub struct NeteaseLyrics {
    pub lrc: Option<String>,
    pub tlyric: Option<String>,
    pub yrc: Option<String>,
    pub ytlrc: Option<String>,
}

/// The quality level that a song URL is asked for: the known levels as they
/// are, `high` as `higher`, anything else `exhigh`.
pub open spec fn spec_quality_level(quality: Seq<char>) -> Seq<char> {
    if quality == "standard"@ {
        "standard"@
    } else if quality == "high"@ || quality == "higher"@ {
        "higher"@
    } else if quality == "exhigh"@ {
        "exhigh"@
    } else if quality == "lossless"@ {
        "lossless"@
    } else if quality == "hires"@ {
        "hires"@
    } else if quality == "jyeffect"@ {
        "jyeffect"@
    } else if quality == "sky"@ {
        "sky"@
    } else if quality == "jymaster"@ {
        "jymaster"@
    } else {
        "exhigh"@
    }
}

/// The quality level that a song URL is asked for.
pub fn quality_level(quality: &str) -> (r: &'static str)
    ensures
        r@ == spec_quality_level(quality@),
{
    if str_eq(quality, "standard") {
        "standard"
    } else if str_eq(quality, "high") || str_eq(quality, "higher") {
        "higher"
    } else if str_eq(quality, "exhigh") {
        "exhigh"
    } else if str_eq(quality, "lossless") {
        "lossless"
    } else if str_eq(quality, "hires") {
        "hires"
    } else if str_eq(quality, "jyeffect") {
        "jyeffect"
    } else if str_eq(quality, "sky") {
        "sky"
    } else if str_eq(quality, "jymaster") {
        "jymaster"
    } else {
        "exhigh"
    }
}

/// The bit rate that a download URL is asked for.
pub open spec fn spec_download_bitrate(quality: Seq<char>) -> u64 {
    if quality == "standard"@ {
        128000
    } else if quality == "high"@ || quality == "higher"@ {
        192000
    } else if quality == "exhigh"@ {
        320000
    } else if quality == "lossless"@ {
        999000
    } else if quality == "hires"@ {
        1999000
    } else {
        320000
    }
}

/// The bit rate that a download URL is asked for: 320 kbit/s unless the
/// quality names another.
pub fn download_bitrate(quality: &str) -> (r: u64)
    ensures
        r == spec_download_bitrate(quality@),
{
    if str_eq(quality, "standard") {
        128000
    } else if str_eq(quality, "high") || str_eq(quality, "higher") {
        192000
    } else if str_eq(quality, "exhigh") {
        320000
    } else if str_eq(quality, "lossless") {
        999000
    } else if str_eq(quality, "hires") {
        1999000
    } else {
        320000
    }
}

/// The song ids field of a song URL request: `[<id>]`.
pub fn song_ids_field(song_id: u64) -> (r: String)
    ensures
        r@ == "["@ + nat_decimal(song_id as nat) + "]"@,
{
    let mut r = str_to_string("[");
    push_str(&mut r, u64_to_string(song_id).as_str());
    push_str(&mut r, "]");
    r
}

/// The lyrics answer is usable only with code 200.
pub open spec fn lyrics_code_error(code: i64, e: AppError) -> bool {
    e matches AppError::Api(m) && m@ == "Lyrics API code: "@ + int_decimal(code as int)
}

/// Checks the code of a lyrics answer.
pub fn check_lyrics_code(code: i64) -> (r: Result<(), AppError>)
    ensures
        code == 200 ==> r is Ok,
        code != 200 ==> (r matches Err(e) && lyrics_code_error(code, e)),
{
    if code == 200 {
        Ok(())
    } else {
        let mut m = str_to_string("Lyrics API code: ");
        push_str(&mut m, i64_to_string(code).as_str());
        Err(AppError::Api(m))
    }
}

/// What the front end gets of a NetEase song URL.
pub struct SongUrlResult {
    pub url: Option<String>,
    pub bitrate: u64,
    pub format: String,
}

/// The front end's form of a song URL: its URL, bit rate and type.
pub fn song_url_result(s: &NeteaseSongUrl) -> (r: SongUrlResult)
    ensures
        r.url == s.url,
        r.bitrate == s.br,
        r.format@ == s.audio_type@,
{
    SongUrlResult { url: copy_opt_string(&s.url), bitrate: s.br, format: s.audio_type.clone() }
}

/// A Bilibili audio stream as the front end gets it.
pub struct BiliAudioResult {
    pub url: String,
    pub bandwidth: u64,
    pub codecs: String,
}

/// A YouTube audio stream as the front end gets it.
pub struct YtAudioResult {
    pub url: String,
    pub bitrate: u64,
    pub mime_type: String,
    pub content_length: u64,
}

/// What the build carries about itself.
pub struct BuildInfo {
    pub build_uuid: String,
    pub build_timestamp: String,
    pub version: String,
}

/// The best Bilibili stream: the first one offered.
pub fn best_bili_stream(streams: Vec<BiliAudioResult>) -> (r: Result<BiliAudioResult, AppError>)
    ensures
        streams@.len() > 0 ==> (r matches Ok(b) && b == streams@[0]),
        streams@.len() == 0 ==> (r matches Err(e) && (e matches AppError::Api(m) && m@ == "No audio stream found"@)),
{
    let mut streams = streams;
    if streams.len() == 0 {
        return Err(AppError::Api(str_to_string("No audio stream found")));
    }
    Ok(streams.remove(0))
}


// ===== playlist details =====

/// The ids of `batches`, one batch after the other.
pub open spec fn flattened(batches: Seq<Seq<u64>>) -> Seq<u64>
    decreases batches.len(),
{
    if batches.len() == 0 {
        Seq::empty()
    } else {
        flattened(batches.drop_last()) + batches.last()
    }
}

/// The batches as plain sequences.
pub open spec fn batch_views(batches: Seq<Vec<u64>>) -> Seq<Seq<u64>> {
    batches.map_values(|b: Vec<u64>| b@)
}

/// The number of song ids asked for in one song-detail request.
pub const DETAIL_BATCH: usize = 300;

/// The ids of a playlist's tracks that its detail did not carry (those past
/// the first `existing`), in batches of 300 for the song-detail request:
/// every batch but the last holds 300 ids, none is empty, and together they
/// hold the missing ids in order.
pub fn missing_track_batches(track_ids: &Vec<u64>, existing: usize) -> (r: Vec<Vec<u64>>)
    ensures
        existing >= track_ids@.len() ==> r@.len() == 0,
        existing < track_ids@.len() ==> flattened(batch_views(r@)) == track_ids@.subrange(
            existing as int,
            track_ids@.len() as int,
        ),
        forall|k: int| 0 <= k < r@.len() ==> 0 < (#[trigger] r@[k])@.len() <= 300,
        forall|k: int| 0 <= k < r@.len() - 1 ==> (#[trigger] r@[k])@.len() == 300,
{
    let mut r: Vec<Vec<u64>> = Vec::new();
    if existing >= track_ids.len() {
        return r;
    }
    let mut i: usize = existing;
    while i < track_ids.len()
        invariant
            existing <= i <= track_ids@.len(),
            existing < track_ids@.len(),
            flattened(batch_views(r@)) == track_ids@.subrange(existing as int, i as int),
            forall|k: int| 0 <= k < r@.len() ==> 0 < (#[trigger] r@[k])@.len() <= 300,
            forall|k: int| 0 <= k < r@.len() - 1 ==> (#[trigger] r@[k])@.len() == 300,
            r@.len() > 0 && i < track_ids@.len() ==> r@[r@.len() - 1]@.len() == 300,
            r@.len() == 0 ==> i == existing,
            r@.len() > 0 ==> i > existing,
        decreases track_ids@.len() - i,
    {
        let end: usize = if track_ids.len() - i > DETAIL_BATCH { i + DETAIL_BATCH } else { track_ids.len() };
        let mut batch: Vec<u64> = Vec::new();
        let mut j: usize = i;
        while j < end
            invariant
                i <= j <= end <= track_ids@.len(),
                batch@ == track_ids@.subrange(i as int, j as int),
            decreases end - j,
        {
            batch.push(track_ids[j]);
            j = j + 1;
            assert(batch@ =~= track_ids@.subrange(i as int, j as int));
        }
        let ghost before = r@;
        r.push(batch);
        proof {
            assert(batch_views(r@).drop_last() =~= batch_views(before));
            assert(batch_views(r@).last() == track_ids@.subrange(i as int, end as int));
            assert(track_ids@.subrange(existing as int, i as int) + track_ids@.subrange(i as int, end as int)
                =~= track_ids@.subrange(existing as int, end as int));
            assert forall|k: int| 0 <= k < r@.len() implies 0 < (#[trigger] r@[k])@.len() <= 300 by {
                if k < before.len() {
                    assert(r@[k] == before[k]);
                }
            }
            assert forall|k: int| 0 <= k < r@.len() - 1 implies (#[trigger] r@[k])@.len() == 300 by {
                assert(r@[k] == before[k]);
            }
        }
        i = end;
    }
    r
}

} // verus!
