use vstd::prelude::*;
use crate::lyrics::{
    LineView, LyricLine, apply_translations, line_views, merge_translation, parse_auto, parse_lrc, parse_yrc,
    spec_parse_auto, spec_parse_lrc, spec_parse_yrc,
};
use crate::netease::{NeteaseLyrics, NeteaseSearchResult};
use crate::text::{lowercase, opt_view, str_eq, to_lowercase, trim, trim_str};

verus! {

/// The lines of LRC text, when it has any.
pub open spec fn lrc_lines_if_any(text: Seq<char>) -> Option<Seq<LineView>> {
    if spec_parse_lrc(text).len() > 0 { Some(spec_parse_lrc(text)) } else { None }
}

/// The lines of LRC text (a sidecar file, an LRCLIB answer), when it has any.
pub fn lrc_lines(text: &str) -> (r: Option<Vec<LyricLine>>)
    ensures
        match lrc_lines_if_any(text@) {
            Some(ls) => r matches Some(v) && line_views(v@) == ls,
            None => r is None,
        },
{
    let lines = parse_lrc(text);
    if lines.len() > 0 { Some(lines) } else { None }
}

/// The translation that goes with NetEase lyrics: that of the word-timed
/// lyrics when there is one, else the plain one; none when it is empty.
pub open spec fn netease_translation(d: NeteaseLyrics) -> Option<Seq<char>> {
    let t = match d.ytlrc {
        Some(s) => Some(s@),
        None => opt_view(d.tlyric),
    };
    match t {
        Some(s) => if s.len() > 0 { Some(s) } else { None },
        None => None,
    }
}

/// The lines with the translation attached, when there is one.
pub open spec fn with_translation(ls: Seq<LineView>, t: Option<Seq<char>>) -> Seq<LineView> {
    match t {
        Some(s) => apply_translations(ls, spec_parse_lrc(s), spec_parse_lrc(s).len()),
        None => ls,
    }
}

/// The lines taken from NetEase lyrics: the word-timed lyrics when they are
/// not blank and give lines, else the plain lyrics (word-timed or LRC, as
/// their form says) when they give lines; the translation attached.
pub open spec fn spec_netease_lines(d: NeteaseLyrics) -> Option<Seq<LineView>> {
    let tr = netease_translation(d);
    let from_yrc = match d.yrc {
        Some(y) => if trim(y@).len() > 0 && spec_parse_yrc(y@).len() > 0 {
            Some(with_translation(spec_parse_yrc(y@), tr))
        } else {
            None
        },
        None => None,
    };
    match from_yrc {
        Some(ls) => Some(ls),
        None => match d.lrc {
            Some(l) => if spec_parse_auto(l@).len() > 0 {
                Some(with_translation(spec_parse_auto(l@), tr))
            } else {
                None
            },
            None => None,
        },
    }
}

fn translation_of(d: &NeteaseLyrics) -> (r: Option<&String>)
    ensures
        match r {
            Some(s) => netease_translation(*d) == Some(s@),
            None => netease_translation(*d) is None,
        },
{
    let t = match &d.ytlrc {
        Some(s) => Some(s),
        None => match &d.tlyric {
            Some(s) => Some(s),
            None => None,
        },
    };
    match t {
        Some(s) => if s.as_str().is_empty() { None } else { Some(s) },
        None => None,
    }
}

fn attach_translation(lines: &mut Vec<LyricLine>, t: Option<&String>)
    ensures
        line_views(final(lines)@) == with_translation(
            line_views(old(lines)@),
            match t {
                Some(s) => Some(s@),
                None => None,
            },
        ),
{
    match t {
        Some(s) => {
            merge_translation(lines, s.as_str());
        },
        None => {},
    }
}

/// The lines taken from NetEase lyrics, when any are usable.
pub fn netease_lines(d: &NeteaseLyrics) -> (r: Option<Vec<LyricLine>>)
    ensures
        match spec_netease_lines(*d) {
            Some(ls) => r matches Some(v) && line_views(v@) == ls,
            None => r is None,
        },
{
    let tr = translation_of(d);
    match &d.yrc {
        Some(y) => {
            let trimmed = trim_str(y.as_str());
            if !trimmed.as_str().is_empty() {
                let mut lines = parse_yrc(y.as_str());
                if lines.len() > 0 {
                    attach_translation(&mut lines, tr);
                    return Some(lines);
                }
            }
        },
        None => {},
    }
    match &d.lrc {
        Some(l) => {
            let mut lines = parse_auto(l.as_str());
            if lines.len() > 0 {
                attach_translation(&mut lines, tr);
                return Some(lines);
            }
            None
        },
        None => None,
    }
}

/// The first of `results` whose name, in lower case, is the title in lower
/// case.
pub open spec fn first_title_match(results: Seq<NeteaseSearchResult>, title: Seq<char>) -> Option<int>
    decreases results.len(),
{
    if results.len() == 0 {
        None
    } else {
        match first_title_match(results.drop_last(), title) {
            Some(k) => Some(k),
            None => if lowercase(results.last().name@) == lowercase(title) {
                Some(results.len() - 1)
            } else {
                None
            },
        }
    }
}

/// The search result whose song is taken for a title: the first whose name
/// equals the title ignoring case, else the first; none without results.
pub open spec fn spec_pick_match(results: Seq<NeteaseSearchResult>, title: Seq<char>) -> Option<u64> {
    if results.len() == 0 {
        None
    } else {
        match first_title_match(results, title) {
            Some(k) => Some(results[k].id),
            None => Some(results[0].id),
        }
    }
}

proof fn lemma_first_title_match(results: Seq<NeteaseSearchResult>, title: Seq<char>)
    ensures
        match first_title_match(results, title) {
            Some(k) => 0 <= k < results.len() && lowercase(results[k].name@) == lowercase(title) && forall|j: int|
                0 <= j < k ==> lowercase(results[j].name@) != lowercase(title),
            None => forall|j: int| 0 <= j < results.len() ==> lowercase(results[j].name@) != lowercase(title),
        },
    decreases results.len(),
{
    if results.len() > 0 {
        lemma_first_title_match(results.drop_last(), title);
        assert forall|j: int| 0 <= j < results.len() - 1 implies results.drop_last()[j] == results[j] by {}
    }
}

/// The NetEase song id taken for a title among search results.
pub fn pick_search_match(results: &Vec<NeteaseSearchResult>, title: &str) -> (r: Option<u64>)
    ensures
        r == spec_pick_match(results@, title@),
{
    if results.len() == 0 {
        return None;
    }
    let title_lower = to_lowercase(title);
    proof {
        lemma_first_title_match(results@, title@);
    }
    let mut i: usize = 0;
    while i < results.len()
        invariant
            i <= results@.len(),
            title_lower@ == lowercase(title@),
            forall|j: int| 0 <= j < i ==> lowercase((#[trigger] results@[j]).name@) != lowercase(title@),
        decreases results@.len() - i,
    {
        let name_lower = to_lowercase(results[i].name.as_str());
        if str_eq(name_lower.as_str(), title_lower.as_str()) {
            proof {
                lemma_first_title_match(results@, title@);
                match first_title_match(results@, title@) {
                    Some(k) => {
                        assert(lowercase(results@[k].name@) == lowercase(title@));
                    },
                    None => {},
                }
            }
            return Some(results[i].id);
        }
        i = i + 1;
    }
    proof {
        match first_title_match(results@, title@) {
            Some(k) => {
                assert(lowercase(results@[k].name@) == lowercase(title@));
            },
            None => {},
        }
    }
    Some(results[0].id)
}


// ===== the order in which sources are asked =====

/// What came back from the last source asked for lyrics.
pub enum LyricsAnswer {
    /// The request itself: whether the track is a local file (which may
    /// have a `.lrc` file beside it).
    Begin { has_audio_file: bool },
    /// The text of the `.lrc` file beside the audio file, if it was read.
    Sidecar(Option<String>),
    /// The NetEase search results, if the search worked.
    NeteaseSearch(Option<Vec<NeteaseSearchResult>>),
    /// The NetEase lyrics of a song, if they came.
    NeteaseAnswer(Option<NeteaseLyrics>),
    /// The synchronised lyrics of LRCLIB's exact match, if there were any.
    LrcLibExact(Option<String>),
    /// The synchronised lyrics of each LRCLIB search result, in order.
    LrcLibSearch(Vec<Option<String>>),
}

/// What to do next to find lyrics.
pub enum LyricsAction {
    ReadSidecar,
    SearchNetease,
    FetchNetease(u64),
    AskLrcLib,
    SearchLrcLib,
    /// Stop with these lines (none when no source had any).
    Finish(Vec<LyricLine>),
}

/// `LyricsAction` with the lines as plain values.
pub enum LyricsActionView {
    ReadSidecar,
    SearchNetease,
    FetchNetease(u64),
    AskLrcLib,
    SearchLrcLib,
    Finish(Seq<LineView>),
}

impl LyricsAction {
    pub open spec fn view_of(self) -> LyricsActionView {
        match self {
            LyricsAction::ReadSidecar => LyricsActionView::ReadSidecar,
            LyricsAction::SearchNetease => LyricsActionView::SearchNetease,
            LyricsAction::FetchNetease(id) => LyricsActionView::FetchNetease(id),
            LyricsAction::AskLrcLib => LyricsActionView::AskLrcLib,
            LyricsAction::SearchLrcLib => LyricsActionView::SearchLrcLib,
            LyricsAction::Finish(v) => LyricsActionView::Finish(line_views(v@)),
        }
    }
}

/// After the local file: NetEase, by the id given or by a search.
pub open spec fn netease_first(netease_id: Option<u64>) -> LyricsActionView {
    match netease_id {
        Some(id) => LyricsActionView::FetchNetease(id),
        None => LyricsActionView::SearchNetease,
    }
}

/// The lines of the first LRCLIB search result whose synchronised lyrics
/// give any.
pub open spec fn first_search_lines(results: Seq<Option<String>>) -> Option<Seq<LineView>>
    decreases results.len(),
{
    if results.len() == 0 {
        None
    } else {
        match results[0] {
            Some(t) => match lrc_lines_if_any(t@) {
                Some(ls) => Some(ls),
                None => first_search_lines(results.drop_first()),
            },
            None => first_search_lines(results.drop_first()),
        }
    }
}

/// The next step in finding lyrics for the track titled `title` (with the
/// NetEase id `netease_id` when it is known): the `.lrc` file beside a
/// local file first, then NetEase (the id given, or the search match), then
/// LRCLIB's exact match, then its search; each source's lines end the
/// search, and none at all gives no lines.
pub open spec fn spec_lyrics_step(netease_id: Option<u64>, title: Seq<char>, answer: LyricsAnswer) -> LyricsActionView {
    match answer {
        LyricsAnswer::Begin { has_audio_file } => if has_audio_file {
            LyricsActionView::ReadSidecar
        } else {
            netease_first(netease_id)
        },
        LyricsAnswer::Sidecar(t) => match t {
            Some(text) => match lrc_lines_if_any(text@) {
                Some(ls) => LyricsActionView::Finish(ls),
                None => netease_first(netease_id),
            },
            None => netease_first(netease_id),
        },
        LyricsAnswer::NeteaseSearch(rs) => match rs {
            Some(results) => match spec_pick_match(results@, title) {
                Some(id) => LyricsActionView::FetchNetease(id),
                None => LyricsActionView::AskLrcLib,
            },
            None => LyricsActionView::AskLrcLib,
        },
        LyricsAnswer::NeteaseAnswer(d) => match d {
            Some(data) => match spec_netease_lines(data) {
                Some(ls) => LyricsActionView::Finish(ls),
                None => LyricsActionView::AskLrcLib,
            },
            None => LyricsActionView::AskLrcLib,
        },
        LyricsAnswer::LrcLibExact(t) => match t {
            Some(text) => match lrc_lines_if_any(text@) {
                Some(ls) => LyricsActionView::Finish(ls),
                None => LyricsActionView::SearchLrcLib,
            },
            None => LyricsActionView::SearchLrcLib,
        },
        LyricsAnswer::LrcLibSearch(results) => match first_search_lines(results@) {
            Some(ls) => LyricsActionView::Finish(ls),
            None => LyricsActionView::Finish(Seq::empty()),
        },
    }
}

fn netease_first_exec(netease_id: Option<u64>) -> (r: LyricsAction)
    ensures
        r.view_of() == netease_first(netease_id),
{
    match netease_id {
        Some(id) => LyricsAction::FetchNetease(id),
        None => LyricsAction::SearchNetease,
    }
}

fn first_search_lines_exec(results: &Vec<Option<String>>) -> (r: Option<Vec<LyricLine>>)
    ensures
        match first_search_lines(results@) {
            Some(ls) => r matches Some(v) && line_views(v@) == ls,
            None => r is None,
        },
{
    let mut i: usize = 0;
    assert(results@.skip(0) =~= results@);
    while i < results.len()
        invariant
            i <= results@.len(),
            first_search_lines(results@.skip(i as int)) == first_search_lines(results@),
        decreases results@.len() - i,
    {
        assert(results@.skip(i as int)[0] == results@[i as int]);
        assert(results@.skip(i as int).drop_first() =~= results@.skip(i + 1));
        match &results[i] {
            Some(t) => {
                match lrc_lines(t.as_str()) {
                    Some(v) => {
                        return Some(v);
                    },
                    None => {},
                }
            },
            None => {},
        }
        i = i + 1;
    }
    assert(results@.skip(i as int) =~= Seq::<Option<String>>::empty());
    None
}

/// The next step in finding lyrics (see `spec_lyrics_step`).
pub fn next_lyrics_step(netease_id: Option<u64>, title: &str, answer: &LyricsAnswer) -> (r: LyricsAction)
    ensures
        r.view_of() == spec_lyrics_step(netease_id, title@, *answer),
{
    match answer {
        LyricsAnswer::Begin { has_audio_file } => {
            if *has_audio_file {
                LyricsAction::ReadSidecar
            } else {
                netease_first_exec(netease_id)
            }
        },
        LyricsAnswer::Sidecar(t) => match t {
            Some(text) => match lrc_lines(text.as_str()) {
                Some(v) => LyricsAction::Finish(v),
                None => netease_first_exec(netease_id),
            },
            None => netease_first_exec(netease_id),
        },
        LyricsAnswer::NeteaseSearch(rs) => match rs {
            Some(results) => match pick_search_match(results, title) {
                Some(id) => LyricsAction::FetchNetease(id),
                None => LyricsAction::AskLrcLib,
            },
            None => LyricsAction::AskLrcLib,
        },
        LyricsAnswer::NeteaseAnswer(d) => match d {
            Some(data) => match netease_lines(data) {
                Some(v) => LyricsAction::Finish(v),
                None => LyricsAction::AskLrcLib,
            },
            None => LyricsAction::AskLrcLib,
        },
        LyricsAnswer::LrcLibExact(t) => match t {
            Some(text) => match lrc_lines(text.as_str()) {
                Some(v) => LyricsAction::Finish(v),
                None => LyricsAction::SearchLrcLib,
            },
            None => LyricsAction::SearchLrcLib,
        },
        LyricsAnswer::LrcLibSearch(results) => match first_search_lines_exec(results) {
            Some(v) => LyricsAction::Finish(v),
            None => {
                let empty: Vec<LyricLine> = Vec::new();
                assert(line_views(empty@) =~= Seq::<LineView>::empty());
                LyricsAction::Finish(empty)
            },
        },
    }
}

} // verus!
