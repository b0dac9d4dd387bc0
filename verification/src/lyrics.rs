use vstd::prelude::*;
use crate::text::{
    opt_view, is_ws, is_ws_char, is_digit, is_decimal_digit, regex_decimal_digit, dec_value, all_digits, trim, trim_bounds,
    from_char_range, to_chars,
};

verus! {

// ===== lines, as `str::lines` splits them =====

/// The end of the line that starts at `i`: the index of the next `\n`, or
/// the length of `s`.
pub open spec fn line_end(s: Seq<char>, i: int) -> int
    decreases s.len() - i,
{
    if i < 0 || i >= s.len() || s[i] == '\n' {
        i
    } else {
        line_end(s, i + 1)
    }
}

pub proof fn lemma_line_end(s: Seq<char>, i: int)
    requires
        0 <= i <= s.len(),
    ensures
        i <= line_end(s, i) <= s.len(),
        line_end(s, i) < s.len() ==> s[line_end(s, i)] == '\n',
        forall|k: int| i <= k < line_end(s, i) ==> s[k] != '\n',
    decreases s.len() - i,
{
    if i < s.len() && s[i] != '\n' {
        lemma_line_end(s, i + 1);
    }
}

/// The lines of `s` from index `start` on: split at each `\n`, a `\r` just
/// before the `\n` dropped, no empty line after a final `\n`.
pub open spec fn lines_from(s: Seq<char>, start: int) -> Seq<Seq<char>>
    decreases s.len() - start,
{
    if start < 0 || start >= s.len() {
        Seq::empty()
    } else {
        let e = line_end(s, start);
        proof {
            lemma_line_end(s, start);
        }
        if e == s.len() {
            seq![s.subrange(start, e)]
        } else {
            let line = if e > start && s[e - 1] == '\r' { s.subrange(start, e - 1) } else { s.subrange(start, e) };
            seq![line] + lines_from(s, e + 1)
        }
    }
}

/// The lines of `s`, as `str::lines` gives them.
pub open spec fn lines(s: Seq<char>) -> Seq<Seq<char>> {
    lines_from(s, 0)
}

/// The next line from `start` on: its bounds and where the following line
/// starts (`s.len()` at the end).
fn next_line(v: &Vec<char>, start: usize) -> (r: (usize, usize, usize))
    requires
        start < v@.len(),
    ensures
        start <= r.0 <= r.1 <= v@.len(),
        r.0 == start,
        start < r.2 <= v@.len(),
        lines_from(v@, start as int) == seq![v@.subrange(r.0 as int, r.1 as int)] + lines_from(v@, r.2 as int),
{
    let mut e: usize = start;
    while e < v.len() && v[e] != '\n'
        invariant
            start <= e <= v@.len(),
            line_end(v@, start as int) == line_end(v@, e as int),
        decreases v@.len() - e,
    {
        e = e + 1;
    }
    proof {
        lemma_line_end(v@, start as int);
    }
    if e == v.len() {
        assert(lines_from(v@, e as int) =~= Seq::<Seq<char>>::empty());
        assert(seq![v@.subrange(start as int, e as int)] + Seq::<Seq<char>>::empty() =~= seq![v@.subrange(start as int, e as int)]);
        (start, e, e)
    } else {
        let line_stop = if e > start && v[e - 1] == '\r' { e - 1 } else { e };
        (start, line_stop, e + 1)
    }
}

// ===== the parsed form =====

/// One word of a word-timed lyric line.
pub struct LyricWord {
    pub start_ms: u64,
    pub duration_ms: u64,
    pub text: String,
}

/// One lyric line.
pub struct LyricLine {
    pub start_ms: u64,
    pub duration_ms: u64,
    pub text: String,
    pub translation: Option<String>,
    pub words: Vec<LyricWord>,
}

/// A word as plain values.
pub struct WordView {
    pub start_ms: u64,
    pub duration_ms: u64,
    pub text: Seq<char>,
}

/// A lyric line as plain values.
pub struct LineView {
    pub start_ms: u64,
    pub duration_ms: u64,
    pub text: Seq<char>,
    pub translation: Option<Seq<char>>,
    pub words: Seq<WordView>,
}

impl View for LyricWord {
    type V = WordView;

    open spec fn view(&self) -> WordView {
        WordView { start_ms: self.start_ms, duration_ms: self.duration_ms, text: self.text@ }
    }
}


/// The views of a list of words.
pub open spec fn word_views(ws: Seq<LyricWord>) -> Seq<WordView> {
    ws.map_values(|w: LyricWord| w@)
}

impl View for LyricLine {
    type V = LineView;

    open spec fn view(&self) -> LineView {
        LineView {
            start_ms: self.start_ms,
            duration_ms: self.duration_ms,
            text: self.text@,
            translation: opt_view(self.translation),
            words: word_views(self.words@),
        }
    }
}

/// The views of a list of lines.
pub open spec fn line_views(ls: Seq<LyricLine>) -> Seq<LineView> {
    ls.map_values(|l: LyricLine| l@)
}

impl Clone for LyricWord {
    fn clone(&self) -> (r: Self)
        ensures
            r@ == self@,
    {
        LyricWord { start_ms: self.start_ms, duration_ms: self.duration_ms, text: self.text.clone() }
    }
}

/// Copy of a list of words.
pub fn clone_words(v: &Vec<LyricWord>) -> (r: Vec<LyricWord>)
    ensures
        word_views(r@) == word_views(v@),
{
    let mut r: Vec<LyricWord> = Vec::new();
    let mut i: usize = 0;
    while i < v.len()
        invariant
            i <= v@.len(),
            word_views(r@) == word_views(v@).take(i as int),
        decreases v@.len() - i,
    {
        let w = v[i].clone();
        let ghost prev = r@;
        r.push(w);
        assert(r@ == prev.push(w));
        assert(word_views(r@) =~= word_views(prev).push(w@));
        i = i + 1;
        assert(word_views(r@) =~= word_views(v@).take(i as int));
    }
    assert(word_views(v@).take(v@.len() as int) =~= word_views(v@));
    r
}

impl Clone for LyricLine {
    fn clone(&self) -> (r: Self)
        ensures
            r@ == self@,
    {
        LyricLine {
            start_ms: self.start_ms,
            duration_ms: self.duration_ms,
            text: self.text.clone(),
            translation: match &self.translation {
                Some(t) => Some(t.clone()),
                None => None,
            },
            words: clone_words(&self.words),
        }
    }
}

// ===== LRC =====

/// The number that a tag field of decimal digits gives: its value when all
/// its digits are ASCII ones, else 0 (as `parse().unwrap_or(0)` gives it,
/// which reads ASCII digits only).
pub open spec fn field_value(d: Seq<char>) -> nat {
    if all_digits(d) { dec_value(d) } else { 0 }
}

/// `[mm:ss.xx]` or `[mm:ss.xxx]` at `p` of `l`, each place a decimal digit
/// of Unicode: minutes, seconds, milliseconds (two digits count tens of
/// milliseconds) and where the text starts.
pub open spec fn lrc_tag_at(l: Seq<char>, p: int) -> Option<(nat, nat, nat, int)> {
    if 0 <= p && p + 10 <= l.len() && l[p] == '[' && is_decimal_digit(l[p + 1]) && is_decimal_digit(l[p + 2])
        && l[p + 3] == ':' && is_decimal_digit(l[p + 4]) && is_decimal_digit(l[p + 5]) && l[p + 6] == '.'
        && is_decimal_digit(l[p + 7]) && is_decimal_digit(l[p + 8]) {
        let minutes = field_value(l.subrange(p + 1, p + 3));
        let seconds = field_value(l.subrange(p + 4, p + 6));
        if p + 11 <= l.len() && is_decimal_digit(l[p + 9]) && l[p + 10] == ']' {
            Some((minutes, seconds, field_value(l.subrange(p + 7, p + 10)), p + 11))
        } else if l[p + 9] == ']' {
            Some((minutes, seconds, field_value(l.subrange(p + 7, p + 9)) * 10, p + 10))
        } else {
            None
        }
    } else {
        None
    }
}

/// The leftmost tag of `l` at or after `p`.
pub open spec fn lrc_tag_from(l: Seq<char>, p: int) -> Option<(nat, nat, nat, int)>
    decreases l.len() - p,
{
    if p < 0 || p + 10 > l.len() {
        None
    } else {
        match lrc_tag_at(l, p) {
            Some(m) => Some(m),
            None => lrc_tag_from(l, p + 1),
        }
    }
}

/// What one line contributes: its start time and its trimmed text, unless it
/// has no tag or no text.
pub open spec fn lrc_entry(l: Seq<char>) -> Option<(u64, Seq<char>)> {
    match lrc_tag_from(l, 0) {
        Some((minutes, seconds, ms, text_start)) => {
            let text = trim(l.subrange(text_start, l.len() as int));
            if text.len() == 0 {
                None
            } else {
                Some(((minutes * 60000 + seconds * 1000 + ms) as u64, text))
            }
        },
        None => None,
    }
}

/// The entries of a list of lines, in order.
pub open spec fn lrc_entries(ls: Seq<Seq<char>>) -> Seq<(u64, Seq<char>)>
    decreases ls.len(),
{
    if ls.len() == 0 {
        Seq::empty()
    } else {
        let first = match lrc_entry(ls[0]) {
            Some(e) => seq![e],
            None => Seq::empty(),
        };
        first + lrc_entries(ls.drop_first())
    }
}

/// `a - b` wrapped to 64 bits.
pub open spec fn wrapping_sub_u64(a: u64, b: u64) -> u64 {
    if a >= b { (a - b) as u64 } else { (a - b + 0x1_0000_0000_0000_0000) as u64 }
}

/// Timed lines from entries: each lasts until the next one starts (the
/// difference wrapped to 64 bits), the last one 5000 ms.
pub open spec fn timed_lines(es: Seq<(u64, Seq<char>)>) -> Seq<LineView> {
    Seq::new(es.len(), |i: int| LineView {
        start_ms: es[i].0,
        duration_ms: if i + 1 < es.len() { wrapping_sub_u64(es[i + 1].0, es[i].0) } else { 5000 },
        text: es[i].1,
        translation: None,
        words: Seq::empty(),
    })
}

/// The lines that `parse_lrc` reads from `content`.
pub open spec fn spec_parse_lrc(content: Seq<char>) -> Seq<LineView> {
    timed_lines(lrc_entries(lines(content)))
}

proof fn lemma_lrc_entries_have_text(ls: Seq<Seq<char>>)
    ensures
        forall|i: int| 0 <= i < lrc_entries(ls).len() ==> (#[trigger] lrc_entries(ls)[i]).1.len() > 0,
    decreases ls.len(),
{
    if ls.len() > 0 {
        lemma_lrc_entries_have_text(ls.drop_first());
        let first = match lrc_entry(ls[0]) {
            Some(e) => seq![e],
            None => Seq::<(u64, Seq<char>)>::empty(),
        };
        let rest = lrc_entries(ls.drop_first());
        assert(lrc_entries(ls) == first + rest);
        assert forall|i: int| 0 <= i < lrc_entries(ls).len() implies (#[trigger] lrc_entries(ls)[i]).1.len() > 0 by {
            if i < first.len() {
                assert(lrc_entries(ls)[i] == first[i]);
            } else {
                assert(lrc_entries(ls)[i] == rest[i - first.len()]);
            }
        }
    }
}

/// Every line read from LRC text has some text, and each lasts until the
/// next one starts.
pub proof fn law_lrc_lines_have_text(content: Seq<char>)
    ensures
        forall|i: int| 0 <= i < spec_parse_lrc(content).len() ==> (#[trigger] spec_parse_lrc(content)[i]).text.len() > 0,
        forall|i: int|
            0 <= i < spec_parse_lrc(content).len() - 1 ==> (#[trigger] spec_parse_lrc(content)[i]).start_ms
                + spec_parse_lrc(content)[i].duration_ms == spec_parse_lrc(content)[i + 1].start_ms
                || spec_parse_lrc(content)[i + 1].start_ms < spec_parse_lrc(content)[i].start_ms,
{
    lemma_lrc_entries_have_text(lines(content));
    let es = lrc_entries(lines(content));
    assert forall|i: int| 0 <= i < spec_parse_lrc(content).len() implies (#[trigger] spec_parse_lrc(content)[i]).text.len() > 0 by {
        assert(spec_parse_lrc(content)[i].text == es[i].1);
    }
}

fn lrc_tag_at_exec(l: &Vec<char>, p: usize) -> (r: Option<(u64, u64, u64, usize)>)
    ensures
        match r {
            Some((a, b, c, d)) => lrc_tag_at(l@, p as int) == Some((a as nat, b as nat, c as nat, d as int))
                && a <= 99 && b <= 99 && c <= 999 && d <= l@.len(),
            None => lrc_tag_at(l@, p as int) is None,
        },
{
    if p > l.len() || l.len() - p < 10 {
        return None;
    }
    if !(l[p] == '[' && regex_decimal_digit(l[p + 1]) && regex_decimal_digit(l[p + 2]) && l[p + 3] == ':'
        && regex_decimal_digit(l[p + 4]) && regex_decimal_digit(l[p + 5]) && l[p + 6] == '.'
        && regex_decimal_digit(l[p + 7]) && regex_decimal_digit(l[p + 8])) {
        return None;
    }
    let minutes = two_field(l, p + 1);
    let seconds = two_field(l, p + 4);
    if l.len() - p >= 11 && regex_decimal_digit(l[p + 9]) && l[p + 10] == ']' {
        let ghost s = l@.subrange(p + 7, p + 10);
        let ms = if is_ascii_digit(l[p + 7]) && is_ascii_digit(l[p + 8]) && is_ascii_digit(l[p + 9]) {
            proof {
                assert(s.drop_last() =~= l@.subrange(p + 7, p + 9));
                assert(all_digits(s));
            }
            two_digits(l, p + 7) * 10 + digit_of(l[p + 9])
        } else {
            proof {
                assert(!all_digits(s)) by {
                    if !is_digit(l@[p + 7]) {
                        assert(s[0] == l@[p + 7]);
                    } else if !is_digit(l@[p + 8]) {
                        assert(s[1] == l@[p + 8]);
                    } else {
                        assert(s[2] == l@[p + 9]);
                    }
                }
            }
            0
        };
        Some((minutes, seconds, ms, p + 11))
    } else if l[p + 9] == ']' {
        let ms = two_field(l, p + 7) * 10;
        Some((minutes, seconds, ms, p + 10))
    } else {
        None
    }
}

fn is_ascii_digit(c: char) -> (r: bool)
    ensures
        r == is_digit(c),
{
    '0' <= c && c <= '9'
}

/// The number that the two-digit field at `i` gives.
fn two_field(l: &Vec<char>, i: usize) -> (r: u64)
    requires
        i + 2 <= l.len(),
    ensures
        r == field_value(l@.subrange(i as int, i + 2)),
        r <= 99,
{
    let ghost s = l@.subrange(i as int, i + 2);
    if is_ascii_digit(l[i]) && is_ascii_digit(l[i + 1]) {
        assert(all_digits(s));
        two_digits(l, i)
    } else {
        assert(!all_digits(s)) by {
            if !is_digit(l@[i as int]) {
                assert(s[0] == l@[i as int]);
            } else {
                assert(s[1] == l@[i + 1]);
            }
        }
        0
    }
}

fn digit_of(c: char) -> (r: u64)
    requires
        is_digit(c),
    ensures
        r == crate::text::digit_val(c),
        r <= 9,
{
    (c as u32 - '0' as u32) as u64
}

/// The value of the two digits at `i`.
fn two_digits(l: &Vec<char>, i: usize) -> (r: u64)
    requires
        i + 2 <= l.len(),
        is_digit(l@[i as int]),
        is_digit(l@[i + 1]),
    ensures
        r == dec_value(l@.subrange(i as int, i + 2)),
        r <= 99,
{
    let ghost s = l@.subrange(i as int, i + 2);
    assert(s.drop_last().drop_last() =~= Seq::<char>::empty());
    assert(s.drop_last() =~= seq![l@[i as int]]);
    assert(dec_value(s.drop_last().drop_last()) == 0);
    assert(dec_value(s.drop_last()) == crate::text::digit_val(l@[i as int]));
    assert(dec_value(s) == dec_value(s.drop_last()) * 10 + crate::text::digit_val(l@[i + 1]));
    digit_of(l[i]) * 10 + digit_of(l[i + 1])
}

/// `lrc_tag_from`.
fn lrc_tag_from_exec(l: &Vec<char>, start: usize) -> (r: Option<(u64, u64, u64, usize)>)
    ensures
        match r {
            Some((a, b, c, d)) => lrc_tag_from(l@, start as int) == Some((a as nat, b as nat, c as nat, d as int))
                && a <= 99 && b <= 99 && c <= 999 && d <= l@.len(),
            None => lrc_tag_from(l@, start as int) is None,
        },
{
    let mut p = start;
    while p <= l.len() && l.len() - p >= 10
        invariant
            start <= p,
            lrc_tag_from(l@, p as int) == lrc_tag_from(l@, start as int),
        decreases l@.len() - p,
    {
        match lrc_tag_at_exec(l, p) {
            Some(m) => {
                return Some(m);
            },
            None => {},
        }
        p = p + 1;
    }
    None
}

/// `lrc_entry`.
fn lrc_entry_exec(l: &Vec<char>) -> (r: Option<(u64, String)>)
    ensures
        match r {
            Some((t, s)) => lrc_entry(l@) == Some((t, s@)),
            None => lrc_entry(l@) is None,
        },
{
    match lrc_tag_from_exec(l, 0) {
        Some((minutes, seconds, ms, text_start)) => {
            let (a, b) = trim_bounds(l.as_slice(), text_start, l.len());
            if a == b {
                return None;
            }
            let text = from_char_range(l.as_slice(), a, b);
            Some((minutes * 60000 + seconds * 1000 + ms, text))
        },
        None => None,
    }
}

/// Parses standard LRC lyrics: each line whose first `[mm:ss.xx]` or
/// `[mm:ss.xxx]` tag is followed by text gives one line; each lasts until the
/// next one, the last one 5000 ms.
pub fn parse_lrc(content: &str) -> (r: Vec<LyricLine>)
    ensures
        line_views(r@) == spec_parse_lrc(content@),
{
    let v = to_chars(content);
    let mut entries: Vec<(u64, String)> = Vec::new();
    let mut pos: usize = 0;
    while pos < v.len()
        invariant
            pos <= v@.len(),
            v@ == content@,
            entries@.map_values(|e: (u64, String)| (e.0, e.1@)) + lrc_entries(lines_from(v@, pos as int))
                == lrc_entries(lines(v@)),
        decreases v@.len() - pos,
    {
        let (a, b, next) = next_line(&v, pos);
        let mut line: Vec<char> = Vec::new();
        let mut k = a;
        while k < b
            invariant
                a <= k <= b <= v@.len(),
                line@ == v@.subrange(a as int, k as int),
            decreases b - k,
        {
            line.push(v[k]);
            k = k + 1;
            assert(line@ =~= v@.subrange(a as int, k as int));
        }
        let ghost ls = lines_from(v@, pos as int);
        assert(ls[0] == line@);
        assert(ls.drop_first() =~= lines_from(v@, next as int));
        let ghost prev = entries@.map_values(|e: (u64, String)| (e.0, e.1@));
        match lrc_entry_exec(&line) {
            Some(e) => {
                entries.push(e);
                assert(entries@.map_values(|e: (u64, String)| (e.0, e.1@)) =~= prev + seq![lrc_entry(line@)->0]);
            },
            None => {},
        }
        pos = next;
    }
    assert(lines_from(v@, pos as int) =~= Seq::<Seq<char>>::empty());
    let ghost es = lrc_entries(lines(content@));
    assert(entries@.map_values(|e: (u64, String)| (e.0, e.1@)) =~= es);
    let mut out: Vec<LyricLine> = Vec::new();
    let mut i: usize = 0;
    while i < entries.len()
        invariant
            i <= entries@.len(),
            entries@.map_values(|e: (u64, String)| (e.0, e.1@)) == es,
            line_views(out@) == timed_lines(es).take(i as int),
        decreases entries@.len() - i,
    {
        let start = entries[i].0;
        let duration = if i + 1 < entries.len() { entries[i + 1].0.wrapping_sub(start) } else { 5000 };
        let ghost prev = line_views(out@);
        out.push(LyricLine {
            start_ms: start,
            duration_ms: duration,
            text: entries[i].1.clone(),
            translation: None,
            words: Vec::new(),
        });
        proof {
            assert(es[i as int] == (entries@[i as int].0, entries@[i as int].1@));
            if i + 1 < entries@.len() {
                assert(es[i + 1] == (entries@[i + 1].0, entries@[i + 1].1@));
            }
            assert(word_views(Seq::<LyricWord>::empty()) =~= Seq::<WordView>::empty());
            assert(line_views(out@) =~= prev.push(timed_lines(es)[i as int]));
        }
        i = i + 1;
    }
    assert(timed_lines(es).take(entries@.len() as int) =~= timed_lines(es));
    out
}

// ===== runs of characters =====

/// The character classes that the word-timed format uses.
pub enum CharClass {
    /// `\d`: a decimal digit of Unicode.
    Digit,
    /// `\s`: white space.
    Space,
    /// `[-\d]`: a digit or a minus sign.
    DashDigit,
    /// `[^()\n\r]`: anything but brackets and line breaks.
    WordText,
}

pub open spec fn in_class(c: char, k: CharClass) -> bool {
    match k {
        CharClass::Digit => is_decimal_digit(c),
        CharClass::Space => is_ws(c),
        CharClass::DashDigit => is_decimal_digit(c) || c == '-',
        CharClass::WordText => c != '(' && c != ')' && c != '\n' && c != '\r',
    }
}

fn in_class_exec(c: char, k: &CharClass) -> (r: bool)
    ensures
        r == in_class(c, *k),
{
    match k {
        CharClass::Digit => regex_decimal_digit(c),
        CharClass::Space => is_ws_char(c),
        CharClass::DashDigit => regex_decimal_digit(c) || c == '-',
        CharClass::WordText => c != '(' && c != ')' && c != '\n' && c != '\r',
    }
}

/// The end of the longest run of class `k` that starts at `i`.
pub open spec fn run_end(l: Seq<char>, i: int, k: CharClass) -> int
    decreases l.len() - i,
{
    if 0 <= i < l.len() && in_class(l[i], k) {
        run_end(l, i + 1, k)
    } else {
        i
    }
}

pub proof fn lemma_run_end(l: Seq<char>, i: int, k: CharClass)
    requires
        0 <= i <= l.len(),
    ensures
        i <= run_end(l, i, k) <= l.len(),
        forall|j: int| i <= j < run_end(l, i, k) ==> in_class(#[trigger] l[j], k),
    decreases l.len() - i,
{
    if i < l.len() && in_class(l[i], k) {
        lemma_run_end(l, i + 1, k);
    }
}

fn run_end_exec(l: &Vec<char>, i: usize, k: CharClass) -> (r: usize)
    requires
        i <= l@.len(),
    ensures
        r as int == run_end(l@, i as int, k),
        i <= r <= l@.len(),
{
    proof {
        lemma_run_end(l@, i as int, k);
    }
    let mut j = i;
    while j < l.len() && in_class_exec(l[j], &k)
        invariant
            i <= j <= l@.len(),
            run_end(l@, j as int, k) == run_end(l@, i as int, k),
        decreases l@.len() - j,
    {
        j = j + 1;
    }
    j
}

/// The value of a run of digits, 0 when it overflows 64 bits (as
/// `parse().unwrap_or(0)` gives it).
pub open spec fn digits_or_zero(d: Seq<char>) -> u64 {
    match crate::decimal::spec_parse_u64(d) {
        Some(n) => n,
        None => 0,
    }
}

fn digits_or_zero_exec(l: &Vec<char>, a: usize, b: usize) -> (r: u64)
    requires
        a <= b <= l@.len(),
    ensures
        r == digits_or_zero(l@.subrange(a as int, b as int)),
{
    let s = from_char_range(l.as_slice(), a, b);
    match crate::decimal::parse_u64(s.as_str()) {
        Some(n) => n,
        None => 0,
    }
}

// ===== word-timed (YRC) lines =====

/// `[start,duration]` followed by at least one character, at `p` of `l`:
/// the two digit runs and where the rest of the line starts.
pub open spec fn yrc_head_at(l: Seq<char>, p: int) -> Option<(Seq<char>, Seq<char>, int)> {
    if 0 <= p < l.len() && l[p] == '[' {
        let q1 = run_end(l, p + 1, CharClass::Digit);
        if q1 > p + 1 && q1 < l.len() && l[q1] == ',' {
            let q2 = run_end(l, q1 + 1, CharClass::Space);
            let q3 = run_end(l, q2, CharClass::Digit);
            if q3 > q2 && q3 + 1 < l.len() && l[q3] == ']' {
                Some((l.subrange(p + 1, q1), l.subrange(q2, q3), q3 + 1))
            } else {
                None
            }
        } else {
            None
        }
    } else {
        None
    }
}

/// The leftmost line head at or after `p`.
pub open spec fn yrc_head_from(l: Seq<char>, p: int) -> Option<(Seq<char>, Seq<char>, int)>
    decreases l.len() - p,
{
    if p < 0 || p >= l.len() {
        None
    } else {
        match yrc_head_at(l, p) {
            Some(h) => Some(h),
            None => yrc_head_from(l, p + 1),
        }
    }
}

/// `(start,duration,flag)text` at `p` of `r`: the start and duration digits,
/// the text, and where the match ends.
pub open spec fn yrc_word_at(r: Seq<char>, p: int) -> Option<(Seq<char>, Seq<char>, Seq<char>, int)> {
    if 0 <= p < r.len() && r[p] == '(' {
        let q1 = run_end(r, p + 1, CharClass::Digit);
        if q1 > p + 1 && q1 < r.len() && r[q1] == ',' {
            let q2 = run_end(r, q1 + 1, CharClass::Space);
            let q3 = run_end(r, q2, CharClass::Digit);
            if q3 > q2 && q3 < r.len() && r[q3] == ',' {
                let q4 = run_end(r, q3 + 1, CharClass::Space);
                let q5 = run_end(r, q4, CharClass::DashDigit);
                if q5 > q4 && q5 < r.len() && r[q5] == ')' {
                    let q6 = run_end(r, q5 + 1, CharClass::WordText);
                    if q6 > q5 + 1 {
                        Some((r.subrange(p + 1, q1), r.subrange(q2, q3), r.subrange(q5 + 1, q6), q6))
                    } else {
                        None
                    }
                } else {
                    None
                }
            } else {
                None
            }
        } else {
            None
        }
    } else {
        None
    }
}

pub proof fn lemma_yrc_word_at(r: Seq<char>, p: int)
    ensures
        yrc_word_at(r, p) matches Some(w) ==> p < w.3 <= r.len(),
{
    if 0 <= p < r.len() && r[p] == '(' {
        lemma_run_end(r, p + 1, CharClass::Digit);
        let q1 = run_end(r, p + 1, CharClass::Digit);
        if q1 > p + 1 && q1 < r.len() && r[q1] == ',' {
            lemma_run_end(r, q1 + 1, CharClass::Space);
            let q2 = run_end(r, q1 + 1, CharClass::Space);
            lemma_run_end(r, q2, CharClass::Digit);
            let q3 = run_end(r, q2, CharClass::Digit);
            if q3 > q2 && q3 < r.len() && r[q3] == ',' {
                lemma_run_end(r, q3 + 1, CharClass::Space);
                let q4 = run_end(r, q3 + 1, CharClass::Space);
                lemma_run_end(r, q4, CharClass::DashDigit);
                let q5 = run_end(r, q4, CharClass::DashDigit);
                if q5 > q4 && q5 < r.len() && r[q5] == ')' {
                    lemma_run_end(r, q5 + 1, CharClass::WordText);
                }
            }
        }
    }
}

/// The words of `r` from `p` on: each leftmost match, the search going on
/// where the match ends.
pub open spec fn yrc_words_from(r: Seq<char>, p: int) -> Seq<WordView>
    decreases r.len() - p,
{
    if p < 0 || p >= r.len() {
        Seq::empty()
    } else {
        proof {
            lemma_yrc_word_at(r, p);
        }
        match yrc_word_at(r, p) {
            Some((s, d, t, e)) => seq![WordView { start_ms: digits_or_zero(s), duration_ms: digits_or_zero(d), text: t }]
                + yrc_words_from(r, e),
            None => yrc_words_from(r, p + 1),
        }
    }
}

/// The concatenated texts of a list of words.
pub open spec fn words_text(ws: Seq<WordView>) -> Seq<char>
    decreases ws.len(),
{
    if ws.len() == 0 {
        Seq::empty()
    } else {
        words_text(ws.drop_last()) + ws.last().text
    }
}

/// What one line contributes: a line whose head is followed by words whose
/// joined text is not blank.
pub open spec fn yrc_line(l: Seq<char>) -> Option<LineView> {
    match yrc_head_from(l, 0) {
        Some((s, d, rest_start)) => {
            let rest = l.subrange(rest_start, l.len() as int);
            let words = yrc_words_from(rest, 0);
            let text = words_text(words);
            if trim(text).len() == 0 {
                None
            } else {
                Some(LineView {
                    start_ms: digits_or_zero(s),
                    duration_ms: digits_or_zero(d),
                    text,
                    translation: None,
                    words,
                })
            }
        },
        None => None,
    }
}

/// The lines of a list of lines that are word-timed, in order.
pub open spec fn yrc_lines(ls: Seq<Seq<char>>) -> Seq<LineView>
    decreases ls.len(),
{
    if ls.len() == 0 {
        Seq::empty()
    } else {
        let first = match yrc_line(ls[0]) {
            Some(v) => seq![v],
            None => Seq::empty(),
        };
        first + yrc_lines(ls.drop_first())
    }
}

/// The lines that `parse_yrc` reads from `content`.
pub open spec fn spec_parse_yrc(content: Seq<char>) -> Seq<LineView> {
    yrc_lines(lines(content))
}

fn yrc_head_at_exec(l: &Vec<char>, p: usize) -> (r: Option<(usize, usize, usize, usize, usize)>)
    requires
        p < l.len(),
    ensures
        match r {
            Some((a, b, c, d, e)) => a <= b <= l@.len() && c <= d <= l@.len() && e <= l@.len()
                && yrc_head_at(l@, p as int) == Some((l@.subrange(a as int, b as int), l@.subrange(c as int, d as int), e as int)),
            None => yrc_head_at(l@, p as int) is None,
        },
{
    if l[p] != '[' {
        return None;
    }
    let q1 = run_end_exec(l, p + 1, CharClass::Digit);
    if !(q1 > p + 1 && q1 < l.len() && l[q1] == ',') {
        return None;
    }
    let q2 = run_end_exec(l, q1 + 1, CharClass::Space);
    let q3 = run_end_exec(l, q2, CharClass::Digit);
    if !(q3 > q2 && q3 < l.len() && q3 + 1 < l.len() && l[q3] == ']') {
        return None;
    }
    Some((p + 1, q1, q2, q3, q3 + 1))
}

fn yrc_word_at_exec(r: &Vec<char>, p: usize) -> (res: Option<(usize, usize, usize, usize, usize, usize)>)
    requires
        p < r.len(),
    ensures
        match res {
            Some((a, b, c, d, e, f)) => a <= b <= r@.len() && c <= d <= r@.len() && e <= f <= r@.len() && p < f
                && yrc_word_at(r@, p as int) == Some((r@.subrange(a as int, b as int), r@.subrange(c as int, d as int),
                    r@.subrange(e as int, f as int), f as int)),
            None => yrc_word_at(r@, p as int) is None,
        },
{
    if r[p] != '(' {
        return None;
    }
    let q1 = run_end_exec(r, p + 1, CharClass::Digit);
    if !(q1 > p + 1 && q1 < r.len() && r[q1] == ',') {
        return None;
    }
    let q2 = run_end_exec(r, q1 + 1, CharClass::Space);
    let q3 = run_end_exec(r, q2, CharClass::Digit);
    if !(q3 > q2 && q3 < r.len() && r[q3] == ',') {
        return None;
    }
    let q4 = run_end_exec(r, q3 + 1, CharClass::Space);
    let q5 = run_end_exec(r, q4, CharClass::DashDigit);
    if !(q5 > q4 && q5 < r.len() && r[q5] == ')') {
        return None;
    }
    let q6 = run_end_exec(r, q5 + 1, CharClass::WordText);
    if !(q6 > q5 + 1) {
        return None;
    }
    Some((p + 1, q1, q2, q3, q5 + 1, q6))
}

/// The words of `r`, in order.
fn yrc_words_exec(r: &Vec<char>) -> (res: Vec<LyricWord>)
    ensures
        word_views(res@) == yrc_words_from(r@, 0),
{
    let mut out: Vec<LyricWord> = Vec::new();
    let mut p: usize = 0;
    while p < r.len()
        invariant
            p <= r@.len(),
            word_views(out@) + yrc_words_from(r@, p as int) == yrc_words_from(r@, 0),
        decreases r@.len() - p,
    {
        let ghost prev = word_views(out@);
        match yrc_word_at_exec(r, p) {
            Some((a, b, c, d, e, f)) => {
                let w = LyricWord {
                    start_ms: digits_or_zero_exec(r, a, b),
                    duration_ms: digits_or_zero_exec(r, c, d),
                    text: from_char_range(r.as_slice(), e, f),
                };
                out.push(w);
                assert(word_views(out@) =~= prev.push(w@));
                assert(word_views(out@) + yrc_words_from(r@, f as int) =~= prev + yrc_words_from(r@, p as int));
                p = f;
            },
            None => {
                p = p + 1;
            },
        }
    }
    assert(yrc_words_from(r@, p as int) =~= Seq::<WordView>::empty());
    assert(word_views(out@) + Seq::<WordView>::empty() =~= word_views(out@));
    out
}

/// `yrc_head_from(l, 0)`.
fn yrc_head_from_exec(l: &Vec<char>) -> (r: Option<(usize, usize, usize, usize, usize)>)
    ensures
        match r {
            Some((a, b, c, d, e)) => a <= b <= l@.len() && c <= d <= l@.len() && e <= l@.len()
                && yrc_head_from(l@, 0) == Some((l@.subrange(a as int, b as int), l@.subrange(c as int, d as int), e as int)),
            None => yrc_head_from(l@, 0) is None,
        },
{
    let mut p: usize = 0;
    while p < l.len()
        invariant
            p <= l@.len(),
            yrc_head_from(l@, p as int) == yrc_head_from(l@, 0),
        decreases l@.len() - p,
    {
        match yrc_head_at_exec(l, p) {
            Some(h) => {
                return Some(h);
            },
            None => {},
        }
        p = p + 1;
    }
    None
}

/// `yrc_line`.
fn yrc_line_exec(l: &Vec<char>) -> (res: Option<LyricLine>)
    ensures
        match res {
            Some(x) => yrc_line(l@) == Some(x@),
            None => yrc_line(l@) is None,
        },
{
    let head = yrc_head_from_exec(l);
    match head {
        None => None,
        Some((a, b, c, d, e)) => {
            let mut rest: Vec<char> = Vec::new();
            let mut k = e;
            while k < l.len()
                invariant
                    e <= k <= l@.len(),
                    rest@ == l@.subrange(e as int, k as int),
                decreases l@.len() - k,
            {
                rest.push(l[k]);
                k = k + 1;
                assert(rest@ =~= l@.subrange(e as int, k as int));
            }
            let words = yrc_words_exec(&rest);
            let mut text = String::new();
            let mut i: usize = 0;
            while i < words.len()
                invariant
                    i <= words@.len(),
                    text@ == words_text(word_views(words@).take(i as int)),
                decreases words@.len() - i,
            {
                crate::text::push_str(&mut text, words[i].text.as_str());
                i = i + 1;
                assert(word_views(words@).take(i as int).drop_last() =~= word_views(words@).take(i - 1));
            }
            assert(word_views(words@).take(words@.len() as int) =~= word_views(words@));
            let tv = to_chars(text.as_str());
            let (ta, tb) = trim_bounds(tv.as_slice(), 0, tv.len());
            assert(tv@.subrange(0, tv@.len() as int) =~= tv@);
            if ta == tb {
                return None;
            }
            Some(LyricLine {
                start_ms: digits_or_zero_exec(l, a, b),
                duration_ms: digits_or_zero_exec(l, c, d),
                text,
                translation: None,
                words,
            })
        },
    }
}

/// Parses word-timed lyrics: each line `[start,duration]` followed by words
/// `(start,duration,flag)text` gives one line whose text is the words joined,
/// unless that text is blank.
pub fn parse_yrc(content: &str) -> (r: Vec<LyricLine>)
    ensures
        line_views(r@) == spec_parse_yrc(content@),
{
    let v = to_chars(content);
    let mut out: Vec<LyricLine> = Vec::new();
    let mut pos: usize = 0;
    while pos < v.len()
        invariant
            pos <= v@.len(),
            v@ == content@,
            line_views(out@) + yrc_lines(lines_from(v@, pos as int)) == yrc_lines(lines(v@)),
        decreases v@.len() - pos,
    {
        let (a, b, next) = next_line(&v, pos);
        let mut line: Vec<char> = Vec::new();
        let mut k = a;
        while k < b
            invariant
                a <= k <= b <= v@.len(),
                line@ == v@.subrange(a as int, k as int),
            decreases b - k,
        {
            line.push(v[k]);
            k = k + 1;
            assert(line@ =~= v@.subrange(a as int, k as int));
        }
        let ghost ls = lines_from(v@, pos as int);
        assert(ls[0] == line@);
        assert(ls.drop_first() =~= lines_from(v@, next as int));
        let ghost prev = line_views(out@);
        match yrc_line_exec(&line) {
            Some(x) => {
                out.push(x);
                assert(line_views(out@) =~= prev + seq![yrc_line(line@)->0]);
            },
            None => {},
        }
        pos = next;
    }
    assert(lines_from(v@, pos as int) =~= Seq::<Seq<char>>::empty());
    assert(line_views(out@) =~= yrc_lines(lines(content@)));
    out
}

// ===== format detection =====

/// `[start,duration](start,` at `p`: the mark of word-timed lyrics.
pub open spec fn yrc_marker_at(s: Seq<char>, p: int) -> bool {
    0 <= p < s.len() && s[p] == '[' && {
        let q1 = run_end(s, p + 1, CharClass::Digit);
        q1 > p + 1 && q1 < s.len() && s[q1] == ',' && {
            let q2 = run_end(s, q1 + 1, CharClass::Space);
            let q3 = run_end(s, q2, CharClass::Digit);
            q3 > q2 && q3 + 1 < s.len() && s[q3] == ']' && s[q3 + 1] == '(' && {
                let q4 = run_end(s, q3 + 2, CharClass::Digit);
                q4 > q3 + 2 && q4 < s.len() && s[q4] == ','
            }
        }
    }
}

/// Whether `s` holds the mark of word-timed lyrics anywhere.
pub open spec fn has_yrc_marker(s: Seq<char>) -> bool {
    exists|p: int| yrc_marker_at(s, p)
}

fn yrc_marker_at_exec(s: &Vec<char>, p: usize) -> (r: bool)
    requires
        p < s.len(),
    ensures
        r == yrc_marker_at(s@, p as int),
{
    if s[p] != '[' {
        return false;
    }
    let q1 = run_end_exec(s, p + 1, CharClass::Digit);
    if !(q1 > p + 1 && q1 < s.len() && s[q1] == ',') {
        return false;
    }
    let q2 = run_end_exec(s, q1 + 1, CharClass::Space);
    let q3 = run_end_exec(s, q2, CharClass::Digit);
    if !(q3 > q2 && q3 < s.len() && q3 + 1 < s.len() && s[q3] == ']' && s[q3 + 1] == '(') {
        return false;
    }
    if q3 + 2 > s.len() {
        return false;
    }
    let q4 = run_end_exec(s, q3 + 2, CharClass::Digit);
    q4 > q3 + 2 && q4 < s.len() && s[q4] == ','
}

/// The lines that `parse_auto` reads: word-timed when the mark occurs,
/// standard LRC otherwise.
pub open spec fn spec_parse_auto(content: Seq<char>) -> Seq<LineView> {
    if has_yrc_marker(content) { spec_parse_yrc(content) } else { spec_parse_lrc(content) }
}

/// Parses word-timed lyrics when their mark occurs, standard LRC otherwise.
pub fn parse_auto(content: &str) -> (r: Vec<LyricLine>)
    ensures
        line_views(r@) == spec_parse_auto(content@),
{
    let v = to_chars(content);
    let mut p: usize = 0;
    while p < v.len()
        invariant
            p <= v@.len(),
            v@ == content@,
            forall|k: int| 0 <= k < p ==> !yrc_marker_at(v@, k),
        decreases v@.len() - p,
    {
        if yrc_marker_at_exec(&v, p) {
            return parse_yrc(content);
        }
        p = p + 1;
    }
    parse_lrc(content)
}

// ===== translations =====

/// How far apart two times are.
pub open spec fn time_distance(a: u64, b: u64) -> int {
    if a >= b { a - b } else { b - a }
}

/// The first of the first `n` lines whose start is closest to `t`.
pub open spec fn closest_line_upto(ls: Seq<LineView>, t: u64, n: nat) -> Option<int>
    decreases n,
{
    if n == 0 {
        None
    } else {
        match closest_line_upto(ls, t, (n - 1) as nat) {
            Some(b) => if time_distance(ls[n - 1].start_ms, t) < time_distance(ls[b].start_ms, t) { Some(n - 1) } else { Some(b) },
            None => Some(n - 1),
        }
    }
}

/// The lines after one translated line is applied: the closest line takes
/// the translation when it starts less than 450 ms away.
pub open spec fn apply_translation(ls: Seq<LineView>, tl: LineView) -> Seq<LineView> {
    match closest_line_upto(ls, tl.start_ms, ls.len()) {
        Some(i) => if time_distance(ls[i].start_ms, tl.start_ms) < 450 {
            ls.update(i, LineView { translation: Some(tl.text), ..ls[i] })
        } else {
            ls
        },
        None => ls,
    }
}

/// The lines after the first `k` translated lines are applied in order.
pub open spec fn apply_translations(ls: Seq<LineView>, trans: Seq<LineView>, k: nat) -> Seq<LineView>
    decreases k,
{
    if k == 0 {
        ls
    } else {
        apply_translation(apply_translations(ls, trans, (k - 1) as nat), trans[k - 1])
    }
}

proof fn lemma_closest_line_upto(ls: Seq<LineView>, t: u64, n: nat)
    requires
        n <= ls.len(),
    ensures
        closest_line_upto(ls, t, n) matches Some(b) ==> 0 <= b < n,
        n > 0 ==> closest_line_upto(ls, t, n) is Some,
    decreases n,
{
    if n > 0 {
        lemma_closest_line_upto(ls, t, (n - 1) as nat);
    }
}

/// Attaches the lines of the LRC text `translation_lrc` as translations: each
/// goes to the line that starts closest to it (the first of equals) when
/// that is less than 450 ms away.
pub fn merge_translation(lines: &mut Vec<LyricLine>, translation_lrc: &str)
    ensures
        line_views(final(lines)@) == apply_translations(line_views(old(lines)@), spec_parse_lrc(translation_lrc@),
            spec_parse_lrc(translation_lrc@).len()),
{
    let trans = parse_lrc(translation_lrc);
    let ghost tv = line_views(trans@);
    let mut k: usize = 0;
    while k < trans.len()
        invariant
            k <= trans@.len(),
            tv == line_views(trans@),
            lines@.len() == old(lines)@.len(),
            forall|i: int| 0 <= i < lines@.len() ==> #[trigger] lines@[i].start_ms == old(lines)@[i].start_ms,
            line_views(lines@) == apply_translations(line_views(old(lines)@), tv, k as nat),
        decreases trans@.len() - k,
    {
        let t = trans[k].start_ms;
        let ghost cur = line_views(lines@);
        let mut best: Option<usize> = None;
        let mut best_d: u64 = 0;
        let mut i: usize = 0;
        while i < lines.len()
            invariant
                i <= lines@.len(),
                cur == line_views(lines@),
                match best {
                    Some(b) => closest_line_upto(cur, t, i as nat) == Some(b as int) && b < i
                        && best_d == time_distance(cur[b as int].start_ms, t),
                    None => closest_line_upto(cur, t, i as nat) is None,
                },
            decreases lines@.len() - i,
        {
            let s = lines[i].start_ms;
            let d = if s >= t { s - t } else { t - s };
            match best {
                Some(b) => {
                    if d < best_d {
                        best = Some(i);
                        best_d = d;
                    }
                },
                None => {
                    best = Some(i);
                    best_d = d;
                },
            }
            i = i + 1;
        }
        assert(tv[k as int] == trans@[k as int]@);
        match best {
            Some(b) => {
                if best_d < 450 {
                    let mut l = lines[b].clone();
                    l.translation = Some(trans[k].text.clone());
                    lines.set(b, l);
                    assert(line_views(lines@) =~= cur.update(b as int, LineView { translation: Some(tv[k as int].text), ..cur[b as int] }));
                }
            },
            None => {},
        }
        k = k + 1;
    }
}

} // verus!
