use neri_player_desktop::lyrics::{merge_translation, parse_auto, parse_lrc, parse_yrc, LyricLine};

fn starts(lines: &[LyricLine]) -> Vec<u64> {
    lines.iter().map(|l| l.start_ms).collect()
}

#[test]
fn lrc_lines_with_durations() {
    let lines = parse_lrc("[00:01.00]Hello\n[00:02.50] World \n[01:02.345]Third");
    assert_eq!(starts(&lines), vec![1000, 2500, 62345]);
    assert_eq!(lines[0].text, "Hello");
    assert_eq!(lines[1].text, "World");
    assert_eq!(lines[0].duration_ms, 1500);
    assert_eq!(lines[1].duration_ms, 59845);
    assert_eq!(lines[2].duration_ms, 5000);
    assert!(lines.iter().all(|l| l.translation.is_none() && l.words.is_empty()));
}

#[test]
fn lrc_skips_untimed_and_empty_lines() {
    let lines = parse_lrc("[ti:Song]\n[00:01.00]   \nplain text\n[00:03.00]Kept");
    assert_eq!(lines.len(), 1);
    assert_eq!(lines[0].start_ms, 3000);
    assert_eq!(lines[0].text, "Kept");
}

#[test]
fn lrc_tag_may_follow_other_text() {
    let lines = parse_lrc("x[00:04.10]Later");
    assert_eq!(starts(&lines), vec![4100]);
}

#[test]
fn yrc_lines_with_words() {
    let lines = parse_yrc("[1000,2000](1000,500,0)Hel(1500,500,0)lo\n[3000,1000](3000,1000,0)World");
    assert_eq!(lines.len(), 2);
    assert_eq!(lines[0].start_ms, 1000);
    assert_eq!(lines[0].duration_ms, 2000);
    assert_eq!(lines[0].text, "Hello");
    assert_eq!(lines[0].words.len(), 2);
    assert_eq!(lines[0].words[1].start_ms, 1500);
    assert_eq!(lines[0].words[1].text, "lo");
    assert_eq!(lines[1].text, "World");
}

#[test]
fn auto_detects_word_timed_lyrics() {
    let yrc = parse_auto("[1000,2000](1000,500,0)Hi");
    assert_eq!(yrc.len(), 1);
    assert_eq!(yrc[0].words.len(), 1);
    let lrc = parse_auto("[00:01.00]Hi");
    assert_eq!(lrc.len(), 1);
    assert!(lrc[0].words.is_empty());
}

#[test]
fn translation_goes_to_closest_line_within_450_ms() {
    let mut lines = parse_lrc("[00:01.00]One\n[00:05.00]Two\n[00:09.00]Three");
    merge_translation(&mut lines, "[00:01.20]Uno\n[00:07.00]Far away\n[00:08.70]Tres");
    assert_eq!(lines[0].translation.as_deref(), Some("Uno"));
    assert_eq!(lines[1].translation, None);
    assert_eq!(lines[2].translation.as_deref(), Some("Tres"));
}

#[test]
fn translation_tie_goes_to_the_first_line() {
    let mut lines = parse_lrc("[00:01.00]A\n[00:01.40]B");
    merge_translation(&mut lines, "[00:01.20]T");
    assert_eq!(lines[0].translation.as_deref(), Some("T"));
    assert_eq!(lines[1].translation, None);
}

#[test]
fn parsed_lrc_lines_have_text_and_meet() {
    let lines = parse_lrc("[00:01.00]  \n[00:02.50]a\n[00:04.000] b \n[00:03.00]c\n");
    assert!(lines.iter().all(|l| !l.text.is_empty()));
    let starts: Vec<u64> = lines.iter().map(|l| l.start_ms).collect();
    assert_eq!(starts, vec![2500, 4000, 3000]);
    assert_eq!(lines[0].start_ms + lines[0].duration_ms, lines[1].start_ms);
    assert_eq!(lines[2].duration_ms, 5000);
}

#[test]
fn translation_works_with_any_line_start() {
    let mut lines = parse_lrc("[00:01.00]One");
    let mut far = lines[0].clone();
    far.start_ms = u64::MAX;
    far.text = "Far".to_string();
    lines.insert(0, far);
    merge_translation(&mut lines, "[00:01.10]Uno");
    assert_eq!(lines[0].translation, None);
    assert_eq!(lines[1].translation.as_deref(), Some("Uno"));
}

#[test]
fn lrc_tags_with_other_decimal_digits_read_as_zero() {
    let lines = parse_lrc("[٠١:٠٢.٣٤]Arabic\n[00:0٣.50]Mixed\n[00:05.1２]Wide\n[00:07.12３]Three");
    assert_eq!(starts(&lines), vec![0, 500, 5000, 7000]);
    assert_eq!(lines[0].text, "Arabic");
    assert_eq!(lines[0].duration_ms, 500);
    assert_eq!(lines[2].duration_ms, 2000);
}

#[test]
fn yrc_numbers_with_other_decimal_digits_read_as_zero() {
    let lines = parse_yrc("[١٠٠٠,2000](１,5,0)Hi(7,８,0)!");
    assert_eq!(lines.len(), 1);
    assert_eq!(lines[0].start_ms, 0);
    assert_eq!(lines[0].duration_ms, 2000);
    assert_eq!(lines[0].text, "Hi!");
    assert_eq!(lines[0].words[0].start_ms, 0);
    assert_eq!(lines[0].words[0].duration_ms, 5);
    assert_eq!(lines[0].words[1].start_ms, 7);
    assert_eq!(lines[0].words[1].duration_ms, 0);
}

#[test]
fn auto_detection_accepts_other_decimal_digits() {
    let lines = parse_auto("[١٠,2](3,4,٠)A");
    assert_eq!(lines.len(), 1);
    assert_eq!(lines[0].start_ms, 0);
    assert_eq!(lines[0].duration_ms, 2);
    assert_eq!(lines[0].words.len(), 1);
}
