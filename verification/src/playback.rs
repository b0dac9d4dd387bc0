use vstd::prelude::*;

verus! {

/// `x` held to `lo..=hi`.
pub open spec fn clamped(x: int, lo: int, hi: int) -> int {
    if x < lo { lo } else if x > hi { hi } else { x }
}

/// The loudness gain kept, in millibels: 0 to 1500.
pub fn clamp_loudness_gain(mb: i32) -> (r: i32)
    ensures
        r == clamped(mb as int, 0, 1500),
{
    if mb < 0 { 0 } else if mb > 1500 { 1500 } else { mb }
}

/// The five equalizer band levels after new ones are set: the first five
/// given, each held to -1500..=1500 millibels, replace the current ones.
pub open spec fn spec_equalizer_levels(current: Seq<i32>, bands: Seq<i32>) -> Seq<i32> {
    Seq::new(5, |i: int| if i < bands.len() { clamped(bands[i] as int, -1500, 1500) as i32 } else { current[i] })
}

/// Sets the equalizer band levels.
pub fn equalizer_levels(current: &Vec<i32>, bands: &Vec<i32>) -> (r: Vec<i32>)
    requires
        current@.len() == 5,
    ensures
        r@ == spec_equalizer_levels(current@, bands@),
{
    let mut r: Vec<i32> = Vec::new();
    let mut i: usize = 0;
    while i < 5
        invariant
            i <= 5,
            current@.len() == 5,
            r@ == spec_equalizer_levels(current@, bands@).take(i as int),
        decreases 5 - i,
    {
        let v = if i < bands.len() {
            let b = bands[i];
            if b < -1500 { -1500 } else if b > 1500 { 1500 } else { b }
        } else {
            current[i]
        };
        r.push(v);
        i = i + 1;
        assert(r@ =~= spec_equalizer_levels(current@, bands@).take(i as int));
    }
    assert(spec_equalizer_levels(current@, bands@).take(5) =~= spec_equalizer_levels(current@, bands@));
    r
}

/// The playing position: what was played before plus what is being played,
/// held to the duration when it is known.
pub fn clamped_position(accumulated_ms: u64, elapsed_ms: u64, duration_ms: u64) -> (r: u64)
    requires
        accumulated_ms + elapsed_ms <= u64::MAX,
    ensures
        r == if duration_ms > 0 && accumulated_ms + elapsed_ms > duration_ms {
            duration_ms as int
        } else {
            accumulated_ms + elapsed_ms
        },
{
    let pos = accumulated_ms + elapsed_ms;
    if duration_ms > 0 && pos > duration_ms { duration_ms } else { pos }
}

/// Whether the end of playback is worth asking the audio thread about: it
/// played for at least three seconds.
pub fn may_have_finished(elapsed_ms: Option<u64>) -> (r: bool)
    ensures
        r == (elapsed_ms matches Some(e) && e >= 3000),
{
    match elapsed_ms {
        Some(e) => e >= 3000,
        None => false,
    }
}

/// Whether playback ended, once the audio thread answered: its queue is
/// empty and, for a known duration, the position is within five seconds of
/// the end.
pub fn finished_after_query(sink_empty: bool, duration_ms: u64, position_ms: u64) -> (r: bool)
    ensures
        r == (sink_empty && (duration_ms == 0 || position_ms >= (if duration_ms >= 5000 {
            duration_ms - 5000
        } else {
            0
        }))),
{
    if !sink_empty {
        return false;
    }
    if duration_ms > 0 {
        let threshold = duration_ms.saturating_sub(5000);
        if position_ms < threshold {
            return false;
        }
    }
    true
}

/// One tick of the end-of-track watch: the end is announced once, when it
/// is first seen; gives whether to announce it and the new memory of it.
pub fn track_end_tick(finished: bool, last_ended: bool) -> (r: (bool, bool))
    ensures
        r.0 == (finished && !last_ended),
        r.1 == finished,
{
    if finished && !last_ended {
        (true, true)
    } else if !finished {
        (false, false)
    } else {
        (false, last_ended)
    }
}

} // verus!
