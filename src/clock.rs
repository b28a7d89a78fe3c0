use vstd::prelude::*;
use crate::grid::{compose, is_composition, max_len, valid_words, Grid};
use crate::outside::{spell_number, uppercase, upper_of, words_of};

verus! {

/// Side of the grid the clock draws.
pub const GRID_SIZE: usize = 14;

/// The hour as the clock shows it: afternoon hours lose twelve, noon and
/// the hours before it stay as they are.
pub open spec fn clock_hour(hour: u32) -> u32 {
    if hour > 12 {
        (hour - 12) as u32
    } else {
        hour
    }
}

/// "AM" before noon, "PM" from noon on.
pub open spec fn marker(hour: u32) -> Seq<char> {
    if hour < 12 {
        seq!['A', 'M']
    } else {
        seq!['P', 'M']
    }
}

/// The three words that tell a time.
pub struct TimeText {
    pub hour_word: String,
    pub minute_word: String,
    pub am_pm: String,
}

/// The hour of a 24-hour day as the clock shows it.
pub fn twelve_hour(hour: u32) -> (r: u32)
    ensures
        r == clock_hour(hour),
{
    if hour > 12 {
        hour - 12
    } else {
        hour
    }
}

/// The AM/PM marker for an hour of a 24-hour day.
pub fn am_pm_marker(hour: u32) -> (r: String)
    ensures
        r@ == marker(hour),
{
    if hour < 12 {
        proof {
            reveal_strlit("AM");
        }
        String::from_str("AM")
    } else {
        proof {
            reveal_strlit("PM");
        }
        String::from_str("PM")
    }
}

/// The words for a time: the clock hour and the minute spelled out in
/// capitals, and the marker.
pub fn time_words(hour: u32, minute: u32) -> (r: TimeText)
    ensures
        r.hour_word@ == upper_of(words_of(clock_hour(hour))),
        r.minute_word@ == upper_of(words_of(minute)),
        r.am_pm@ == marker(hour),
{
    let hour_text = spell_number(twelve_hour(hour));
    let minute_text = spell_number(minute);
    TimeText {
        hour_word: uppercase(hour_text.as_str()),
        minute_word: uppercase(minute_text.as_str()),
        am_pm: am_pm_marker(hour),
    }
}

/// The grid for a time: `None` where the words do not fit a grid of this
/// size (a word empty, or one as long as the grid is wide), else a fresh
/// random composition of the time's words.
pub fn clock_grid(hour: u32, minute: u32, grid_size: usize) -> (r: Option<Grid>)
    requires
        4 <= grid_size,
        grid_size * grid_size <= usize::MAX,
    ensures
        ({
            let h = upper_of(words_of(clock_hour(hour)));
            let m = upper_of(words_of(minute));
            &&& r is Some <==> valid_words(h, m, marker(hour), grid_size as int)
            &&& r matches Some(grid) ==> grid.size == grid_size && grid.wf() && is_composition(
                grid@,
                h,
                m,
                marker(hour),
                grid_size as int,
            )
        }),
{
    let words = time_words(hour, minute);
    let lh = words.hour_word.as_str().unicode_len();
    let lm = words.minute_word.as_str().unicode_len();
    if lh == 0 || lm == 0 || lh >= grid_size || lm >= grid_size {
        None
    } else {
        proof {
            assert(words.am_pm@.len() == 2);
            assert(max_len(words.hour_word@, words.minute_word@) < grid_size);
        }
        Some(
            compose(
                words.hour_word.as_str(),
                words.minute_word.as_str(),
                words.am_pm.as_str(),
                grid_size,
            ),
        )
    }
}

/// Whether the clock draws again: on its first tick, and whenever the
/// minute has changed since the last drawing.
pub fn should_redraw(first: bool, minute: u32, last_minute: u32) -> (r: bool)
    ensures
        r == (first || minute != last_minute),
{
    first || minute != last_minute
}

} // verus!
