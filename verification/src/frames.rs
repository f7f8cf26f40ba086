//! Splitting a date-time range into the daily or hourly frames that are
//! downloaded one file each.
use vstd::prelude::*;
use crate::app_error::AppError;
use crate::calendar::{
    CivilDate, CivilDateTime, datetime_text, date_text, lemma_day_number_order, lemma_hour_split,
    lemma_instant_order,
    MAX_YEAR,
};
use crate::parse_args::DownloadMode;

verus! {

/// A frame: its first and its last second, both included.
pub type Frame = (CivilDateTime, CivilDateTime);

/// The length in seconds of the blocks that frames of `mode` stay within.
pub open spec fn block_seconds(mode: DownloadMode) -> int {
    match mode {
        DownloadMode::Daily => 86400,
        DownloadMode::Hourly => 3600,
    }
}

/// Frame `i` is well formed, not empty and inside a single block of `unit` seconds.
pub open spec fn frame_in_block(frames: Seq<Frame>, i: int, unit: int) -> bool {
    let f = frames[i];
    &&& f.0.wf()
    &&& f.1.wf()
    &&& f.0.instant() <= f.1.instant()
    &&& f.0.instant() / unit == f.1.instant() / unit
}

/// Frame `i` ends with the last second of its block and frame `i + 1` starts
/// one second later.
pub open spec fn frames_join(frames: Seq<Frame>, i: int, unit: int) -> bool {
    &&& frames[i + 1].0.instant() == frames[i].1.instant() + 1
    &&& frames[i].1.instant() % unit == unit - 1
}

/// `frames` cut the range from `start` to `end` (both included) at every
/// boundary of the blocks of `unit` seconds, and nowhere else.
pub open spec fn is_partition(frames: Seq<Frame>, start: CivilDateTime, end: CivilDateTime, unit: int) -> bool {
    &&& frames.len() > 0
    &&& frames[0].0 == start
    &&& frames.last().1 == end
    &&& forall|i: int| 0 <= i < frames.len() ==> #[trigger] frame_in_block(frames, i, unit)
    &&& forall|i: int| 0 <= i < frames.len() - 1 ==> #[trigger] frames_join(frames, i, unit)
}

/// The last date in range.
pub open spec fn last_date() -> CivilDate {
    CivilDate { year: MAX_YEAR, month: 12, day: 31 }
}

/// Every valid date is at most the last date.
pub proof fn lemma_at_most_last(d: CivilDate)
    requires
        d.wf(),
    ensures
        d.day_number() <= last_date().day_number(),
        d.day_number() == last_date().day_number() <==> d.is_last(),
{
    lemma_day_number_order(d, last_date());
}

/// Instants in one aligned block share the block's index.
pub proof fn lemma_same_block(base: int, x: int, unit: int)
    requires
        unit > 0,
        base % unit == 0,
        base <= x < base + unit,
    ensures
        x / unit == base / unit,
        x % unit == x - base,
{
    vstd::arithmetic::div_mod::lemma_fundamental_div_mod(base, unit);
    vstd::arithmetic::mul::lemma_mul_is_commutative(unit, base / unit);
    vstd::arithmetic::div_mod::lemma_fundamental_div_mod_converse(x, unit, base / unit, x - base);
}

/// Two date-times in one hour block have the same date and hour.
pub proof fn lemma_same_hour(a: CivilDateTime, b: CivilDateTime)
    requires
        a.wf(),
        b.wf(),
        a.instant() / 3600 == b.instant() / 3600,
    ensures
        a.date == b.date,
        a.hour == b.hour,
{
    lemma_hour_split(a);
    lemma_hour_split(b);
    lemma_day_number_order(a.date, b.date);
}

/// Message context for a range whose hour `hour_start` has no successor.
pub open spec fn hour_overflow_context(hour_start: CivilDateTime) -> Seq<char> {
    "no hour follows the one starting at '"@ + datetime_text(hour_start) + "'"@
}

/// Message context for a range that reaches the last date.
pub open spec fn day_overflow_context(date: CivilDate) -> Seq<char> {
    "no date follows '"@ + date_text(date) + "'"@
}

/// The first and the last second of the hour of `date_time`; an error when the
/// hour after it lies beyond the last date.
pub fn hour_frame_bounds(date_time: &CivilDateTime) -> (r: Result<Frame, AppError>)
    requires
        date_time.wf(),
    ensures
        r is Err <==> (date_time.date.is_last() && date_time.hour == 23),
        r matches Err(e) ==> e matches AppError::DateOverflow { context } && context@
            == hour_overflow_context(
            CivilDateTime { date: date_time.date, hour: date_time.hour, minute: 0, second: 0 },
        ),
        r matches Ok(b) ==> b.0.wf() && b.1.wf() && b.0.date == date_time.date && b.0.hour
            == date_time.hour && b.0.minute == 0 && b.0.second == 0 && b.1.date == date_time.date
            && b.1.hour == date_time.hour && b.1.minute == 59 && b.1.second == 59,
{
    let hour_start = date_time.hour_start();
    match hour_start.add_one_hour() {
        Some(_) => Ok((hour_start, date_time.hour_end())),
        None => {
            let mut context = String::from_str("no hour follows the one starting at '");
            hour_start.push_text(&mut context);
            context.append("'");
            Err(AppError::DateOverflow { context })
        },
    }
}

/// The first and the last second of `date`.
pub fn day_frame_bounds(date: &CivilDate) -> (r: Result<Frame, AppError>)
    requires
        date.wf(),
    ensures
        r matches Ok(b) && b.0.wf() && b.1.wf() && b.0 == (CivilDateTime {
            date: *date,
            hour: 0,
            minute: 0,
            second: 0,
        }) && b.1 == (CivilDateTime { date: *date, hour: 23, minute: 59, second: 59 }),
{
    let day_start = match date.and_hms_opt(0, 0, 0) {
        Some(t) => t,
        None => {
            return Err(AppError::DateConstruction { context: String::from_str("start of day") });
        },
    };
    let day_end = match date.and_hms_opt(23, 59, 59) {
        Some(t) => t,
        None => {
            return Err(AppError::DateConstruction { context: String::from_str("end of day") });
        },
    };
    Ok((day_start, day_end))
}

/// Loop state of the frame builders: `frames` are the frames so far and
/// `next` is the first instant not yet covered.
pub open spec fn progress(frames: Seq<Frame>, start: CivilDateTime, end: CivilDateTime, next: int, unit: int) -> bool {
    &&& start.wf()
    &&& end.wf()
    &&& start.instant() <= end.instant()
    &&& start.instant() <= next
    &&& frames.len() == 0 ==> next == start.instant()
    &&& frames.len() > 0 ==> frames[0].0 == start
    &&& forall|i: int| 0 <= i < frames.len() ==> #[trigger] frame_in_block(frames, i, unit)
    &&& forall|i: int| 0 <= i < frames.len() - 1 ==> #[trigger] frames_join(frames, i, unit)
    &&& frames.len() > 0 ==> ({
        let last = frames.last().1;
        ||| (last == end && next > end.instant())
        ||| (last.instant() < end.instant() && next == last.instant() + 1 && last.instant() % unit
            == unit - 1)
    })
}

/// Once the state has passed `end`, the frames are the partition.
pub proof fn lemma_progress_done(frames: Seq<Frame>, start: CivilDateTime, end: CivilDateTime, next: int, unit: int)
    requires
        progress(frames, start, end, next, unit),
        next > end.instant(),
    ensures
        is_partition(frames, start, end, unit),
{
}

/// Adding the frame of the block `[b, b + unit)` keeps the loop state.
pub proof fn lemma_progress_step(
    frames: Seq<Frame>,
    start: CivilDateTime,
    end: CivilDateTime,
    next: int,
    unit: int,
    b: int,
    fs: CivilDateTime,
    fe: CivilDateTime,
)
    requires
        progress(frames, start, end, next, unit),
        unit > 0,
        next <= end.instant(),
        b % unit == 0,
        b <= next < b + unit,
        fs.wf(),
        fe.wf(),
        fs.instant() == (if b < start.instant() { start.instant() } else { b }),
        fe.instant() == (if end.instant() < b + unit - 1 { end.instant() } else { b + unit - 1 }),
        end.instant() < b + unit - 1 ==> fe == end,
        b < start.instant() ==> fs == start,
    ensures
        progress(frames.push((fs, fe)), start, end, b + unit, unit),
{
    let nf = frames.push((fs, fe));
    lemma_instant_order(fs, start);
    lemma_instant_order(fe, end);
    lemma_same_block(b, fs.instant(), unit);
    lemma_same_block(b, fe.instant(), unit);
    lemma_same_block(b, next, unit);
    if frames.len() > 0 {
        let last = frames.last().1.instant();
        assert(last % unit == unit - 1);
        vstd::arithmetic::div_mod::lemma_fundamental_div_mod(last, unit);
        let q = last / unit;
        assert((q + 1) * unit == unit * q + unit) by (nonlinear_arith);
        vstd::arithmetic::mul::lemma_mul_is_commutative(unit, last / unit);
        vstd::arithmetic::div_mod::lemma_fundamental_div_mod_converse(
            last + 1,
            unit,
            q + 1,
            0,
        );
        assert(next == b);
        assert(frames_join(nf, frames.len() - 1, unit));
    }
    assert forall|i: int| 0 <= i < nf.len() implies #[trigger] frame_in_block(nf, i, unit) by {
        if i < frames.len() {
            assert(frame_in_block(frames, i, unit));
        }
    }
    assert forall|i: int| 0 <= i < nf.len() - 1 implies #[trigger] frames_join(nf, i, unit) by {
        if i < frames.len() - 1 {
            assert(frames_join(frames, i, unit));
        }
    }
}

/// The hourly frames from `start` to `end`.
fn hourly_frames(start: &CivilDateTime, end: &CivilDateTime) -> (r: Result<Vec<Frame>, AppError>)
    requires
        start.wf(),
        end.wf(),
        start.instant() <= end.instant(),
    ensures
        r is Err <==> (end.date.is_last() && end.hour == 23),
        r matches Err(e) ==> e matches AppError::DateOverflow { context } && context@
            == hour_overflow_context(
            CivilDateTime { date: end.date, hour: end.hour, minute: 0, second: 0 },
        ),
        r matches Ok(v) ==> is_partition(v@, *start, *end, 3600),
{
    let mut frames: Vec<Frame> = Vec::new();
    let mut cursor = *start;
    while !end.lt(&cursor)
        invariant
            cursor.wf(),
            progress(frames@, *start, *end, cursor.instant(), 3600),
            frames.len() > 0 && frames@.last().1 == *end ==> !(end.date.is_last() && end.hour
                == 23),
        decreases
            (if cursor.instant() <= end.instant() {
                end.instant() - cursor.instant() + 1
            } else {
                0
            }),
    {
        let bounds = hour_frame_bounds(&cursor);
        proof {
            lemma_hour_split(cursor);
        }
        let (hour_start, hour_end) = match bounds {
            Ok(b) => b,
            Err(e) => {
                proof {
                    lemma_at_most_last(end.date);
                    lemma_hour_split(*end);
                    lemma_at_most_last(cursor.date);
                    lemma_day_number_order(end.date, cursor.date);
                    assert(end.date == cursor.date);
                }
                return Err(e);
            },
        };
        let next = match hour_start.add_one_hour() {
            Some(n) => n,
            None => {
                // `hour_frame_bounds` refuses exactly the hour without successor.
                proof {
                    assert(false);
                }
                return Err(AppError::DateOverflow { context: String::new() });
            },
        };
        proof {
            lemma_hour_split(hour_start);
            lemma_hour_split(hour_end);
        }
        let frame_start = if hour_start.lt(start) {
            *start
        } else {
            hour_start
        };
        let frame_end = if end.lt(&hour_end) {
            *end
        } else {
            hour_end
        };
        proof {
            let base = hour_start.instant();
            assert(base % 3600 == 0) by {
                lemma_same_block(base, base, 3600);
            }
            lemma_progress_step(
                frames@,
                *start,
                *end,
                cursor.instant(),
                3600,
                base,
                frame_start,
                frame_end,
            );
            lemma_instant_order(hour_end, *end);
            if frame_end == *end {
                lemma_same_block(base, end.instant(), 3600);
                lemma_same_hour(*end, hour_start);
            }
        }
        frames.push((frame_start, frame_end));
        cursor = next;
    }
    proof {
        lemma_progress_done(frames@, *start, *end, cursor.instant(), 3600);
    }
    Ok(frames)
}

/// The daily frames from `start` to `end`.
fn daily_frames(start: &CivilDateTime, end: &CivilDateTime) -> (r: Result<Vec<Frame>, AppError>)
    requires
        start.wf(),
        end.wf(),
        start.instant() <= end.instant(),
    ensures
        r is Err <==> end.date.is_last(),
        r matches Err(e) ==> e matches AppError::DateOverflow { context } && context@
            == day_overflow_context(end.date),
        r matches Ok(v) ==> is_partition(v@, *start, *end, 86400),
{
    let mut frames: Vec<Frame> = Vec::new();
    let mut date = start.date;
    proof {
        lemma_hour_split(*start);
        lemma_hour_split(*end);
        lemma_instant_order(*start, *end);
    }
    while !end.date.lt(&date)
        invariant
            date.wf(),
            progress(frames@, *start, *end, if frames.len() == 0 { start.instant() } else { date.day_number() * 86400 }, 86400),
            frames.len() == 0 ==> date == start.date,
            frames.len() > 0 && frames@.last().1 == *end ==> !end.date.is_last()
                && date.day_number() > end.date.day_number(),
            frames.len() > 0 && frames@.last().1 != *end ==> date.day_number()
                <= end.date.day_number(),
        decreases end.date.day_number() - date.day_number() + 1,
    {
        let ghost next_instant = if frames.len() == 0 {
            start.instant()
        } else {
            date.day_number() * 86400
        };
        let bounds = day_frame_bounds(&date);
        let (day_start, day_end) = match bounds {
            Ok(b) => b,
            Err(e) => {
                return Err(e);
            },
        };
        let frame_start = if day_start.lt(start) {
            *start
        } else {
            day_start
        };
        let frame_end = if end.lt(&day_end) {
            *end
        } else {
            day_end
        };
        let succ = date.succ_opt();
        proof {
            lemma_hour_split(day_start);
            lemma_hour_split(day_end);
            let base = day_start.instant();
            assert(base % 86400 == 0) by {
                lemma_same_block(base, base, 86400);
            }
            if frames.len() == 0 {
                lemma_hour_split(*start);
            }
            lemma_progress_step(
                frames@,
                *start,
                *end,
                next_instant,
                86400,
                base,
                frame_start,
                frame_end,
            );
            lemma_instant_order(day_end, *end);
            lemma_day_number_order(date, end.date);
        }
        frames.push((frame_start, frame_end));
        date = match succ {
            Some(n) => n,
            None => {
                proof {
                    lemma_at_most_last(end.date);
                }
                let mut context = String::from_str("no date follows '");
                end.date.push_text(&mut context);
                context.append("'");
                return Err(AppError::DateOverflow { context });
            },
        };
    }
    proof {
        lemma_progress_done(frames@, *start, *end, date.day_number() * 86400, 86400);
    }
    Ok(frames)
}

/// The range does not end before it starts.
pub open spec fn range_is_valid(start: CivilDateTime, end: CivilDateTime) -> bool {
    start.instant() <= end.instant()
}

/// Splits the range from `start` to `end` into the frames downloaded one file
/// each: whole clock hours (hourly) or whole days (daily), the first and last
/// cut down to the range.
///
/// An `end` before `start` is refused; so is a range that reaches the last hour
/// (hourly) or the last day (daily) of the calendar, whose successor does not
/// exist.
pub fn time_frames(start: &CivilDateTime, end: &CivilDateTime, mode: DownloadMode) -> (r: Result<Vec<Frame>, AppError>)
    requires
        start.wf(),
        end.wf(),
    ensures
        !range_is_valid(*start, *end) ==> r == Err::<Vec<Frame>, AppError>(AppError::InvalidDateRange { start: *start, end: *end }),
        range_is_valid(*start, *end) && mode == DownloadMode::Hourly ==> (r is Err <==> (
        end.date.is_last() && end.hour == 23)),
        range_is_valid(*start, *end) && mode == DownloadMode::Hourly ==> (r matches Err(e) ==> e matches AppError::DateOverflow { context } && context@
            == hour_overflow_context(
            CivilDateTime { date: end.date, hour: end.hour, minute: 0, second: 0 },
        )),
        range_is_valid(*start, *end) && mode == DownloadMode::Daily ==> (r is Err <==> end.date.is_last()),
        range_is_valid(*start, *end) && mode == DownloadMode::Daily ==> (r matches Err(e) ==> e matches AppError::DateOverflow { context } && context@
            == day_overflow_context(end.date)),
        r matches Ok(v) ==> is_partition(v@, *start, *end, block_seconds(mode)),
{
    if end.lt(start) {
        return Err(AppError::InvalidDateRange { start: *start, end: *end });
    }
    match mode {
        DownloadMode::Hourly => hourly_frames(start, end),
        DownloadMode::Daily => daily_frames(start, end),
    }
}

/// Frames of a partition come in order: each ends before the next one starts.
pub proof fn lemma_partition_ordered(frames: Seq<Frame>, start: CivilDateTime, end: CivilDateTime, unit: int, i: int, j: int)
    requires
        is_partition(frames, start, end, unit),
        0 <= i < j < frames.len(),
    ensures
        frames[i].1.instant() < frames[j].0.instant(),
    decreases j - i,
{
    assert(frames_join(frames, j - 1, unit));
    if i < j - 1 {
        lemma_partition_ordered(frames, start, end, unit, i, j - 1);
        assert(frame_in_block(frames, j - 1, unit));
    }
}

proof fn lemma_partition_covers_from(frames: Seq<Frame>, start: CivilDateTime, end: CivilDateTime, unit: int, k: int, t: int)
    requires
        is_partition(frames, start, end, unit),
        0 <= k < frames.len(),
        frames[k].0.instant() <= t <= end.instant(),
    ensures
        exists|i: int| k <= i < frames.len() && (#[trigger] frames[i]).0.instant() <= t <= frames[i].1.instant(),
    decreases frames.len() - k,
{
    if t <= frames[k].1.instant() {
        assert(k <= k < frames.len() && frames[k].0.instant() <= t <= frames[k].1.instant());
    } else {
        assert(frames_join(frames, k, unit));
        lemma_partition_covers_from(frames, start, end, unit, k + 1, t);
        let i = choose|i: int| k + 1 <= i < frames.len() && (#[trigger] frames[i]).0.instant() <= t <= frames[i].1.instant();
        assert(k <= i < frames.len() && frames[i].0.instant() <= t <= frames[i].1.instant());
    }
}

/// The frames of a range hold every second of it exactly once: no footage is
/// missed and none is fetched twice.
pub proof fn law_frames_cover_range_once(frames: Seq<Frame>, start: CivilDateTime, end: CivilDateTime, unit: int, t: int)
    requires
        is_partition(frames, start, end, unit),
        start.instant() <= t <= end.instant(),
    ensures
        exists|i: int| 0 <= i < frames.len() && (#[trigger] frames[i]).0.instant() <= t <= frames[i].1.instant(),
        forall|i: int, j: int|
            #![trigger frames[i], frames[j]]
            0 <= i < frames.len() && 0 <= j < frames.len() && frames[i].0.instant() <= t
                <= frames[i].1.instant() && frames[j].0.instant() <= t <= frames[j].1.instant()
                ==> i == j,
{
    lemma_partition_covers_from(frames, start, end, unit, 0, t);
    assert forall|i: int, j: int|
        #![trigger frames[i], frames[j]]
        0 <= i < frames.len() && 0 <= j < frames.len() && frames[i].0.instant() <= t
            <= frames[i].1.instant() && frames[j].0.instant() <= t <= frames[j].1.instant()
        implies i == j by {
        if i < j {
            lemma_partition_ordered(frames, start, end, unit, i, j);
        } else if j < i {
            lemma_partition_ordered(frames, start, end, unit, j, i);
        }
    }
}

/// Every frame of a partition lies inside one block of `unit` seconds (one
/// clock hour, or one day), and only the first and last frames may be shorter
/// than their block.
pub proof fn law_frames_are_whole_blocks(frames: Seq<Frame>, start: CivilDateTime, end: CivilDateTime, unit: int, i: int)
    requires
        is_partition(frames, start, end, unit),
        unit > 0,
        0 <= i < frames.len(),
    ensures
        frames[i].0.instant() / unit == frames[i].1.instant() / unit,
        0 < i ==> frames[i].0.instant() % unit == 0,
        i < frames.len() - 1 ==> frames[i].1.instant() % unit == unit - 1,
{
    assert(frame_in_block(frames, i, unit));
    if i < frames.len() - 1 {
        assert(frames_join(frames, i, unit));
    }
    if 0 < i {
        let prev = frames[i - 1].1.instant();
        assert(frames_join(frames, i - 1, unit));
        vstd::arithmetic::div_mod::lemma_fundamental_div_mod(prev, unit);
        let q = prev / unit;
        assert((q + 1) * unit == unit * q + unit) by (nonlinear_arith);
        vstd::arithmetic::div_mod::lemma_fundamental_div_mod_converse(prev + 1, unit, q + 1, 0);
    }
}

/// When the range starts at the first second of a block and ends at the last
/// second of a block, every frame is a whole block: a range of whole days gives
/// one frame per day, a range of whole hours one frame per hour.
pub proof fn law_aligned_range_gives_whole_blocks(frames: Seq<Frame>, start: CivilDateTime, end: CivilDateTime, unit: int, i: int)
    requires
        is_partition(frames, start, end, unit),
        unit > 0,
        start.instant() % unit == 0,
        end.instant() % unit == unit - 1,
        0 <= i < frames.len(),
    ensures
        frames[i].0.instant() % unit == 0,
        frames[i].1.instant() % unit == unit - 1,
        frames[i].1.instant() == frames[i].0.instant() + unit - 1,
{
    law_frames_are_whole_blocks(frames, start, end, unit, i);
    let a = frames[i].0.instant();
    let b = frames[i].1.instant();
    vstd::arithmetic::div_mod::lemma_fundamental_div_mod(a, unit);
    vstd::arithmetic::div_mod::lemma_fundamental_div_mod(b, unit);
}

/// A daily range read from two days (`YYYY-MM-DD` bounds) is cut into whole
/// days only.
pub proof fn law_day_bounds_give_whole_days(frames: Seq<Frame>, start: CivilDateTime, end: CivilDateTime, i: int)
    requires
        is_partition(frames, start, end, 86400),
        start.wf(),
        end.wf(),
        start.hour == 0 && start.minute == 0 && start.second == 0,
        end.hour == 23 && end.minute == 59 && end.second == 59,
        0 <= i < frames.len(),
    ensures
        frames[i].0.instant() % 86400 == 0,
        frames[i].1.instant() == frames[i].0.instant() + 86399,
{
    lemma_hour_split(start);
    lemma_hour_split(end);
    law_aligned_range_gives_whole_blocks(frames, start, end, 86400, i);
}

} // verus!