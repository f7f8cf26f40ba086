//! Placing a wall-clock date-time in the local time zone, where a time can
//! occur once, twice (when clocks go back) or never (when they go forward).
use vstd::prelude::*;
use crate::app_error::AppError;
use crate::calendar::{CivilDateTime, datetime_text, two_digits};
use crate::text::{push_char, push_padded_decimal};
use chrono::{LocalResult, TimeZone};

verus! {

/// An instant together with the local wall-clock time and UTC offset at which
/// it was observed.
#[derive(Clone, Copy, Debug, PartialEq, Eq, Structural)]
pub struct ZonedDateTime {
    pub local: CivilDateTime,
    /// Seconds east of UTC.
    pub offset_seconds: i32,
    /// Milliseconds since 1970-01-01T00:00:00Z.
    pub timestamp_millis: i64,
}

/// The outcome of looking a wall-clock time up in a time zone (chrono's
/// `LocalResult`).
#[derive(Clone, Copy, Debug, PartialEq, Eq, Structural)]
pub enum LocalResolution {
    /// The time occurs once.
    Single(ZonedDateTime),
    /// The time occurs twice, at these two instants (in either order).
    Ambiguous(ZonedDateTime, ZonedDateTime),
    /// The time is skipped by the zone.
    Nonexistent,
}

/// Which end of a frame a date-time bounds.
#[derive(Clone, Copy, Debug, PartialEq, Eq, Structural)]
pub enum BoundaryKind {
    /// A frame start: a repeated time takes its earlier instant, so that no
    /// footage at the beginning is missed.
    Start,
    /// A frame end: a repeated time takes its later instant, so that the frame
    /// stays inclusive.
    End,
}

/// A UTC offset as chrono prints it: `+HH:MM`, or `+HH:MM:SS` when the seconds
/// are not zero.
pub open spec fn offset_text(offset: int) -> Seq<char> {
    let sign = if offset < 0 { '-' } else { '+' };
    let a = if offset < 0 { -offset } else { offset };
    let hm = seq![sign] + two_digits((a / 3600) as nat) + seq![':'] + two_digits(((a / 60) % 60) as nat);
    if a % 60 == 0 {
        hm
    } else {
        hm + seq![':'] + two_digits((a % 60) as nat)
    }
}

/// `YYYY-MM-DD HH:MM:SS +HH:MM`, as chrono displays a zoned date-time.
pub open spec fn zoned_text(z: ZonedDateTime) -> Seq<char> {
    datetime_text(z.local) + seq![' '] + offset_text(z.offset_seconds as int)
}

/// The instant a resolution gives a boundary of the given kind, if any: for a
/// repeated time, the earlier instant for a start and the later for an end.
pub open spec fn resolved(resolution: LocalResolution, kind: BoundaryKind) -> Option<ZonedDateTime> {
    match resolution {
        LocalResolution::Single(z) => Some(z),
        LocalResolution::Ambiguous(a, b) => {
            let a_first = a.timestamp_millis <= b.timestamp_millis;
            match kind {
                BoundaryKind::Start => Some(if a_first { a } else { b }),
                BoundaryKind::End => Some(if a_first { b } else { a }),
            }
        },
        LocalResolution::Nonexistent => None,
    }
}

/// The error for a time that the zone skips.
pub open spec fn nonexistent_message(local_datetime: CivilDateTime) -> Seq<char> {
    "Local datetime '"@ + datetime_text(local_datetime) + "' does not exist in the target timezone"@
}

/// The context of the error for a time the local zone repeats.
pub open spec fn ambiguous_context(context: Seq<char>, naive: CivilDateTime, first: ZonedDateTime, second: ZonedDateTime) -> Seq<char> {
    context + " ("@ + datetime_text(naive) + ") is ambiguous between '"@ + zoned_text(first)
        + "' and '"@ + zoned_text(second) + "'"@
}

/// The context of the error for a time the local zone skips.
pub open spec fn skipped_context(context: Seq<char>, naive: CivilDateTime) -> Seq<char> {
    context + " ("@ + datetime_text(naive) + ") does not exist in local timezone"@
}

/// Appends a UTC offset as chrono prints it.
pub fn push_offset(s: &mut String, offset: i32)
    requires
        offset > i32::MIN,
    ensures
        final(s)@ == old(s)@ + offset_text(offset as int),
{
    let sign = if offset < 0 { '-' } else { '+' };
    let a: i32 = if offset < 0 { -offset } else { offset };
    push_char(s, sign);
    push_padded_decimal(s, (a / 3600) as u128, 2);
    push_char(s, ':');
    push_padded_decimal(s, ((a / 60) % 60) as u128, 2);
    if a % 60 != 0 {
        push_char(s, ':');
        push_padded_decimal(s, (a % 60) as u128, 2);
    }
    assert(s@ =~= old(s)@ + offset_text(offset as int));
}

impl ZonedDateTime {
    /// Whole seconds since the epoch (rounded down).
    pub fn timestamp(&self) -> (r: i64)
        ensures
            r == self.timestamp_millis / 1000,
    {
        let ms = self.timestamp_millis;
        if ms >= 0 {
            ms / 1000
        } else {
            let n: i64 = -(ms + 1);
            proof {
                let q = n / 1000;
                vstd::arithmetic::div_mod::lemma_fundamental_div_mod(n as int, 1000);
                vstd::arithmetic::div_mod::lemma_fundamental_div_mod_converse(
                    ms as int,
                    1000,
                    -q - 1,
                    999 - n % 1000,
                );
            }
            -(n / 1000) - 1
        }
    }

    /// `YYYY-MM-DD HH:MM:SS +HH:MM`, as chrono displays a zoned date-time.
    pub fn to_text(&self) -> (r: String)
        requires
            self.offset_seconds > i32::MIN,
        ensures
            r@ == zoned_text(*self),
    {
        let mut s = String::new();
        self.push_text(&mut s);
        assert(s@ =~= zoned_text(*self));
        s
    }

    /// Appends `YYYY-MM-DD HH:MM:SS +HH:MM`.
    pub fn push_text(&self, s: &mut String)
        requires
            self.offset_seconds > i32::MIN,
        ensures
            final(s)@ == old(s)@ + zoned_text(*self),
    {
        self.local.push_text(s);
        push_char(s, ' ');
        push_offset(s, self.offset_seconds);
        assert(s@ =~= old(s)@ + zoned_text(*self));
    }
}

impl LocalResolution {
    /// Offsets of every instant it holds are printable.
    pub open spec fn wf(self) -> bool {
        match self {
            LocalResolution::Single(z) => z.offset_seconds > i32::MIN,
            LocalResolution::Ambiguous(a, b) => a.offset_seconds > i32::MIN && b.offset_seconds
                > i32::MIN,
            LocalResolution::Nonexistent => true,
        }
    }
}

/// Resolves a wall-clock boundary in a zone: the only instant when there is
/// one; for a repeated time the earlier instant for a start and the later one
/// for an end (whatever order the lookup lists them in); an error for a
/// skipped time.
pub fn resolve_local_datetime(
    resolution: &LocalResolution,
    local_datetime: &CivilDateTime,
    boundary_kind: BoundaryKind,
) -> (r: Result<ZonedDateTime, String>)
    ensures
        r is Ok <==> resolved(*resolution, boundary_kind) is Some,
        r matches Ok(z) ==> resolved(*resolution, boundary_kind) == Some(z),
        r matches Err(m) ==> m@ == nonexistent_message(*local_datetime),
{
    match resolution {
        LocalResolution::Single(z) => Ok(*z),
        LocalResolution::Ambiguous(a, b) => {
            let a_first = a.timestamp_millis <= b.timestamp_millis;
            Ok(
                match boundary_kind {
                    BoundaryKind::Start => if a_first { *a } else { *b },
                    BoundaryKind::End => if a_first { *b } else { *a },
                },
            )
        },
        LocalResolution::Nonexistent => {
            let mut m = String::from_str("Local datetime '");
            local_datetime.push_text(&mut m);
            m.append("' does not exist in the target timezone");
            Err(m)
        },
    }
}

/// Places `naive` in a zone, given how the zone maps it, refusing times that
/// the zone repeats or skips; `context` says which time it is.
pub fn to_local_from(resolution: &LocalResolution, naive: CivilDateTime, context: String) -> (r: Result<ZonedDateTime, AppError>)
    requires
        resolution.wf(),
    ensures
        match *resolution {
            LocalResolution::Single(z) => r == Ok::<ZonedDateTime, AppError>(z),
            LocalResolution::Ambiguous(first, second) => r matches Err(AppError::DateConversion { context: c })
                && c@ == ambiguous_context(context@, naive, first, second),
            LocalResolution::Nonexistent => r matches Err(AppError::DateConversion { context: c })
                && c@ == skipped_context(context@, naive),
        },
{
    match resolution {
        LocalResolution::Single(z) => Ok(*z),
        LocalResolution::Ambiguous(first, second) => {
            let mut c = context;
            c.append(" (");
            naive.push_text(&mut c);
            c.append(") is ambiguous between '");
            first.push_text(&mut c);
            c.append("' and '");
            second.push_text(&mut c);
            c.append("'");
            Err(AppError::DateConversion { context: c })
        },
        LocalResolution::Nonexistent => {
            let mut c = context;
            c.append(" (");
            naive.push_text(&mut c);
            c.append(") does not exist in local timezone");
            Err(AppError::DateConversion { context: c })
        },
    }
}

/// A wall-clock time that bounds both a start and an end never puts the start
/// after the end: a repeated time gives the start its earlier instant and the
/// end its later one, and a time that occurs once gives both the same instant.
pub proof fn law_start_not_after_end(resolution: LocalResolution)
    ensures
        resolved(resolution, BoundaryKind::Start) is Some <==> resolved(resolution, BoundaryKind::End) is Some,
        resolved(resolution, BoundaryKind::Start) matches Some(s) ==> s.timestamp_millis
            <= resolved(resolution, BoundaryKind::End)->0.timestamp_millis,
        resolution matches LocalResolution::Single(z) ==> resolved(resolution, BoundaryKind::Start)
            == Some(z) && resolved(resolution, BoundaryKind::End) == Some(z),
        resolution matches LocalResolution::Ambiguous(a, b) ==> ({
            let s = resolved(resolution, BoundaryKind::Start)->0.timestamp_millis;
            let e = resolved(resolution, BoundaryKind::End)->0.timestamp_millis;
            &&& s <= a.timestamp_millis && s <= b.timestamp_millis
            &&& e >= a.timestamp_millis && e >= b.timestamp_millis
        }),
{
}

/// Seconds from 0000-01-01T00:00:00 to the Unix epoch, 1970-01-01T00:00:00.
pub open spec fn unix_epoch_instant() -> int {
    62167219200
}

/// The Unix epoch is that many seconds after 0000-01-01T00:00:00.
pub proof fn lemma_unix_epoch()
    ensures
        (CivilDateTime {
            date: crate::calendar::CivilDate { year: 1970, month: 1, day: 1 },
            hour: 0,
            minute: 0,
            second: 0,
        }).instant() == unix_epoch_instant(),
{
}

/// The instant agrees with its wall-clock time and offset: the offset is less
/// than a day either way, and UTC is the wall-clock time minus the offset, in
/// milliseconds since the Unix epoch.
pub open spec fn instant_consistent(z: ZonedDateTime) -> bool {
    &&& -86400 < z.offset_seconds < 86400
    &&& z.timestamp_millis == (z.local.instant() - unix_epoch_instant() - z.offset_seconds) * 1000
}

/// A lookup of `t` as a time zone gives it: every instant shows `t` on the
/// wall clock and agrees with its offset.
pub open spec fn valid_lookup(resolution: LocalResolution, t: CivilDateTime) -> bool {
    &&& shows(resolution, t)
    &&& match resolution {
        LocalResolution::Single(z) => instant_consistent(z),
        LocalResolution::Ambiguous(a, b) => instant_consistent(a) && instant_consistent(b),
        LocalResolution::Nonexistent => true,
    }
}

/// For a lookup of `t`, a start and an end boundary at `t` both exist or both
/// do not; they show `t`, agree with their offsets, and the start is not after
/// the end.
pub proof fn law_resolution_of_a_lookup(resolution: LocalResolution, t: CivilDateTime)
    requires
        valid_lookup(resolution, t),
    ensures
        resolved(resolution, BoundaryKind::Start) is Some <==> resolved(resolution, BoundaryKind::End) is Some,
        resolved(resolution, BoundaryKind::Start) matches Some(s) ==> s.local == t && instant_consistent(s)
            && s.timestamp_millis <= resolved(resolution, BoundaryKind::End)->0.timestamp_millis,
        resolved(resolution, BoundaryKind::End) matches Some(e) ==> e.local == t && instant_consistent(e),
{
}

/// Every instant a lookup of `t` gives shows `t` on the wall clock.
pub open spec fn shows(resolution: LocalResolution, t: CivilDateTime) -> bool {
    match resolution {
        LocalResolution::Single(z) => z.local == t,
        LocalResolution::Ambiguous(a, b) => a.local == t && b.local == t,
        LocalResolution::Nonexistent => true,
    }
}

/// A time zone, seen as the lookup it gives each wall-clock time: every
/// instant of a lookup shows that time on the wall clock and agrees with its
/// offset, and every offset is printable.
pub open spec fn is_time_zone(zone: spec_fn(CivilDateTime) -> LocalResolution) -> bool {
    forall|t: CivilDateTime|
        #![trigger zone(t)]
        t.wf() ==> valid_lookup(zone(t), t) && zone(t).wf()
}

/// The machine's local time zone. Which zone it is depends on the machine and
/// is left open: it is some time zone, fixed for the run, and nothing more is
/// known of it.
pub closed spec fn local_time_zone() -> spec_fn(CivilDateTime) -> LocalResolution {
    choose|zone: spec_fn(CivilDateTime) -> LocalResolution| is_time_zone(zone)
}

/// How the machine's local time zone maps the wall-clock time `t`.
pub open spec fn local_lookup(t: CivilDateTime) -> LocalResolution {
    local_time_zone()(t)
}

/// The machine's local time zone is a time zone: its lookup of any wall-clock
/// time shows that time and agrees with the offsets it gives.
pub proof fn law_local_zone_is_a_time_zone()
    ensures
        is_time_zone(local_time_zone()),
        forall|t: CivilDateTime| t.wf() ==> valid_lookup(#[trigger] local_lookup(t), t) && local_lookup(t).wf(),
{
    let skips_everything = |t: CivilDateTime| LocalResolution::Nonexistent;
    assert(is_time_zone(skips_everything));
    assert forall|t: CivilDateTime| t.wf() implies valid_lookup(#[trigger] local_lookup(t), t)
        && local_lookup(t).wf() by {
        assert(local_time_zone()(t) == local_lookup(t));
    }
}

/// The instant at which a frame boundary of the given kind falls in the
/// machine's local time zone, if the zone has that wall-clock time.
pub open spec fn local_boundary(t: CivilDateTime, kind: BoundaryKind) -> Option<ZonedDateTime> {
    resolved(local_lookup(t), kind)
}

/// A boundary is placed exactly when the local zone has its wall-clock time,
/// at an instant of the zone's own lookup of that time: the only one when the
/// time occurs once, and for a repeated time the earlier one for a start and
/// the later one for an end. The instant shows the time and carries the
/// zone's offset there.
pub proof fn law_local_boundary(t: CivilDateTime, kind: BoundaryKind)
    requires
        t.wf(),
    ensures
        local_boundary(t, kind) is None <==> local_lookup(t) is Nonexistent,
        local_lookup(t) matches LocalResolution::Single(z) ==> local_boundary(t, kind) == Some(z),
        local_lookup(t) matches LocalResolution::Ambiguous(a, b) ==> ({
            let z = local_boundary(t, kind)->0;
            &&& z == a || z == b
            &&& kind == BoundaryKind::Start ==> z.timestamp_millis <= a.timestamp_millis
                && z.timestamp_millis <= b.timestamp_millis
            &&& kind == BoundaryKind::End ==> z.timestamp_millis >= a.timestamp_millis
                && z.timestamp_millis >= b.timestamp_millis
        }),
        local_boundary(t, kind) matches Some(z) ==> z.local == t && instant_consistent(z),
{
    law_local_zone_is_a_time_zone();
    assert(valid_lookup(local_lookup(t), t));
}

/// The instant of `t` in the machine's local time zone when the zone has that
/// wall-clock time exactly once.
pub open spec fn local_instant(t: CivilDateTime) -> Option<ZonedDateTime> {
    match local_lookup(t) {
        LocalResolution::Single(z) => Some(z),
        _ => None,
    }
}

/// Where a time occurs once in the local zone, placing it as such and placing
/// it as either boundary give the same instant; where it occurs at all, a
/// start at that time is not after an end at that time.
pub proof fn law_local_instant_agrees_with_boundaries(t: CivilDateTime)
    requires
        t.wf(),
    ensures
        local_instant(t) matches Some(z) ==> local_boundary(t, BoundaryKind::Start) == Some(z)
            && local_boundary(t, BoundaryKind::End) == Some(z) && z.local == t && instant_consistent(z),
        local_instant(t) is Some ==> local_boundary(t, BoundaryKind::Start) is Some,
        local_boundary(t, BoundaryKind::Start) is Some <==> local_boundary(t, BoundaryKind::End) is Some,
        local_boundary(t, BoundaryKind::Start) matches Some(s) ==> s.timestamp_millis
            <= local_boundary(t, BoundaryKind::End)->0.timestamp_millis,
{
    law_local_zone_is_a_time_zone();
    law_start_not_after_end(local_lookup(t));
}

/// Looks `t` up in the machine's local time zone with chrono's
/// `Local.from_local_datetime`. Claimed: the outcome is the machine's zone's
/// lookup of `t` (`local_lookup`), the same for the same `t` throughout the
/// run, whichever zone the machine has; every instant found shows `t` on the
/// wall clock (its `naive_local()`), its offset is a `FixedOffset` (less than a
/// day either way), and its `timestamp_millis()` is the wall-clock time minus
/// the offset, counted from the Unix epoch (`t` has no fraction of a second).
/// Which zone the machine has, and so which outcome comes back, is not
/// stated; nor is a change of the machine's zone settings while it runs.
#[verifier::external_body]
pub(crate) fn local_zone_lookup(t: &CivilDateTime) -> (r: LocalResolution)
    requires
        t.wf(),
    ensures
        r.wf(),
        valid_lookup(r, *t),
        r == local_lookup(*t),
{
    let z = |d: chrono::DateTime<chrono::Local>| ZonedDateTime {
        local: *t,
        offset_seconds: d.offset().local_minus_utc(),
        timestamp_millis: d.timestamp_millis(),
    };
    let naive = chrono::NaiveDate::from_ymd_opt(t.date.year, t.date.month, t.date.day)
        .and_then(|d| d.and_hms_opt(t.hour, t.minute, t.second)).unwrap();
    match chrono::Local.from_local_datetime(&naive) {
        LocalResult::Single(d) => LocalResolution::Single(z(d)),
        LocalResult::Ambiguous(a, b) => LocalResolution::Ambiguous(z(a), z(b)),
        LocalResult::None => LocalResolution::Nonexistent,
    }
}

/// Places a frame boundary in the machine's local time zone: the instant
/// shows `local` on the wall clock; a repeated time takes its earlier instant
/// for a start and its later one for an end; a skipped time is an error.
pub fn resolve_in_local_zone(local: &CivilDateTime, boundary_kind: BoundaryKind) -> (r: Result<ZonedDateTime, String>)
    requires
        local.wf(),
    ensures
        r matches Ok(z) ==> z.local == *local && instant_consistent(z),
        r matches Ok(z) ==> exists|lookup: LocalResolution|
            valid_lookup(lookup, *local) && #[trigger] resolved(lookup, boundary_kind) == Some(z),
        r matches Err(m) ==> m@ == nonexistent_message(*local) && exists|lookup: LocalResolution|
            valid_lookup(lookup, *local) && #[trigger] resolved(lookup, boundary_kind) is None,
        r is Ok <==> local_boundary(*local, boundary_kind) is Some,
        r matches Ok(z) ==> local_boundary(*local, boundary_kind) == Some(z),
{
    let lookup = local_zone_lookup(local);
    resolve_local_datetime(&lookup, local, boundary_kind)
}

/// Places `naive` in the machine's local time zone, refusing times that the
/// zone repeats or skips; `context` says which time it is.
pub fn to_local(naive: CivilDateTime, context: String) -> (r: Result<ZonedDateTime, AppError>)
    requires
        naive.wf(),
    ensures
        r matches Ok(z) ==> z.local == naive && instant_consistent(z),
        r matches Ok(z) ==> exists|lookup: LocalResolution|
            valid_lookup(lookup, naive) && lookup == LocalResolution::Single(z),
        r matches Err(e) ==> e matches AppError::DateConversion { context: c } && (c@ == skipped_context(context@, naive)
            || exists|a: ZonedDateTime, b: ZonedDateTime| c@ == #[trigger] ambiguous_context(context@, naive, a, b)),
        match local_lookup(naive) {
            LocalResolution::Single(z) => r == Ok::<ZonedDateTime, AppError>(z),
            LocalResolution::Ambiguous(first, second) => r matches Err(AppError::DateConversion { context: c })
                && c@ == ambiguous_context(context@, naive, first, second),
            LocalResolution::Nonexistent => r matches Err(AppError::DateConversion { context: c })
                && c@ == skipped_context(context@, naive),
        },
        r is Ok <==> local_instant(naive) is Some,
        r matches Ok(z) ==> local_instant(naive) == Some(z),
{
    let lookup = local_zone_lookup(&naive);
    to_local_from(&lookup, naive, context)
}

} // verus!
