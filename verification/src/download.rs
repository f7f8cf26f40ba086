//! Which cameras a download covers and the files their footage goes to.
use vstd::prelude::*;
use crate::api::Camera;
use crate::calendar::hour_stamp_text;
use crate::parse_args::RecordingType;
use crate::text::{names_of, push_char, str_eq};
use crate::calendar::CivilDateTime;
use crate::frames::Frame;
use crate::zone::{
    instant_consistent, law_local_boundary, law_resolution_of_a_lookup, local_boundary, local_lookup,
    local_zone_lookup, nonexistent_message, resolve_local_datetime, resolved, valid_lookup,
    BoundaryKind, LocalResolution, ZonedDateTime,
};

verus! {

/// The camera list asks for the camera with this name and id: it is empty (no
/// camera given means every camera), names it, gives its id, or holds `*` or
/// `all`.
pub open spec fn wants_camera(cameras: Seq<Seq<char>>, name: Seq<char>, id: Seq<char>) -> bool {
    cameras.len() == 0 || cameras.contains(name) || cameras.contains(id) || cameras.contains("*"@) || cameras.contains(
        "all"@,
    )
}

/// Does the camera list ask for `camera`?
pub fn camera_selected(cameras: &Vec<String>, camera: &Camera) -> (r: bool)
    ensures
        r == wants_camera(names_of(cameras@), camera.name@, camera.id@),
{
    let ghost list = names_of(cameras@);
    if cameras.len() == 0 {
        return true;
    }
    let mut i: usize = 0;
    while i < cameras.len()
        invariant
            i <= cameras.len(),
            list == names_of(cameras@),
            forall|j: int|
                0 <= j < i ==> !(#[trigger] list[j] == camera.name@ || list[j] == camera.id@ || list[j]
                    == "*"@ || list[j] == "all"@),
        decreases cameras.len() - i,
    {
        let c = cameras[i].as_str();
        assert(c@ == list[i as int]);
        if str_eq(c, camera.name.as_str()) || str_eq(c, camera.id.as_str()) || str_eq(c, "*")
            || str_eq(c, "all") {
            assert(list.contains(list[i as int]));
            return true;
        }
        i = i + 1;
    }
    proof {
        if wants_camera(list, camera.name@, camera.id@) {
            if list.contains(camera.name@) {
                let j = choose|j: int| 0 <= j < list.len() && list[j] == camera.name@;
                assert(list[j] == camera.name@);
            } else if list.contains(camera.id@) {
                let j = choose|j: int| 0 <= j < list.len() && list[j] == camera.id@;
                assert(list[j] == camera.id@);
            } else if list.contains("*"@) {
                let j = choose|j: int| 0 <= j < list.len() && list[j] == "*"@;
                assert(list[j] == "*"@);
            } else {
                let j = choose|j: int| 0 <= j < list.len() && list[j] == "all"@;
                assert(list[j] == "all"@);
            }
        }
    }
    false
}

/// What `sanitize_filename::sanitize_with_options` makes of `name` with the
/// given options.
pub uninterp spec fn sanitized(name: Seq<char>, windows: bool, truncate: bool, replacement: Seq<char>) -> Seq<char>;

/// Characters that separate path components.
pub open spec fn is_path_separator(c: char) -> bool {
    c == '/' || c == '\\'
}

/// `sanitize_filename::sanitize_with_options`. Claimed: the result is the named
/// function of its arguments, and when the replacement holds no `/` or `\`
/// neither does the result (the crate replaces both, and every later step only
/// replaces with the replacement or cuts).
#[verifier::external_body]
fn sanitize_with_options(name: &str, windows: bool, truncate: bool, replacement: &str) -> (r: String)
    ensures
        r@ == sanitized(name@, windows, truncate, replacement@),
        (forall|i: int| 0 <= i < replacement@.len() ==> !is_path_separator(#[trigger] replacement@[i]))
            ==> (forall|i: int| 0 <= i < r@.len() ==> !is_path_separator(#[trigger] r@[i])),
{
    sanitize_filename::sanitize_with_options(
        name,
        sanitize_filename::Options { windows, truncate, replacement },
    )
}

/// The ASCII characters of `s`, in order.
pub open spec fn ascii_only(s: Seq<char>) -> Seq<char>
    decreases s.len(),
{
    if s.len() == 0 {
        Seq::empty()
    } else if (s.last() as u32) < 128 {
        ascii_only(s.drop_last()).push(s.last())
    } else {
        ascii_only(s.drop_last())
    }
}

/// Every character of `ascii_only(s)` is a character of `s`.
pub proof fn lemma_ascii_only_from(s: Seq<char>)
    ensures
        forall|i: int| 0 <= i < ascii_only(s).len() ==> s.contains(#[trigger] ascii_only(s)[i]),
    decreases s.len(),
{
    if s.len() > 0 {
        lemma_ascii_only_from(s.drop_last());
        assert forall|i: int| 0 <= i < ascii_only(s).len() implies s.contains(
            #[trigger] ascii_only(s)[i],
        ) by {
            let prev = ascii_only(s.drop_last());
            if i < prev.len() {
                assert(s.drop_last().contains(prev[i]));
                let k = choose|k: int| 0 <= k < s.drop_last().len() && s.drop_last()[k] == prev[i];
                assert(s[k] == prev[i]);
            } else {
                assert(s[s.len() - 1] == s.last());
            }
        }
    }
}

/// Drops every character that is not ASCII.
pub fn keep_ascii(s: &str) -> (r: String)
    ensures
        r@ == ascii_only(s@),
{
    let n = s.unicode_len();
    let mut out = String::new();
    let mut i: usize = 0;
    proof {
        assert(s@.take(0) =~= Seq::<char>::empty());
    }
    while i < n
        invariant
            n == s@.len(),
            i <= n,
            out@ == ascii_only(s@.take(i as int)),
        decreases n - i,
    {
        let c = s.get_char(i);
        proof {
            assert(s@.take(i + 1).drop_last() =~= s@.take(i as int));
            assert(s@.take(i + 1).last() == c);
        }
        if (c as u32) < 128 {
            push_char(&mut out, c);
        }
        i = i + 1;
    }
    proof {
        assert(s@.take(n as int) =~= s@);
    }
    out
}

/// `YYYY-MM-DD-HH-<camera>-<type>.mp4` for a frame starting at `frame_start`.
pub open spec fn raw_file_name(frame_start: ZonedDateTime, camera_name: Seq<char>, recording_type: Seq<char>) -> Seq<char> {
    hour_stamp_text(frame_start.local) + "-"@ + camera_name + "-"@ + recording_type + ".mp4"@
}

/// The recording type's name.
pub open spec fn recording_type_text(t: RecordingType) -> Seq<char> {
    match t {
        RecordingType::Rotating => "rotating"@,
        RecordingType::Timelapse => "timelapse"@,
    }
}

/// The file name for a frame starting at `frame_start`, a camera and a
/// recording type.
pub open spec fn video_file_name_text(frame_start: ZonedDateTime, camera_name: Seq<char>, recording_type: RecordingType) -> Seq<char> {
    ascii_only(
        sanitized(
            raw_file_name(frame_start, camera_name, recording_type_text(recording_type)),
            true,
            true,
            ""@,
        ),
    )
}

/// The name of the file for one camera and frame: the raw name made safe by
/// `sanitize_filename` (Windows rules, cut to 255 bytes, offending characters
/// dropped), then kept to ASCII.
pub fn video_file_name(frame_start: &ZonedDateTime, camera_name: &str, recording_type: RecordingType) -> (r: String)
    ensures
        r@ == video_file_name_text(*frame_start, camera_name@, recording_type),
        forall|i: int| 0 <= i < r@.len() ==> !is_path_separator(#[trigger] r@[i]),
{
    let mut raw = String::new();
    frame_start.local.push_hour_stamp(&mut raw);
    raw.append("-");
    raw.append(camera_name);
    raw.append("-");
    raw.append(recording_type.as_str());
    raw.append(".mp4");
    assert(raw@ =~= raw_file_name(*frame_start, camera_name@, recording_type_text(recording_type)));
    let replacement = "";
    proof {
        reveal_strlit("");
    }
    let safe = sanitize_with_options(raw.as_str(), true, true, replacement);
    let r = keep_ascii(safe.as_str());
    proof {
        lemma_ascii_only_from(safe@);
        assert forall|i: int| 0 <= i < r@.len() implies !is_path_separator(#[trigger] r@[i]) by {
            assert(safe@.contains(r@[i]));
            let k = choose|k: int| 0 <= k < safe@.len() && safe@[k] == r@[i];
            assert(!is_path_separator(safe@[k]));
        }
    }
    r
}

/// An empty camera list, or one holding `*` or `all`, asks for every camera.
pub proof fn law_wildcard_selects_every_camera(cameras: Seq<Seq<char>>, name: Seq<char>, id: Seq<char>)
    requires
        cameras.len() == 0 || cameras.contains("*"@) || cameras.contains("all"@),
    ensures
        wants_camera(cameras, name, id),
{
}

/// Zoned frames.
pub type ZonedFrame = (ZonedDateTime, ZonedDateTime);

/// Both boundaries of frame `i` resolve: the start under the start rule, the
/// end under the end rule.
pub open spec fn frame_resolves(lookups: Seq<(LocalResolution, LocalResolution)>, i: int) -> bool {
    &&& resolved(lookups[i].0, BoundaryKind::Start) is Some
    &&& resolved(lookups[i].1, BoundaryKind::End) is Some
}

/// `r` is what the lookups of the frames' boundaries give: every frame with
/// its start resolved by the start rule and its end by the end rule, or the
/// first boundary, in order, that the zone skips.
pub open spec fn zoned_frames_from(
    frames: Seq<Frame>,
    lookups: Seq<(LocalResolution, LocalResolution)>,
    r: Result<Vec<ZonedFrame>, (BoundaryKind, String)>,
) -> bool {
    match r {
        Ok(v) => v.len() == frames.len() && forall|i: int|
            0 <= i < frames.len() ==> resolved(lookups[i].0, BoundaryKind::Start) == Some(
                (#[trigger] v@[i]).0,
            ) && resolved(lookups[i].1, BoundaryKind::End) == Some(v@[i].1),
        Err((kind, m)) => exists|i: int|
            0 <= i < frames.len() && (forall|j: int| 0 <= j < i ==> #[trigger] frame_resolves(lookups, j))
                && (if kind == BoundaryKind::Start {
                resolved((#[trigger] lookups[i]).0, BoundaryKind::Start) is None
                    && m@ == nonexistent_message(frames[i].0)
            } else {
                resolved(lookups[i].0, BoundaryKind::Start) is Some && resolved(
                    lookups[i].1,
                    BoundaryKind::End,
                ) is None && m@ == nonexistent_message(frames[i].1)
            }),
    }
}

/// Places every frame in a zone, given how the zone maps each boundary
/// (`lookups[i]` for the start and end of frame `i`): the start at the earlier
/// instant of a repeated time, the end at the later one. A boundary that the
/// zone skips is an error, with its kind.
pub fn local_time_frames_from(frames: &Vec<Frame>, lookups: &Vec<(LocalResolution, LocalResolution)>) -> (r: Result<Vec<ZonedFrame>, (BoundaryKind, String)>)
    requires
        lookups.len() == frames.len(),
    ensures
        zoned_frames_from(frames@, lookups@, r),
{
    let mut out: Vec<ZonedFrame> = Vec::new();
    let mut i: usize = 0;
    while i < frames.len()
        invariant
            i <= frames.len(),
            lookups.len() == frames.len(),
            out.len() == i,
            forall|k: int| 0 <= k < i ==> #[trigger] frame_resolves(lookups@, k),
            forall|k: int|
                0 <= k < i ==> resolved(lookups@[k].0, BoundaryKind::Start) == Some(
                    (#[trigger] out@[k]).0,
                ) && resolved(lookups@[k].1, BoundaryKind::End) == Some(out@[k].1),
        decreases frames.len() - i,
    {
        let (frame_start, frame_end) = frames[i];
        let start = match resolve_local_datetime(&lookups[i].0, &frame_start, BoundaryKind::Start) {
            Ok(z) => z,
            Err(m) => {
                assert(lookups@[i as int] == lookups[i as int]);
                return Err((BoundaryKind::Start, m));
            },
        };
        let end = match resolve_local_datetime(&lookups[i].1, &frame_end, BoundaryKind::End) {
            Ok(z) => z,
            Err(m) => {
                assert(lookups@[i as int] == lookups[i as int]);
                return Err((BoundaryKind::End, m));
            },
        };
        out.push((start, end));
        proof {
            assert(frame_resolves(lookups@, i as int));
        }
        i = i + 1;
    }
    Ok(out)
}

/// The two lookups of frame `i` are lookups of its start and its end.
pub open spec fn lookups_of_frame(frames: Seq<Frame>, lookups: Seq<(LocalResolution, LocalResolution)>, i: int) -> bool {
    valid_lookup(lookups[i].0, frames[i].0) && valid_lookup(lookups[i].1, frames[i].1)
}

/// How the machine's local time zone maps the start and the end of each frame.
pub open spec fn local_lookups(frames: Seq<Frame>) -> Seq<(LocalResolution, LocalResolution)> {
    frames.map_values(|f: Frame| (local_lookup(f.0), local_lookup(f.1)))
}

/// Both boundaries of frame `i` exist in the machine's local time zone.
pub open spec fn frame_placeable(frames: Seq<Frame>, i: int) -> bool {
    &&& local_boundary(frames[i].0, BoundaryKind::Start) is Some
    &&& local_boundary(frames[i].1, BoundaryKind::End) is Some
}

/// Placing frames by the machine's local time zone succeeds exactly when the
/// zone has every boundary's wall-clock time; then each frame is placed at the
/// zone's own instants for its start (the earlier of a repeated time) and its
/// end (the later one), which show the frame's times and carry the zone's
/// offsets there. Otherwise the error names the first boundary, in order, that
/// the zone skips, with its kind.
pub proof fn law_local_frames(frames: Seq<Frame>, r: Result<Vec<ZonedFrame>, (BoundaryKind, String)>)
    requires
        forall|i: int| 0 <= i < frames.len() ==> (#[trigger] frames[i]).0.wf() && frames[i].1.wf(),
        zoned_frames_from(frames, local_lookups(frames), r),
    ensures
        r is Ok <==> forall|i: int| 0 <= i < frames.len() ==> #[trigger] frame_placeable(frames, i),
        r matches Ok(v) ==> v.len() == frames.len() && forall|i: int|
            0 <= i < frames.len() ==> {
                &&& local_boundary(frames[i].0, BoundaryKind::Start) == Some((#[trigger] v@[i]).0)
                &&& local_boundary(frames[i].1, BoundaryKind::End) == Some(v@[i].1)
                &&& v@[i].0.local == frames[i].0 && instant_consistent(v@[i].0)
                &&& v@[i].1.local == frames[i].1 && instant_consistent(v@[i].1)
            },
        r matches Err((kind, m)) ==> exists|i: int|
            0 <= i < frames.len() && (forall|j: int| 0 <= j < i ==> #[trigger] frame_placeable(frames, j))
                && (if kind == BoundaryKind::Start {
                local_lookup((#[trigger] frames[i]).0) is Nonexistent
                    && m@ == nonexistent_message(frames[i].0)
            } else {
                local_lookup(frames[i].0) !is Nonexistent
                    && local_lookup(frames[i].1) is Nonexistent
                    && m@ == nonexistent_message(frames[i].1)
            }),
{
    let lookups = local_lookups(frames);
    assert forall|j: int| 0 <= j < frames.len() implies #[trigger] frame_resolves(lookups, j)
        == frame_placeable(frames, j) by {
        assert(lookups[j] == (local_lookup(frames[j].0), local_lookup(frames[j].1)));
    }
    match r {
        Ok(v) => {
            assert forall|i: int| 0 <= i < frames.len() implies {
                &&& local_boundary(frames[i].0, BoundaryKind::Start) == Some((#[trigger] v@[i]).0)
                &&& local_boundary(frames[i].1, BoundaryKind::End) == Some(v@[i].1)
                &&& v@[i].0.local == frames[i].0 && instant_consistent(v@[i].0)
                &&& v@[i].1.local == frames[i].1 && instant_consistent(v@[i].1)
            } by {
                assert(lookups[i] == (local_lookup(frames[i].0), local_lookup(frames[i].1)));
                law_local_boundary(frames[i].0, BoundaryKind::Start);
                law_local_boundary(frames[i].1, BoundaryKind::End);
            }
            assert forall|i: int| 0 <= i < frames.len() implies #[trigger] frame_placeable(frames, i) by {
                assert(lookups[i] == (local_lookup(frames[i].0), local_lookup(frames[i].1)));
                assert(resolved(lookups[i].0, BoundaryKind::Start) == Some(v@[i].0));
            }
        },
        Err((kind, m)) => {
            let i = choose|i: int|
                0 <= i < frames.len() && (forall|j: int| 0 <= j < i ==> #[trigger] frame_resolves(lookups, j))
                    && (if kind == BoundaryKind::Start {
                    resolved((#[trigger] lookups[i]).0, BoundaryKind::Start) is None
                        && m@ == nonexistent_message(frames[i].0)
                } else {
                    resolved(lookups[i].0, BoundaryKind::Start) is Some && resolved(
                        lookups[i].1,
                        BoundaryKind::End,
                    ) is None && m@ == nonexistent_message(frames[i].1)
                });
            assert(lookups[i] == (local_lookup(frames[i].0), local_lookup(frames[i].1)));
            law_local_boundary(frames[i].0, BoundaryKind::Start);
            law_local_boundary(frames[i].1, BoundaryKind::End);
            assert forall|j: int| 0 <= j < i implies #[trigger] frame_placeable(frames, j) by {
                assert(frame_resolves(lookups, j));
            }
            assert(!frame_placeable(frames, i));
        },
    }
}

/// Places every frame in the machine's local time zone, its start at the
/// earlier instant of a repeated time and its end at the later one; each
/// instant shows its wall-clock time and agrees with its offset. A frame
/// boundary that the zone skips is an error, with the kind of the boundary.
pub fn local_time_frames(frames: &Vec<Frame>) -> (r: Result<Vec<ZonedFrame>, (BoundaryKind, String)>)
    requires
        forall|i: int| 0 <= i < frames.len() ==> (#[trigger] frames[i]).0.wf() && frames[i].1.wf(),
    ensures
        exists|lookups: Seq<(LocalResolution, LocalResolution)>|
            lookups.len() == frames.len() && (forall|i: int|
                0 <= i < frames.len() ==> #[trigger] lookups_of_frame(frames@, lookups, i))
                && zoned_frames_from(frames@, lookups, r),
        r matches Ok(v) ==> forall|i: int|
            0 <= i < frames.len() ==> (#[trigger] v@[i]).0.local == frames[i].0 && v@[i].1.local
                == frames[i].1 && instant_consistent(v@[i].0) && instant_consistent(v@[i].1),
        zoned_frames_from(frames@, local_lookups(frames@), r),
        r matches Ok(v) ==> forall|i: int|
            0 <= i < frames.len() ==> local_boundary(frames[i].0, BoundaryKind::Start) == Some(
                (#[trigger] v@[i]).0,
            ) && local_boundary(frames[i].1, BoundaryKind::End) == Some(v@[i].1),
        r is Ok <==> forall|i: int| 0 <= i < frames.len() ==> #[trigger] frame_placeable(frames@, i),
{
    let mut lookups: Vec<(LocalResolution, LocalResolution)> = Vec::new();
    let mut i: usize = 0;
    while i < frames.len()
        invariant
            i <= frames.len(),
            forall|k: int| 0 <= k < frames.len() ==> (#[trigger] frames[k]).0.wf() && frames[k].1.wf(),
            lookups.len() == i,
            forall|k: int| 0 <= k < i ==> #[trigger] lookups_of_frame(frames@, lookups@, k),
            forall|k: int|
                0 <= k < i ==> #[trigger] lookups@[k] == (local_lookup(frames@[k].0), local_lookup(
                    frames@[k].1,
                )),
        decreases frames.len() - i,
    {
        assert(frames[i as int].0.wf());
        let start = local_zone_lookup(&frames[i].0);
        let end = local_zone_lookup(&frames[i].1);
        let ghost before = lookups@;
        lookups.push((start, end));
        proof {
            assert(lookups_of_frame(frames@, lookups@, i as int));
            assert forall|k: int| 0 <= k < i + 1 implies #[trigger] lookups_of_frame(frames@, lookups@, k) by {
                if k < i {
                    assert(lookups_of_frame(frames@, before, k));
                    assert(lookups@[k] == before[k]);
                }
            }
        }
        i = i + 1;
    }
    let r = local_time_frames_from(frames, &lookups);
    proof {
        assert(lookups@ =~= local_lookups(frames@));
        law_local_frames(frames@, r);
        if r is Ok {
            let v = r->Ok_0;
            assert forall|k: int| 0 <= k < frames.len() implies (#[trigger] v@[k]).0.local == frames[k].0
                && v@[k].1.local == frames[k].1 && instant_consistent(v@[k].0) && instant_consistent(
                v@[k].1,
            ) by {
                assert(lookups_of_frame(frames@, lookups@, k));
                law_resolution_of_a_lookup(lookups@[k].0, frames@[k].0);
                law_resolution_of_a_lookup(lookups@[k].1, frames@[k].1);
            }
        }
    }
    r
}

/// One file to fetch: the frame, the camera (indices) and the file name.
#[derive(Clone, Debug)]
pub struct DownloadJob {
    pub frame: usize,
    pub camera: usize,
    pub file_name: String,
}

/// Is the camera at index `j` asked for?
pub open spec fn selected_at(cameras: Seq<Camera>, wanted: Seq<Seq<char>>, j: int) -> bool {
    wants_camera(wanted, cameras[j].name@, cameras[j].id@)
}

/// `(f1, c1)` comes strictly before `(f2, c2)`: frame by frame, camera by camera.
pub open spec fn job_before(f1: int, c1: int, f2: int, c2: int) -> bool {
    f1 < f2 || (f1 == f2 && c1 < c2)
}

/// Some job from index `from` on fetches frame `i` of camera `j`.
pub open spec fn has_job(jobs: Seq<DownloadJob>, from: int, i: int, j: int) -> bool {
    exists|k: int| from <= k < jobs.len() && (#[trigger] jobs[k]).frame == i && jobs[k].camera == j
}

/// Job `k` is a job of frame list `frames` for a wanted camera, with its file
/// name.
pub open spec fn job_ok(
    jobs: Seq<DownloadJob>,
    k: int,
    frames: Seq<ZonedFrame>,
    cameras: Seq<Camera>,
    wanted: Seq<Seq<char>>,
    recording_type: RecordingType,
) -> bool {
    let job = jobs[k];
    &&& job.frame < frames.len()
    &&& job.camera < cameras.len()
    &&& selected_at(cameras, wanted, job.camera as int)
    &&& job.file_name@ == video_file_name_text(
        frames[job.frame as int].0,
        cameras[job.camera as int].name@,
        recording_type,
    )
}

/// Appends the jobs of frame `i`: every wanted camera, in order.
fn plan_frame(
    frames: &Vec<ZonedFrame>,
    i: usize,
    cameras: &Vec<Camera>,
    wanted: &Vec<String>,
    recording_type: RecordingType,
    jobs: &mut Vec<DownloadJob>,
)
    requires
        i < frames.len(),
    ensures
        final(jobs)@.len() >= old(jobs)@.len(),
        final(jobs)@.subrange(0, old(jobs)@.len() as int) == old(jobs)@,
        forall|k: int|
            old(jobs)@.len() <= k < final(jobs)@.len() ==> (#[trigger] final(jobs)@[k]).frame == i
                && job_ok(final(jobs)@, k, frames@, cameras@, names_of(wanted@), recording_type),
        forall|k1: int, k2: int|
            old(jobs)@.len() <= k1 < k2 < final(jobs)@.len() ==> (#[trigger] final(jobs)@[k1]).camera
                < (#[trigger] final(jobs)@[k2]).camera,
        forall|j: int|
            0 <= j < cameras.len() && #[trigger] selected_at(cameras@, names_of(wanted@), j)
                ==> has_job(final(jobs)@, old(jobs)@.len() as int, i as int, j),
{
    let ghost base = old(jobs)@.len() as int;
    let ghost wv = names_of(wanted@);
    let mut j: usize = 0;
    while j < cameras.len()
        invariant
            i < frames.len(),
            j <= cameras.len(),
            wv == names_of(wanted@),
            base == old(jobs)@.len(),
            jobs@.len() >= base,
            jobs@.subrange(0, base) == old(jobs)@,
            forall|k: int|
                base <= k < jobs@.len() ==> (#[trigger] jobs@[k]).frame == i && jobs@[k].camera < j
                    && job_ok(jobs@, k, frames@, cameras@, wv, recording_type),
            forall|k1: int, k2: int|
                base <= k1 < k2 < jobs@.len() ==> (#[trigger] jobs@[k1]).camera
                    < (#[trigger] jobs@[k2]).camera,
            forall|jj: int|
                0 <= jj < j && #[trigger] selected_at(cameras@, wv, jj) ==> has_job(jobs@, base, i as int, jj),
        decreases cameras.len() - j,
    {
        let camera = &cameras[j];
        if camera_selected(wanted, camera) {
            let file_name = video_file_name(&frames[i].0, camera.name.as_str(), recording_type);
            let ghost before = jobs@;
            jobs.push(DownloadJob { frame: i, camera: j, file_name });
            proof {
                assert(jobs@.subrange(0, base) =~= before.subrange(0, base));
                assert forall|k: int|
                    base <= k < jobs@.len() implies (#[trigger] jobs@[k]).frame == i && jobs@[k].camera
                    < j + 1 && job_ok(jobs@, k, frames@, cameras@, wv, recording_type) by {
                    if k < before.len() {
                        assert(jobs@[k] == before[k]);
                    }
                }
                assert forall|jj: int|
                    0 <= jj < j + 1 && #[trigger] selected_at(cameras@, wv, jj) implies has_job(
                    jobs@,
                    base,
                    i as int,
                    jj,
                ) by {
                    if jj < j {
                        let k = choose|k: int|
                            base <= k < before.len() && (#[trigger] before[k]).frame == i
                                && before[k].camera == jj;
                        assert(jobs@[k] == before[k]);
                    } else {
                        let k = jobs@.len() - 1;
                        assert(jobs@[k].frame == i && jobs@[k].camera == jj);
                    }
                }
            }
        }
        j = j + 1;
    }
}

/// The files to fetch: for every frame in order, every asked-for camera in
/// order, each once, with its file name.
pub fn download_plan(
    frames: &Vec<ZonedFrame>,
    cameras: &Vec<Camera>,
    wanted: &Vec<String>,
    recording_type: RecordingType,
) -> (jobs: Vec<DownloadJob>)
    ensures
        forall|k: int|
            0 <= k < jobs.len() ==> #[trigger] job_ok(
                jobs@,
                k,
                frames@,
                cameras@,
                names_of(wanted@),
                recording_type,
            ),
        forall|k1: int, k2: int|
            0 <= k1 < k2 < jobs.len() ==> job_before(
                (#[trigger] jobs[k1]).frame as int,
                jobs[k1].camera as int,
                (#[trigger] jobs[k2]).frame as int,
                jobs[k2].camera as int,
            ),
        forall|i: int, j: int|
            0 <= i < frames.len() && 0 <= j < cameras.len() && selected_at(
                cameras@,
                names_of(wanted@),
                j,
            ) ==> #[trigger] has_job(jobs@, 0, i, j),
{
    let ghost wv = names_of(wanted@);
    let mut jobs: Vec<DownloadJob> = Vec::new();
    let mut i: usize = 0;
    while i < frames.len()
        invariant
            i <= frames.len(),
            wv == names_of(wanted@),
            forall|k: int|
                0 <= k < jobs.len() ==> (#[trigger] jobs@[k]).frame < i && job_ok(
                    jobs@,
                    k,
                    frames@,
                    cameras@,
                    wv,
                    recording_type,
                ),
            forall|k1: int, k2: int|
                0 <= k1 < k2 < jobs.len() ==> job_before(
                    (#[trigger] jobs[k1]).frame as int,
                    jobs[k1].camera as int,
                    (#[trigger] jobs[k2]).frame as int,
                    jobs[k2].camera as int,
                ),
            forall|fi: int, j: int|
                0 <= fi < i && 0 <= j < cameras.len() && selected_at(cameras@, wv, j)
                    ==> #[trigger] has_job(jobs@, 0, fi, j),
        decreases frames.len() - i,
    {
        let ghost before = jobs@;
        plan_frame(frames, i, cameras, wanted, recording_type, &mut jobs);
        proof {
            let n = before.len() as int;
            assert forall|k: int| 0 <= k < n implies jobs@[k] == before[k] by {
                assert(jobs@.subrange(0, n)[k] == jobs@[k]);
            }
            assert forall|k: int|
                0 <= k < jobs.len() implies (#[trigger] jobs@[k]).frame < i + 1 && job_ok(
                jobs@,
                k,
                frames@,
                cameras@,
                wv,
                recording_type,
            ) by {
                if k < n {
                    assert(jobs@[k] == before[k]);
                    assert(job_ok(before, k, frames@, cameras@, wv, recording_type));
                }
            }
            assert forall|k1: int, k2: int|
                0 <= k1 < k2 < jobs.len() implies job_before(
                (#[trigger] jobs[k1]).frame as int,
                jobs[k1].camera as int,
                (#[trigger] jobs[k2]).frame as int,
                jobs[k2].camera as int,
            ) by {
                if k2 < n {
                    assert(jobs@[k1] == before[k1] && jobs@[k2] == before[k2]);
                } else if k1 < n {
                    assert(jobs@[k1] == before[k1]);
                    assert(before[k1].frame < i);
                }
            }
            assert forall|fi: int, j: int|
                0 <= fi < i + 1 && 0 <= j < cameras.len() && selected_at(cameras@, wv, j)
                    implies #[trigger] has_job(jobs@, 0, fi, j) by {
                if fi < i {
                    assert(has_job(before, 0, fi, j));
                    let k = choose|k: int|
                        0 <= k < before.len() && (#[trigger] before[k]).frame == fi && before[k].camera == j;
                    assert(jobs@[k] == before[k]);
                } else {
                    assert(selected_at(cameras@, names_of(wanted@), j));
                    assert(has_job(jobs@, n, fi, j));
                }
            }
        }
        i = i + 1;
    }
    jobs
}

} // verus!
