//! Checks of the output directory before anything is downloaded: that it
//! exists, is a directory and can be written to. The file system is queried
//! by the caller; this module decides.
use vstd::prelude::*;
use crate::app_error::{AppError, IoErrorKind, IoFailure};
use crate::text::{decimal, push_decimal};

verus! {

/// How many probe file names are tried before giving up.
pub const PROBE_ATTEMPTS: usize = 10;

/// `component` pushed onto the path `buf`, `/`-separated: an absolute
/// component replaces the path; otherwise a `/` is put between them unless
/// `buf` is empty or already ends with one.
pub open spec fn push_component(buf: Seq<char>, component: Seq<char>) -> Seq<char> {
    if component.len() > 0 && component[0] == '/' {
        component
    } else if buf.len() == 0 {
        component
    } else if buf.last() == '/' {
        buf + component
    } else {
        buf + "/"@ + component
    }
}

/// The paths made of the first `1`, `2`, ... `k` components.
pub open spec fn prefixes(components: Seq<Seq<char>>, k: int) -> Seq<Seq<char>>
    decreases k,
{
    if k <= 0 {
        Seq::empty()
    } else {
        let before = prefixes(components, k - 1);
        let buf = if k == 1 { Seq::<char>::empty() } else { before.last() };
        before.push(push_component(buf, components[k - 1]))
    }
}

proof fn lemma_prefixes_len(components: Seq<Seq<char>>, k: int)
    requires
        k >= 0,
    ensures
        prefixes(components, k).len() == k,
    decreases k,
{
    if k > 0 {
        lemma_prefixes_len(components, k - 1);
    }
}

/// Does `s` end with `/`?
fn ends_with_slash(s: &str) -> (r: bool)
    ensures
        r == (s@.len() > 0 && s@.last() == '/'),
{
    let n = s.unicode_len();
    n > 0 && s.get_char(n - 1) == '/'
}

/// Does `s` start with `/`?
fn starts_with_slash(s: &str) -> (r: bool)
    ensures
        r == (s@.len() > 0 && s@[0] == '/'),
{
    s.unicode_len() > 0 && s.get_char(0) == '/'
}

/// The successive paths that lead to a path with the given components: the
/// first component, the first two joined, and so on up to the whole path.
pub fn path_prefixes(components: &Vec<String>) -> (r: Vec<String>)
    ensures
        r@.map_values(|p: String| p@) == prefixes(components@.map_values(|c: String| c@), components.len() as int),
{
    let ghost comps = components@.map_values(|c: String| c@);
    let mut out: Vec<String> = Vec::new();
    let mut i: usize = 0;
    while i < components.len()
        invariant
            i <= components.len(),
            comps == components@.map_values(|c: String| c@),
            out@.map_values(|p: String| p@) == prefixes(comps, i as int),
        decreases components.len() - i,
    {
        proof {
            lemma_prefixes_len(comps, i as int);
        }
        let c = components[i].as_str();
        assert(c@ == comps[i as int]);
        let next = if starts_with_slash(c) || i == 0 {
            c.to_owned()
        } else {
            let buf = out[i - 1].as_str();
            assert(buf@ == prefixes(comps, i as int).last());
            if buf.unicode_len() == 0 {
                c.to_owned()
            } else if ends_with_slash(buf) {
                let mut p = buf.to_owned();
                p.append(c);
                p
            } else {
                let mut p = buf.to_owned();
                p.append("/");
                p.append(c);
                p
            }
        };
        let ghost before = out@.map_values(|p: String| p@);
        out.push(next);
        proof {
            assert(out@.map_values(|p: String| p@) =~= before.push(next@));
        }
        i = i + 1;
    }
    out
}

/// The index of the first missing path, if any.
pub open spec fn first_missing_index(exists: Seq<bool>) -> Option<int> {
    if exists.contains(false) {
        Some(choose|k: int| 0 <= k < exists.len() && !exists[k] && forall|j: int| 0 <= j < k ==> exists[j])
    } else {
        None
    }
}

/// Given the successive prefixes of a path and whether each exists, the
/// deepest prefix that exists before the first missing one, and the first
/// missing one (`None` when every prefix exists).
pub fn first_missing_path(prefixes: &Vec<String>, exists: &Vec<bool>) -> (r: (Option<String>, Option<String>))
    requires
        exists.len() == prefixes.len(),
    ensures
        match first_missing_index(exists@) {
            Some(k) => (if k == 0 { r.0 is None } else { r.0 matches Some(p) && p@ == prefixes[k - 1]@ })
                && (r.1 matches Some(m) && m@ == prefixes[k]@),
            None => r.1 is None && (if prefixes.len() == 0 { r.0 is None } else { r.0 matches Some(p)
                && p@ == prefixes[prefixes.len() - 1]@ }),
        },
{
    let mut existing_parent: Option<String> = None;
    let mut i: usize = 0;
    while i < prefixes.len()
        invariant
            i <= prefixes.len(),
            exists.len() == prefixes.len(),
            forall|j: int| 0 <= j < i ==> exists[j],
            if i == 0 { existing_parent is None } else { existing_parent matches Some(p) && p@
                == prefixes[i - 1]@ },
        decreases prefixes.len() - i,
    {
        if !exists[i] {
            proof {
                assert(exists@.contains(false)) by {
                    assert(exists@[i as int] == false);
                }
                let k = first_missing_index(exists@)->0;
                assert(k == i) by {
                    if k < i {
                        assert(exists[k]);
                    }
                    if k > i {
                    }
                }
            }
            return (existing_parent, Some(prefixes[i].clone()));
        }
        existing_parent = Some(prefixes[i].clone());
        i = i + 1;
    }
    proof {
        assert(!exists@.contains(false));
    }
    (existing_parent, None)
}

/// What the caller found at the output path.
#[derive(Clone, Debug)]
pub enum PathMetadata {
    /// Its metadata could not be read.
    Unreadable(IoFailure),
    /// An entry: whether it is a directory and whether it is read-only.
    Entry { is_dir: bool, readonly: bool },
}

/// What remains to be done once the metadata has been checked.
#[derive(Clone, Copy, Debug, PartialEq, Eq, Structural)]
pub enum OutputCheck {
    /// Nothing: the path is usable.
    Ready,
    /// Writing a probe file must show that the directory is writable.
    Probe,
}

/// The message of the error for a read-only directory.
pub open spec fn read_only_message() -> Seq<char> {
    "path is read-only"@
}

/// Checks the output path from its metadata. An unreadable path is
/// inaccessible; when it does not exist, `first_missing` (the deepest existing
/// prefix and the first missing one) goes into the error. A path that is not a
/// directory, or is read-only, is refused. Otherwise the path is ready, or a
/// probe is due when `probe_writable` asks for one.
pub fn validate(path: &str, metadata: PathMetadata, probe_writable: bool, first_missing: (Option<String>, Option<String>)) -> (r: Result<OutputCheck, AppError>)
    ensures
        match metadata {
            PathMetadata::Unreadable(source) => r matches Err(AppError::OutputPathInaccessible { path: p, existing_parent, missing_path, source: s })
                && p@ == path@ && s == source && (if source.kind == IoErrorKind::NotFound {
                existing_parent == first_missing.0 && missing_path == first_missing.1
            } else {
                existing_parent is None && missing_path is None
            }),
            PathMetadata::Entry { is_dir, readonly } => if !is_dir {
                r matches Err(AppError::OutputPathNotDirectory { path: p }) && p@ == path@
            } else if readonly {
                r matches Err(AppError::OutputPathNotWritable { path: p, source }) && p@ == path@
                    && source.kind == IoErrorKind::PermissionDenied && source.message@
                    == read_only_message()
            } else {
                r == Ok::<OutputCheck, AppError>(if probe_writable { OutputCheck::Probe } else { OutputCheck::Ready })
            },
        },
{
    match metadata {
        PathMetadata::Unreadable(source) => {
            let (existing_parent, missing_path) = match source.kind {
                IoErrorKind::NotFound => first_missing,
                _ => (None, None),
            };
            Err(AppError::OutputPathInaccessible { path: path.to_owned(), existing_parent, missing_path, source })
        },
        PathMetadata::Entry { is_dir, readonly } => {
            if !is_dir {
                Err(AppError::OutputPathNotDirectory { path: path.to_owned() })
            } else if readonly {
                Err(AppError::OutputPathNotWritable {
                    path: path.to_owned(),
                    source: IoFailure { kind: IoErrorKind::PermissionDenied, message: "path is read-only".to_owned() },
                })
            } else if probe_writable {
                Ok(OutputCheck::Probe)
            } else {
                Ok(OutputCheck::Ready)
            }
        },
    }
}

/// The name of probe file number `attempt`.
pub open spec fn probe_name_text(pid: u32, timestamp_nanos: u128, attempt: usize) -> Seq<char> {
    ".unifi-protect-bulk-download-write-test-"@ + decimal(pid as nat) + "-"@ + decimal(
        timestamp_nanos as nat,
    ) + "-"@ + decimal(attempt as nat)
}

/// The name of a probe file, unique to the process, the time and the attempt.
pub fn probe_file_name(pid: u32, timestamp_nanos: u128, attempt: usize) -> (r: String)
    ensures
        r@ == probe_name_text(pid, timestamp_nanos, attempt),
{
    let mut s = String::from_str(".unifi-protect-bulk-download-write-test-");
    push_decimal(&mut s, pid as u128);
    s.append("-");
    push_decimal(&mut s, timestamp_nanos);
    s.append("-");
    push_decimal(&mut s, attempt as u128);
    s
}

/// What happened to one probe attempt.
#[derive(Clone, Debug)]
pub enum ProbeAttempt {
    /// A file of that name exists already.
    AlreadyExists,
    /// Creating the file failed otherwise.
    CreateFailed(IoFailure),
    /// Writing to the new file failed (it was removed again).
    WriteFailed(IoFailure),
    /// The file was written but could not be removed.
    RemoveFailed(IoFailure),
    /// The file was written and removed.
    Succeeded,
}

/// What to do after a probe attempt.
#[derive(Debug)]
pub enum ProbeAction {
    /// Try again with this attempt number.
    Retry(usize),
    /// Stop with this result.
    Finish(Result<(), AppError>),
}

/// The message once every probe name was taken.
pub open spec fn probe_exhausted_message() -> Seq<char> {
    "could not create a unique output path probe file without overwriting an existing file"@
}

/// Decides after probe attempt number `attempt` (counted from 0): a taken name
/// means another attempt, up to `PROBE_ATTEMPTS` in all; success ends the
/// check; any failure makes the path not writable.
pub fn probe_step(path: &str, attempt: usize, outcome: ProbeAttempt) -> (r: ProbeAction)
    requires
        attempt < PROBE_ATTEMPTS,
    ensures
        match outcome {
            ProbeAttempt::AlreadyExists => if attempt + 1 < PROBE_ATTEMPTS {
                r matches ProbeAction::Retry(n) && n == attempt + 1
            } else {
                r matches ProbeAction::Finish(Err(AppError::OutputPathNotWritable { path: p, source }))
                    && p@ == path@ && source.kind == IoErrorKind::AlreadyExists && source.message@
                    == probe_exhausted_message()
            },
            ProbeAttempt::CreateFailed(e) => r matches ProbeAction::Finish(Err(AppError::OutputPathNotWritable { path: p, source }))
                && p@ == path@ && source == e,
            ProbeAttempt::WriteFailed(e) => r matches ProbeAction::Finish(Err(AppError::OutputPathNotWritable { path: p, source }))
                && p@ == path@ && source == e,
            ProbeAttempt::RemoveFailed(e) => r matches ProbeAction::Finish(Err(AppError::OutputPathNotWritable { path: p, source }))
                && p@ == path@ && source == e,
            ProbeAttempt::Succeeded => r matches ProbeAction::Finish(Ok(())),
        },
{
    match outcome {
        ProbeAttempt::AlreadyExists => {
            if attempt + 1 < PROBE_ATTEMPTS {
                ProbeAction::Retry(attempt + 1)
            } else {
                ProbeAction::Finish(Err(AppError::OutputPathNotWritable {
                    path: path.to_owned(),
                    source: IoFailure {
                        kind: IoErrorKind::AlreadyExists,
                        message: "could not create a unique output path probe file without overwriting an existing file".to_owned(),
                    },
                }))
            }
        },
        ProbeAttempt::CreateFailed(e) => ProbeAction::Finish(Err(AppError::OutputPathNotWritable { path: path.to_owned(), source: e })),
        ProbeAttempt::WriteFailed(e) => ProbeAction::Finish(Err(AppError::OutputPathNotWritable { path: path.to_owned(), source: e })),
        ProbeAttempt::RemoveFailed(e) => ProbeAction::Finish(Err(AppError::OutputPathNotWritable { path: path.to_owned(), source: e })),
        ProbeAttempt::Succeeded => ProbeAction::Finish(Ok(())),
    }
}

} // verus!
