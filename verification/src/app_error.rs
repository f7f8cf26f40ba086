//! The errors of the tool and the messages it prints for them.
use vstd::prelude::*;
use crate::calendar::{CivilDateTime, datetime_text};

verus! {

/// Why chrono refused to parse a date (its `ParseErrorKind`).
#[derive(Clone, Copy, Debug, PartialEq, Eq, Structural)]
pub enum DateParseErrorKind {
    OutOfRange,
    Impossible,
    NotEnough,
    Invalid,
    TooShort,
    TooLong,
    BadFormat,
    /// A kind that the parser never reports.
    Unrecognized,
}

/// The classes of I/O failure that the checks tell apart.
#[derive(Clone, Copy, Debug, PartialEq, Eq, Structural)]
pub enum IoErrorKind {
    NotFound,
    PermissionDenied,
    AlreadyExists,
    Other,
}

/// An I/O failure: its class and the message the system gave for it.
#[derive(Clone, Debug)]
pub struct IoFailure {
    pub kind: IoErrorKind,
    pub message: String,
}

/// Everything that can go wrong while planning or running a download.
#[derive(Clone, Debug)]
pub enum AppError {
    ParseDate { input: String, source: DateParseErrorKind },
    InvalidDateRange { start: CivilDateTime, end: CivilDateTime },
    DateConstruction { context: String },
    DateConversion { context: String },
    DateOverflow { context: String },
    InvalidMode { mode: String },
    OutputPathInaccessible {
        path: String,
        existing_parent: Option<String>,
        missing_path: Option<String>,
        source: IoFailure,
    },
    OutputPathNotDirectory { path: String },
    OutputPathNotWritable { path: String, source: IoFailure },
    Api { context: String, source: String },
}

/// chrono's message for a parse failure of this kind.
pub open spec fn parse_error_text(kind: DateParseErrorKind) -> Seq<char> {
    match kind {
        DateParseErrorKind::OutOfRange => "input is out of range"@,
        DateParseErrorKind::Impossible => "no possible date and time matching input"@,
        DateParseErrorKind::NotEnough => "input is not enough for unique date and time"@,
        DateParseErrorKind::Invalid => "input contains invalid characters"@,
        DateParseErrorKind::TooShort => "premature end of input"@,
        DateParseErrorKind::TooLong => "trailing input"@,
        DateParseErrorKind::BadFormat => "bad or unsupported format string"@,
        DateParseErrorKind::Unrecognized => "unrecognized parse error"@,
    }
}

/// The message printed for an error.
pub open spec fn error_text(e: AppError) -> Seq<char> {
    match e {
        AppError::ParseDate { input, source } => "failed to parse date '"@ + input@ + "': "@
            + parse_error_text(source),
        AppError::InvalidDateRange { start, end } => "invalid date range: end date/time '"@
            + datetime_text(end) + "' is before start date/time '"@ + datetime_text(start) + "'"@,
        AppError::DateConstruction { context } => "invalid date/time: "@ + context@,
        AppError::DateConversion { context } => "time zone conversion failed: "@ + context@,
        AppError::DateOverflow { context } => "date arithmetic failed: "@ + context@,
        AppError::InvalidMode { mode } => "invalid download mode '"@ + mode@ + "'"@,
        AppError::OutputPathInaccessible { path, existing_parent, missing_path, source } => {
            let head = "pre-download output path check failed: '"@ + path@ + "' is not accessible: "@;
            match (existing_parent, missing_path) {
                (Some(parent), Some(missing)) => head + "path exists up to '"@ + parent@
                    + "', but '"@ + missing@ + "' does not exist ("@ + source.message@ + ")"@,
                _ => head + source.message@,
            }
        },
        AppError::OutputPathNotDirectory { path } => "pre-download output path check failed: '"@
            + path@ + "' is not a directory"@,
        AppError::OutputPathNotWritable { path, source } =>
            "pre-download output path check failed: '"@ + path@ + "' is not writable: "@
            + source.message@,
        AppError::Api { context, source } => context@ + ": "@ + source@,
    }
}

impl DateParseErrorKind {
    /// chrono's message for this kind of parse failure.
    pub fn message(&self) -> (r: &'static str)
        ensures
            r@ == parse_error_text(*self),
    {
        match self {
            DateParseErrorKind::OutOfRange => "input is out of range",
            DateParseErrorKind::Impossible => "no possible date and time matching input",
            DateParseErrorKind::NotEnough => "input is not enough for unique date and time",
            DateParseErrorKind::Invalid => "input contains invalid characters",
            DateParseErrorKind::TooShort => "premature end of input",
            DateParseErrorKind::TooLong => "trailing input",
            DateParseErrorKind::BadFormat => "bad or unsupported format string",
            DateParseErrorKind::Unrecognized => "unrecognized parse error",
        }
    }
}

impl AppError {
    /// The error for an input that is not a date.
    pub fn parse_date(input: &str, source: DateParseErrorKind) -> (r: AppError)
        ensures
            r matches AppError::ParseDate { input: i, source: s } && i@ == input@ && s == source,
    {
        AppError::ParseDate { input: input.to_owned(), source }
    }

    /// The message printed for this error.
    pub fn to_string(&self) -> (r: String)
        ensures
            r@ == error_text(*self),
    {
        match self {
            AppError::ParseDate { input, source } => {
                let mut m = String::from_str("failed to parse date '");
                m.append(input.as_str());
                m.append("': ");
                m.append(source.message());
                m
            },
            AppError::InvalidDateRange { start, end } => {
                let mut m = String::from_str("invalid date range: end date/time '");
                end.push_text(&mut m);
                m.append("' is before start date/time '");
                start.push_text(&mut m);
                m.append("'");
                m
            },
            AppError::DateConstruction { context } => {
                let mut m = String::from_str("invalid date/time: ");
                m.append(context.as_str());
                m
            },
            AppError::DateConversion { context } => {
                let mut m = String::from_str("time zone conversion failed: ");
                m.append(context.as_str());
                m
            },
            AppError::DateOverflow { context } => {
                let mut m = String::from_str("date arithmetic failed: ");
                m.append(context.as_str());
                m
            },
            AppError::InvalidMode { mode } => {
                let mut m = String::from_str("invalid download mode '");
                m.append(mode.as_str());
                m.append("'");
                m
            },
            AppError::OutputPathInaccessible { path, existing_parent, missing_path, source } => {
                let mut m = String::from_str("pre-download output path check failed: '");
                m.append(path.as_str());
                m.append("' is not accessible: ");
                match (existing_parent, missing_path) {
                    (Some(parent), Some(missing)) => {
                        m.append("path exists up to '");
                        m.append(parent.as_str());
                        m.append("', but '");
                        m.append(missing.as_str());
                        m.append("' does not exist (");
                        m.append(source.message.as_str());
                        m.append(")");
                    },
                    _ => {
                        m.append(source.message.as_str());
                    },
                }
                m
            },
            AppError::OutputPathNotDirectory { path } => {
                let mut m = String::from_str("pre-download output path check failed: '");
                m.append(path.as_str());
                m.append("' is not a directory");
                m
            },
            AppError::OutputPathNotWritable { path, source } => {
                let mut m = String::from_str("pre-download output path check failed: '");
                m.append(path.as_str());
                m.append("' is not writable: ");
                m.append(source.message.as_str());
                m
            },
            AppError::Api { context, source } => {
                let mut m = context.clone();
                m.append(": ");
                m.append(source.as_str());
                m
            },
        }
    }
}

/// An error from the API client: what was being done and what went wrong.
pub fn api_error(context: &str, source: &str) -> (r: AppError)
    ensures
        r matches AppError::Api { context: c, source: s } && c@ == context@ && s@ == source@,
{
    AppError::Api { context: context.to_owned(), source: source.to_owned() }
}

} // verus!
