//! Planning and bookkeeping for bulk downloads of UniFi Protect footage:
//! command-line grammar, calendar arithmetic on local date-times, the split of
//! a date range into daily or hourly frames, API request/response rules, output
//! path checks and error messages.
pub mod api;
pub mod app_error;
pub mod calendar;
pub mod date_input;
pub mod download;
pub mod frames;
pub mod output_path;
pub mod parse_args;
pub mod text;
pub mod zone;
