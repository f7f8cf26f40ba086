# unifi_protect_bulk_download

Bulk download of UniFi Protect footage, one file per camera and per day or
hour of a date range:

    unifi_protect_bulk_download download <uri> <username> <password> <path> <mode> <recording_type> <start_date> <end_date> [cameras...]

`mode` is `daily` or `hourly`, `recording_type` is `rotating` or `timelapse`,
the dates are `YYYY-MM-DD` or `YYYY-MM-DD-HH`, and the cameras are names or ids
(comma-separated; `all` or `*` for every camera).

## Layout

- `src/` — the verified library (Verus):
  - `parse_args` — the command-line grammar;
  - `date_input` — range bounds, parsed with chrono;
  - `calendar` — dates and wall-clock times, their order, day and hour
    arithmetic and their text;
  - `frames` — the split of a range into hourly or daily frames, with the
    proof that the frames cover the range once, block by block;
  - `zone` — placing a wall-clock time in a time zone (single, repeated or
    skipped times);
  - `api` — request URLs and the meaning of the NVR's answers;
  - `download` — camera selection and file names;
  - `output_path` — decisions of the output-directory check;
  - `app_error` — errors and their messages; `text` — numerals and padding.
- `app/` — the program: arguments, HTTP (reqwest), the local time zone, the
  file system.
- `tests/` — tests of the library.
