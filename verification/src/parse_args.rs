//! The command line: `download <uri> <username> <password> <out_path> <mode>
//! <recording_type> <start_date> <end_date> [cameras...]`.
use vstd::prelude::*;
use crate::text::{
    indented_lines, joined, names_of, push_char, push_indented_lines, push_joined, str_eq,
};

verus! {

/// Whether footage is fetched one file per day or one file per hour.
#[derive(Clone, Copy, Debug, PartialEq, Eq, Structural)]
pub enum DownloadMode {
    Daily,
    Hourly,
}

/// Real-time recordings or timelapse footage.
#[derive(Clone, Copy, Debug, PartialEq, Eq, Structural)]
pub enum RecordingType {
    Rotating,
    Timelapse,
}

impl RecordingType {
    /// The name the API and the file names use for this recording type.
    pub fn as_str(&self) -> (r: &'static str)
        ensures
            r@ == (match self {
                RecordingType::Rotating => "rotating"@,
                RecordingType::Timelapse => "timelapse"@,
            }),
    {
        match self {
            RecordingType::Rotating => "rotating",
            RecordingType::Timelapse => "timelapse",
        }
    }
}

/// The parsed command line.
#[derive(Clone, Debug)]
pub struct Cli {
    pub command: Commands,
}

/// The subcommands of the tool.
#[derive(Clone, Debug)]
pub enum Commands {
    /// Download footage from the UniFi Protect server.
    Download(DownloadArgs),
}

/// The arguments of `download`.
#[derive(Clone, Debug)]
pub struct DownloadArgs {
    /// The URI of the UniFi Protect server.
    pub uri: String,
    /// The username for logging into the UniFi Protect server.
    pub username: String,
    /// The password for logging into the UniFi Protect server.
    pub password: String,
    /// The path to the directory to download files to.
    pub out_path: String,
    /// The mode to download files in.
    pub mode: DownloadMode,
    /// The type of recording to download.
    pub recording_type: RecordingType,
    /// The start date/time to download files from (YYYY-MM-DD or YYYY-MM-DD-HH).
    pub start_date: String,
    /// The end date/time to download files to (YYYY-MM-DD or YYYY-MM-DD-HH).
    pub end_date: String,
    /// Camera names/ids, or `all` / `*`; each argument may hold several,
    /// separated by commas.
    pub cameras: Vec<String>,
}

/// Why a command line is not a download request.
#[derive(Clone, Debug)]
pub enum ArgsError {
    /// No subcommand was given.
    MissingSubcommand,
    /// The first argument names no subcommand.
    UnknownSubcommand(String),
    /// A flag that the tool does not have; `positionals_follow` when it came
    /// where a positional argument could have taken it as a value.
    UnknownArgument { arg: String, positionals_follow: bool },
    /// Required positional arguments are missing (their value names, in order).
    MissingArguments(Vec<String>),
    /// A value that the argument does not accept, and the values it does.
    InvalidValue { arg: String, value: String, possible_values: Vec<String> },
    /// `-h`, `--help` or `help`: the usage text of this command is wanted.
    HelpRequested(HelpTopic),
    /// `-V` or `--version`: the version is wanted.
    VersionRequested,
}

/// The command whose usage text was asked for.
#[derive(Clone, Copy, Debug, PartialEq, Eq, Structural)]
pub enum HelpTopic {
    /// The program as a whole.
    Program,
    /// The `download` subcommand.
    Download,
    /// The `help` subcommand itself.
    Help,
}

/// The message printed for a refused command line, as clap words it.
pub open spec fn args_error_text(e: ArgsError) -> Seq<char> {
    match e {
        ArgsError::MissingSubcommand => "error: 'unifi_protect_bulk_download' requires a subcommand but one was not provided\n  [subcommands: download, help]"@,
        ArgsError::UnknownSubcommand(s) => "error: unrecognized subcommand '"@ + s@ + "'"@,
        ArgsError::UnknownArgument { arg, positionals_follow } => "error: unexpected argument '"@
            + arg@ + "' found"@ + if positionals_follow {
            "\n\n  tip: to pass '"@ + arg@ + "' as a value, use '-- "@ + arg@ + "'"@
        } else {
            Seq::empty()
        },
        ArgsError::MissingArguments(names) =>
            "error: the following required arguments were not provided:"@ + indented_lines(
            names_of(names@),
        ),
        ArgsError::InvalidValue { arg, value, possible_values } => (if value@.len() == 0 {
            "error: a value is required for '"@ + arg@ + "' but none was supplied"@
        } else {
            "error: invalid value '"@ + value@ + "' for '"@ + arg@ + "'"@
        }) + if possible_values@.len() == 0 {
            Seq::empty()
        } else {
            "\n  [possible values: "@ + joined(names_of(possible_values@), ", "@) + "]"@
        },
        ArgsError::HelpRequested(_) => "help requested"@,
        ArgsError::VersionRequested => "version requested"@,
    }
}

impl ArgsError {
    /// The message printed for this refusal (without clap's usage lines).
    pub fn to_string(&self) -> (r: String)
        ensures
            r@ == args_error_text(*self),
    {
        match self {
            ArgsError::MissingSubcommand => "error: 'unifi_protect_bulk_download' requires a subcommand but one was not provided\n  [subcommands: download, help]".to_owned(),
            ArgsError::UnknownSubcommand(s) => {
                let mut m = String::from_str("error: unrecognized subcommand '");
                m.append(s.as_str());
                m.append("'");
                m
            },
            ArgsError::UnknownArgument { arg, positionals_follow } => {
                let mut m = String::from_str("error: unexpected argument '");
                m.append(arg.as_str());
                m.append("' found");
                if *positionals_follow {
                    m.append("\n\n  tip: to pass '");
                    m.append(arg.as_str());
                    m.append("' as a value, use '-- ");
                    m.append(arg.as_str());
                    m.append("'");
                }
                assert(m@ =~= args_error_text(*self));
                m
            },
            ArgsError::MissingArguments(names) => {
                let mut m = String::from_str("error: the following required arguments were not provided:");
                push_indented_lines(&mut m, names);
                m
            },
            ArgsError::InvalidValue { arg, value, possible_values } => {
                let mut m = if value.as_str().unicode_len() == 0 {
                    let mut m = String::from_str("error: a value is required for '");
                    m.append(arg.as_str());
                    m.append("' but none was supplied");
                    m
                } else {
                    let mut m = String::from_str("error: invalid value '");
                    m.append(value.as_str());
                    m.append("' for '");
                    m.append(arg.as_str());
                    m.append("'");
                    m
                };
                if possible_values.len() > 0 {
                    m.append("\n  [possible values: ");
                    push_joined(&mut m, possible_values, ", ");
                    m.append("]");
                }
                assert(m@ =~= args_error_text(*self));
                m
            },
            ArgsError::HelpRequested(_) => "help requested".to_owned(),
            ArgsError::VersionRequested => "version requested".to_owned(),
        }
    }
}

/// The values the positional argument at index `k` accepts, if it is limited
/// to some (the mode and the recording type).
pub open spec fn possible_values(k: int) -> Seq<Seq<char>> {
    if k == 4 {
        seq!["daily"@, "hourly"@]
    } else if k == 5 {
        seq!["rotating"@, "timelapse"@]
    } else {
        Seq::empty()
    }
}

/// The value names of the positional arguments from index `n` on.
pub open spec fn missing_names(n: int) -> Seq<Seq<char>> {
    Seq::new((8 - n) as nat, |k: int| positional_name(n + k))
}

/// The names of the positional arguments of `download`, in order.
pub open spec fn positional_name(k: int) -> Seq<char> {
    if k == 0 {
        "<URI>"@
    } else if k == 1 {
        "<USERNAME>"@
    } else if k == 2 {
        "<PASSWORD>"@
    } else if k == 3 {
        "<OUT_PATH>"@
    } else if k == 4 {
        "<MODE>"@
    } else if k == 5 {
        "<RECORDING_TYPE>"@
    } else if k == 6 {
        "<START_DATE>"@
    } else {
        "<END_DATE>"@
    }
}

pub open spec fn mode_of(t: Seq<char>) -> Option<DownloadMode> {
    if t == "daily"@ {
        Some(DownloadMode::Daily)
    } else if t == "hourly"@ {
        Some(DownloadMode::Hourly)
    } else {
        None
    }
}

pub open spec fn recording_type_of(t: Seq<char>) -> Option<RecordingType> {
    if t == "rotating"@ {
        Some(RecordingType::Rotating)
    } else if t == "timelapse"@ {
        Some(RecordingType::Timelapse)
    } else {
        None
    }
}

pub open spec fn is_help_flag(t: Seq<char>) -> bool {
    t == "-h"@ || t == "--help"@
}

pub open spec fn is_version_flag(t: Seq<char>) -> bool {
    t == "-V"@ || t == "--version"@
}

/// A flag: starts with `-` and is longer than `-` alone.
pub open spec fn looks_like_flag(t: Seq<char>) -> bool {
    t.len() > 1 && t[0] == '-'
}

/// The outcome of reading the arguments of `download`, in spec form.
pub enum Scan {
    Help,
    Version,
    /// The argument at this index is an unknown flag.
    Unknown(int),
    /// The argument at this index is not a value that the positional
    /// argument with the second index accepts.
    Invalid(int, int),
    /// The indices of the positional arguments, in order.
    Done(Seq<int>),
}

/// Reads `tokens[i..]` left to right: `--` ends the flags; a help or version
/// flag stops the reading; any other flag is refused; every other argument is
/// positional, and the fifth and sixth must name a mode and a recording type.
pub open spec fn scan(tokens: Seq<Seq<char>>, i: int, positions: Seq<int>, escaped: bool) -> Scan
    decreases tokens.len() - i,
{
    if i < 0 || i >= tokens.len() {
        Scan::Done(positions)
    } else {
        let t = tokens[i];
        if !escaped && t == "--"@ {
            scan(tokens, i + 1, positions, true)
        } else if !escaped && is_help_flag(t) {
            Scan::Help
        } else if !escaped && is_version_flag(t) {
            Scan::Version
        } else if !escaped && looks_like_flag(t) {
            Scan::Unknown(i)
        } else if positions.len() == 4 && mode_of(t) is None {
            Scan::Invalid(i, 4)
        } else if positions.len() == 5 && recording_type_of(t) is None {
            Scan::Invalid(i, 5)
        } else {
            scan(tokens, i + 1, positions.push(i), escaped)
        }
    }
}

/// `s` cut at every `sep` (as `str::split`: empty pieces are kept).
pub open spec fn split_on(s: Seq<char>, sep: char) -> Seq<Seq<char>>
    decreases s.len(),
{
    if s.len() == 0 {
        seq![Seq::<char>::empty()]
    } else {
        let rest = split_on(s.drop_last(), sep);
        if s.last() == sep {
            rest.push(Seq::<char>::empty())
        } else {
            rest.update(rest.len() - 1, rest.last().push(s.last()))
        }
    }
}

/// The camera list: the positional arguments from the ninth on, each split at
/// commas, in order.
pub open spec fn camera_list(tokens: Seq<Seq<char>>, positions: Seq<int>, k: int) -> Seq<Seq<char>>
    decreases positions.len() - k,
{
    if k < 8 || k >= positions.len() {
        Seq::empty()
    } else {
        split_on(tokens[positions[k]], ',') + camera_list(tokens, positions, k + 1)
    }
}

/// Appending a piece after at least eight positional arguments appends its
/// comma-separated parts to the camera list.
pub proof fn lemma_camera_list_push(tokens: Seq<Seq<char>>, positions: Seq<int>, i: int, k: int)
    requires
        8 <= k <= positions.len(),
    ensures
        camera_list(tokens, positions.push(i), k) == camera_list(tokens, positions, k) + split_on(
            tokens[i],
            ',',
        ),
    decreases positions.len() - k,
{
    let p2 = positions.push(i);
    if k == positions.len() {
        assert(camera_list(tokens, positions, k) == Seq::<Seq<char>>::empty());
        assert(camera_list(tokens, p2, k + 1) == Seq::<Seq<char>>::empty());
        assert(p2[k] == i);
        assert(camera_list(tokens, p2, k) =~= split_on(tokens[i], ',') + Seq::<Seq<char>>::empty());
    } else {
        lemma_camera_list_push(tokens, positions, i, k + 1);
        assert(p2[k] == positions[k]);
        assert(camera_list(tokens, p2, k) =~= split_on(tokens[positions[k]], ',') + (camera_list(
            tokens,
            positions,
            k + 1,
        ) + split_on(tokens[i], ',')));
    }
}

/// Splitting gives at least one piece.
pub proof fn lemma_split_nonempty(s: Seq<char>, sep: char)
    ensures
        split_on(s, sep).len() >= 1,
    decreases s.len(),
{
    if s.len() > 0 {
        lemma_split_nonempty(s.drop_last(), sep);
    }
}

/// Appends the comma-separated parts of `s` to `out`.
pub fn push_comma_pieces(out: &mut Vec<String>, s: &str)
    ensures
        final(out).len() == old(out).len() + split_on(s@, ',').len(),
        forall|j: int| 0 <= j < old(out).len() ==> final(out)[j] == old(out)[j],
        forall|j: int|
            0 <= j < split_on(s@, ',').len() ==> #[trigger] final(out)[old(out).len() + j]@
                == split_on(s@, ',')[j],
{
    let n = s.unicode_len();
    let mut cur = String::new();
    let ghost base = old(out).len();
    let mut i: usize = 0;
    proof {
        assert(s@.take(0) =~= Seq::<char>::empty());
    }
    while i < n
        invariant
            n == s@.len(),
            i <= n,
            base == old(out).len(),
            out.len() + 1 == base + split_on(s@.take(i as int), ',').len(),
            forall|j: int| 0 <= j < base ==> out[j] == old(out)[j],
            forall|j: int|
                0 <= j < out.len() - base ==> #[trigger] out[base + j]@ == split_on(
                    s@.take(i as int),
                    ',',
                )[j],
            cur@ == split_on(s@.take(i as int), ',').last(),
        decreases n - i,
    {
        let c = s.get_char(i);
        let ghost prev = split_on(s@.take(i as int), ',');
        proof {
            lemma_split_nonempty(s@.take(i as int), ',');
            assert(s@.take(i + 1).drop_last() =~= s@.take(i as int));
            assert(s@.take(i + 1).last() == c);
        }
        if c == ',' {
            out.push(cur);
            cur = String::new();
        } else {
            push_char(&mut cur, c);
        }
        i = i + 1;
        proof {
            lemma_split_nonempty(s@.take(i as int), ',');
        }
    }
    proof {
        assert(s@.take(n as int) =~= s@);
        lemma_split_nonempty(s@, ',');
    }
    out.push(cur);
}

/// What the arguments of `download` (`tokens[1..]`) give.
pub open spec fn download_outcome(tokens: Seq<Seq<char>>, r: Result<Cli, ArgsError>) -> bool {
            match scan(tokens, 1, Seq::empty(), false) {
                Scan::Help => r matches Err(ArgsError::HelpRequested(t)) && t == HelpTopic::Download,
                Scan::Version => r matches Err(ArgsError::VersionRequested),
                Scan::Unknown(i) => r matches Err(ArgsError::UnknownArgument { arg: t, positionals_follow })
                    && t@ == tokens[i] && positionals_follow,
                Scan::Invalid(i, k) => r matches Err(ArgsError::InvalidValue { arg, value, possible_values: p })
                    && arg@ == positional_name(k) && value@ == tokens[i] && names_of(p@) == possible_values(k),
                Scan::Done(ps) => if ps.len() < 8 {
                    r matches Err(ArgsError::MissingArguments(names)) && names_of(names@)
                        == missing_names(ps.len() as int)
                } else {
                    r matches Ok(cli) && ({
                        let Commands::Download(d) = cli.command;
                        &&& d.uri@ == tokens[ps[0]]
                        &&& d.username@ == tokens[ps[1]]
                        &&& d.password@ == tokens[ps[2]]
                        &&& d.out_path@ == tokens[ps[3]]
                        &&& mode_of(tokens[ps[4]]) == Some(d.mode)
                        &&& recording_type_of(tokens[ps[5]]) == Some(d.recording_type)
                        &&& d.start_date@ == tokens[ps[6]]
                        &&& d.end_date@ == tokens[ps[7]]
                        &&& d.cameras@.map_values(|c: String| c@) == camera_list(tokens, ps, 8)
                    })
                },
            }
}

/// The `help` subcommand: each of `tokens[i..]` must name a subcommand of the
/// command reached so far (`download` and `help` are those of the program;
/// neither has any). The command reached, or the index of the first argument
/// that names none.
pub open spec fn help_walk(tokens: Seq<Seq<char>>, i: int, topic: HelpTopic) -> Result<HelpTopic, int>
    decreases tokens.len() - i,
{
    if i < 0 || i >= tokens.len() {
        Ok(topic)
    } else if topic == HelpTopic::Program && tokens[i] == "download"@ {
        help_walk(tokens, i + 1, HelpTopic::Download)
    } else if topic == HelpTopic::Program && tokens[i] == "help"@ {
        help_walk(tokens, i + 1, HelpTopic::Help)
    } else {
        Err(i)
    }
}

/// What a command line (`tokens`, without the program name) gives.
pub open spec fn parse_outcome(tokens: Seq<Seq<char>>, r: Result<Cli, ArgsError>) -> bool {
    if tokens.len() == 0 {
        r matches Err(ArgsError::MissingSubcommand)
    } else {
        let first = tokens[0];
        if is_help_flag(first) {
            r matches Err(ArgsError::HelpRequested(t)) && t == HelpTopic::Program
        } else if first == "help"@ {
            match help_walk(tokens, 1, HelpTopic::Program) {
                Ok(topic) => r matches Err(ArgsError::HelpRequested(t)) && t == topic,
                Err(i) => r matches Err(ArgsError::UnknownSubcommand(s)) && s@ == tokens[i],
            }
        } else if is_version_flag(first) {
            r matches Err(ArgsError::VersionRequested)
        } else if first == "download"@ {
            download_outcome(tokens, r)
        } else if looks_like_flag(first) {
            r matches Err(ArgsError::UnknownArgument { arg: t, positionals_follow }) && t@ == first
                && !positionals_follow
        } else {
            r matches Err(ArgsError::UnknownSubcommand(t)) && t@ == first
        }
    }
}

/// Reads the command line (the arguments after the program name).
///
/// `download` takes eight positional arguments: uri, username, password,
/// out_path, mode (`daily` or `hourly`), recording_type (`rotating` or
/// `timelapse`), start_date and end_date; every further argument names cameras,
/// several separated by commas. `-h`/`--help` (or the subcommand `help`) and
/// `-V`/`--version` ask for the usage text and the version; `--` makes every
/// later argument positional; any other argument that starts with `-` and is
/// longer than `-` is refused.
pub fn parse_args(args: &Vec<String>) -> (r: Result<Cli, ArgsError>)
    ensures
        parse_outcome(args@.map_values(|a: String| a@), r),
{
    if args.len() == 0 {
        return Err(ArgsError::MissingSubcommand);
    }
    let first = args[0].as_str();
    assert(first@ == args@.map_values(|a: String| a@)[0]);
    if str_eq(first, "-h") || str_eq(first, "--help") {
        return Err(ArgsError::HelpRequested(HelpTopic::Program));
    }
    if str_eq(first, "help") {
        return parse_help(args);
    }
    if str_eq(first, "-V") || str_eq(first, "--version") {
        return Err(ArgsError::VersionRequested);
    }
    if !str_eq(first, "download") {
        if first.unicode_len() > 1 && first.get_char(0) == '-' {
            return Err(ArgsError::UnknownArgument { arg: first.to_owned(), positionals_follow: false });
        }
        return Err(ArgsError::UnknownSubcommand(first.to_owned()));
    }
    parse_download(args)
}

/// Reads the arguments of the `help` subcommand, from `args[1]` on.
fn parse_help(args: &Vec<String>) -> (r: Result<Cli, ArgsError>)
    requires
        args.len() > 0,
    ensures
        match help_walk(args@.map_values(|a: String| a@), 1, HelpTopic::Program) {
            Ok(topic) => r matches Err(ArgsError::HelpRequested(t)) && t == topic,
            Err(i) => r matches Err(ArgsError::UnknownSubcommand(s)) && s@ == args@.map_values(
                |a: String| a@,
            )[i],
        },
{
    let ghost tokens = args@.map_values(|a: String| a@);
    let mut topic = HelpTopic::Program;
    let mut i: usize = 1;
    while i < args.len()
        invariant
            1 <= i <= args.len(),
            tokens == args@.map_values(|a: String| a@),
            help_walk(tokens, 1, HelpTopic::Program) == help_walk(tokens, i as int, topic),
        decreases args.len() - i,
    {
        let t = args[i].as_str();
        assert(t@ == tokens[i as int]);
        if topic == HelpTopic::Program && str_eq(t, "download") {
            topic = HelpTopic::Download;
        } else if topic == HelpTopic::Program && str_eq(t, "help") {
            topic = HelpTopic::Help;
        } else {
            return Err(ArgsError::UnknownSubcommand(t.to_owned()));
        }
        i = i + 1;
    }
    Err(ArgsError::HelpRequested(topic))
}

/// The name of the positional argument at index `k` (below 8).
fn positional_name_str(k: usize) -> (r: &'static str)
    ensures
        r@ == positional_name(k as int),
{
    if k == 0 {
        "<URI>"
    } else if k == 1 {
        "<USERNAME>"
    } else if k == 2 {
        "<PASSWORD>"
    } else if k == 3 {
        "<OUT_PATH>"
    } else if k == 4 {
        "<MODE>"
    } else if k == 5 {
        "<RECORDING_TYPE>"
    } else if k == 6 {
        "<START_DATE>"
    } else {
        "<END_DATE>"
    }
}

/// The values the positional argument at index `k` accepts.
fn possible_values_of(k: usize) -> (r: Vec<String>)
    ensures
        names_of(r@) == possible_values(k as int),
{
    let r = if k == 4 {
        vec!["daily".to_owned(), "hourly".to_owned()]
    } else if k == 5 {
        vec!["rotating".to_owned(), "timelapse".to_owned()]
    } else {
        Vec::new()
    };
    assert(names_of(r@) =~= possible_values(k as int));
    r
}

/// The value names of the positional arguments from index `n` on.
fn missing_names_from(n: usize) -> (r: Vec<String>)
    requires
        n <= 8,
    ensures
        names_of(r@) == missing_names(n as int),
{
    let mut r: Vec<String> = Vec::new();
    let mut k = n;
    while k < 8
        invariant
            n <= k <= 8,
            names_of(r@) == Seq::new((k - n) as nat, |j: int| positional_name(n + j)),
        decreases 8 - k,
    {
        let ghost before = names_of(r@);
        r.push(positional_name_str(k).to_owned());
        assert(names_of(r@) =~= before.push(positional_name(k as int)));
        assert(names_of(r@) =~= Seq::new((k + 1 - n) as nat, |j: int| positional_name(n + j)));
        k = k + 1;
    }
    r
}

/// The download mode a value names.
pub fn parse_mode(t: &str) -> (r: Option<DownloadMode>)
    ensures
        r == mode_of(t@),
{
    if str_eq(t, "daily") {
        Some(DownloadMode::Daily)
    } else if str_eq(t, "hourly") {
        Some(DownloadMode::Hourly)
    } else {
        None
    }
}

/// The recording type a value names.
pub fn parse_recording_type(t: &str) -> (r: Option<RecordingType>)
    ensures
        r == recording_type_of(t@),
{
    if str_eq(t, "rotating") {
        Some(RecordingType::Rotating)
    } else if str_eq(t, "timelapse") {
        Some(RecordingType::Timelapse)
    } else {
        None
    }
}

/// Reads the arguments of `download`, from `args[1]` on.
fn parse_download(args: &Vec<String>) -> (r: Result<Cli, ArgsError>)
    requires
        args.len() > 0,
    ensures
        download_outcome(args@.map_values(|a: String| a@), r),
{
    let ghost tokens = args@.map_values(|a: String| a@);
    let mut i: usize = 1;
    let mut escaped = false;
    let ghost mut positions: Seq<int> = Seq::empty();
    let mut npos: usize = 0;
    let mut values: Vec<String> = Vec::new();
    let mut mode = DownloadMode::Daily;
    let mut recording_type = RecordingType::Rotating;
    let mut cameras: Vec<String> = Vec::new();
    while i < args.len()
        invariant
            1 <= i <= args.len(),
            tokens == args@.map_values(|a: String| a@),
            scan(tokens, 1, Seq::empty(), false) == scan(tokens, i as int, positions, escaped),
            npos == positions.len(),
            npos <= i,
            values.len() == (if npos < 8 { npos } else { 8 }),
            forall|k: int| 0 <= k < values.len() ==> #[trigger] values[k]@ == tokens[positions[k]],
            forall|k: int| 0 <= k < positions.len() ==> 1 <= #[trigger] positions[k] < i,
            npos > 4 ==> mode_of(tokens[positions[4]]) == Some(mode),
            npos > 5 ==> recording_type_of(tokens[positions[5]]) == Some(recording_type),
            cameras@.map_values(|c: String| c@) == camera_list(tokens, positions, 8),
        decreases args.len() - i,
    {
        let t = args[i].as_str();
        assert(t@ == tokens[i as int]);
        if !escaped && str_eq(t, "--") {
            escaped = true;
        } else if !escaped && (str_eq(t, "-h") || str_eq(t, "--help")) {
            return Err(ArgsError::HelpRequested(HelpTopic::Download));
        } else if !escaped && (str_eq(t, "-V") || str_eq(t, "--version")) {
            return Err(ArgsError::VersionRequested);
        } else if !escaped && t.unicode_len() > 1 && t.get_char(0) == '-' {
            return Err(ArgsError::UnknownArgument { arg: t.to_owned(), positionals_follow: true });
        } else {
            if npos == 4 {
                match parse_mode(t) {
                    Some(m) => {
                        mode = m;
                    },
                    None => {
                        return Err(
                            ArgsError::InvalidValue {
                                arg: "<MODE>".to_owned(),
                                value: t.to_owned(),
                                possible_values: possible_values_of(4),
                            },
                        );
                    },
                }
            }
            if npos == 5 {
                match parse_recording_type(t) {
                    Some(rt) => {
                        recording_type = rt;
                    },
                    None => {
                        return Err(
                            ArgsError::InvalidValue {
                                arg: "<RECORDING_TYPE>".to_owned(),
                                value: t.to_owned(),
                                possible_values: possible_values_of(5),
                            },
                        );
                    },
                }
            }
            let ghost old_cameras = cameras@;
            if npos < 8 {
                values.push(t.to_owned());
            } else {
                push_comma_pieces(&mut cameras, t);
                proof {
                    lemma_camera_list_push(tokens, positions, i as int, 8);
                    let pieces = split_on(tokens[i as int], ',');
                    assert forall|j: int| 0 <= j < pieces.len() implies cameras@[old_cameras.len() + j]@
                        == pieces[j] by {
                        assert(cameras[old_cameras.len() + j]@ == pieces[j]);
                    }
                    assert(cameras@.map_values(|c: String| c@) =~= old_cameras.map_values(
                        |c: String| c@,
                    ) + split_on(tokens[i as int], ','));
                }
            }
            proof {
                if npos < 8 {
                    assert(camera_list(tokens, positions.push(i as int), 8) =~= camera_list(
                        tokens,
                        positions,
                        8,
                    ));
                }
                positions = positions.push(i as int);
            }
            npos = npos + 1;
        }
        i = i + 1;
    }
    if npos < 8 {
        return Err(ArgsError::MissingArguments(missing_names_from(npos)));
    }
    let end_date = values.pop().unwrap();
    let start_date = values.pop().unwrap();
    let _recording_type_text = values.pop().unwrap();
    let _mode_text = values.pop().unwrap();
    let out_path = values.pop().unwrap();
    let password = values.pop().unwrap();
    let username = values.pop().unwrap();
    let uri = values.pop().unwrap();
    Ok(
        Cli {
            command: Commands::Download(
                DownloadArgs {
                    uri,
                    username,
                    password,
                    out_path,
                    mode,
                    recording_type,
                    start_date,
                    end_date,
                    cameras,
                },
            ),
        },
    )
}

} // verus!
