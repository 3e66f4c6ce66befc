//! Server configuration: the catalog and workspace paths, the transport
//! names, the `setup-goose` argument protocol and the Goose config backup name.

use vstd::prelude::*;
use crate::markup::{
    empty_yaml_mapping, item_views, parse_yaml, yaml_entry, yaml_entry_kind, yaml_is_mapping,
    yaml_mapping_check, yaml_mapping_of, yaml_parse_error, yaml_set_and_render, yaml_with_entry,
    YamlItem, YamlItemView,
};
use crate::text::{append_chars, trim, trim_exec, chars_eq, chars_of, decimal, decimal_exec, parse_usize, parsed_usize, string_of};

verus! {

#[verifier::external_type_specification]
#[verifier::external_body]
pub struct ExPathBuf(std::path::PathBuf);

/// Where the catalog of institution profiles and the workspaces live.
#[derive(Debug)]
pub struct Config {
    pub catalog_path: std::path::PathBuf,
    pub workspace_root: std::path::PathBuf,
}

impl Config {
    /// Stores the two paths as given.
    pub fn new(catalog_path: std::path::PathBuf, workspace_root: std::path::PathBuf) -> (r: Self)
        ensures
            r.catalog_path == catalog_path,
            r.workspace_root == workspace_root,
    {
        Config { catalog_path, workspace_root }
    }
}

/// How the server talks to its client.
#[derive(Debug, Clone, Copy, PartialEq, Eq, Structural)]
pub enum TransportMode {
    Stdio,
    Http,
}

/// What can be wrong with the configuration.
#[derive(Debug)]
pub enum ConfigError {
    /// An environment variable is not set.
    Missing(&'static str),
    /// A path setting does not name an existing directory.
    NotADirectory(&'static str, std::path::PathBuf),
    /// A setting has an invalid value.
    Invalid(&'static str),
    /// An option was given without its value.
    MissingArgument(&'static str),
    /// An option that the server does not know.
    UnknownArgument(String),
}

/// The transport named by a setting: "stdio" or "http".
pub open spec fn transport_named(value: Seq<char>) -> Option<TransportMode> {
    if value == "stdio"@ {
        Some(TransportMode::Stdio)
    } else if value == "http"@ {
        Some(TransportMode::Http)
    } else {
        None
    }
}

/// Reads a transport name; any other value is invalid for "transport".
pub fn parse_transport(value: &str) -> (r: Result<TransportMode, ConfigError>)
    ensures
        match transport_named(value@) {
            Some(t) => r matches Ok(m) && m == t,
            None => r matches Err(ConfigError::Invalid(what)) && what@ == "transport"@,
        },
{
    let v = chars_of(value);
    if chars_eq(&v, &chars_of("stdio")) {
        Ok(TransportMode::Stdio)
    } else if chars_eq(&v, &chars_of("http")) {
        Ok(TransportMode::Http)
    } else {
        Err(ConfigError::Invalid("transport"))
    }
}

/// The port number a setting names: a decimal that fits in a `u16`, as
/// `str::parse::<u16>` reads it.
pub open spec fn port_named(value: Seq<char>) -> Option<u16> {
    match parsed_usize(value) {
        Some(n) => if n <= 65535 {
            Some(n as u16)
        } else {
            None
        },
        None => None,
    }
}

/// Reads a port number; any other value is invalid for the setting `what`.
pub fn parse_port(value: &str, what: &'static str) -> (r: Result<u16, ConfigError>)
    ensures
        match port_named(value@) {
            Some(p) => r matches Ok(q) && q == p,
            None => r matches Err(ConfigError::Invalid(w)) && w@ == what@,
        },
{
    match parse_usize(&chars_of(value)) {
        Some(n) => if n <= 65535 {
            Ok(n as u16)
        } else {
            Err(ConfigError::Invalid(what))
        },
        None => Err(ConfigError::Invalid(what)),
    }
}

/// A server option given on the command line; each takes a value.
#[derive(Debug, Clone, Copy, PartialEq, Eq, Structural)]
pub enum ServerFlag {
    Transport,
    Bind,
    Port,
}

/// The command-line spelling of an option.
pub open spec fn flag_text(f: ServerFlag) -> Seq<char> {
    match f {
        ServerFlag::Transport => "--transport"@,
        ServerFlag::Bind => "--bind"@,
        ServerFlag::Port => "--port"@,
    }
}

/// The option spelled `key`, if any.
pub open spec fn flag_named(key: Seq<char>) -> Option<ServerFlag> {
    if key == "--transport"@ {
        Some(ServerFlag::Transport)
    } else if key == "--bind"@ {
        Some(ServerFlag::Bind)
    } else if key == "--port"@ {
        Some(ServerFlag::Port)
    } else {
        None
    }
}

/// An argument split at its first `=` into key and value; without `=` the
/// whole argument is the key and the value is empty.
pub open spec fn split_arg(arg: Seq<char>) -> (Seq<char>, Seq<char>)
    decreases arg.len(),
{
    if arg.len() == 0 {
        (seq![], seq![])
    } else if arg[0] == '=' {
        (seq![], arg.drop_first())
    } else {
        let (k, v) = split_arg(arg.drop_first());
        (seq![arg[0]] + k, v)
    }
}

/// Why reading the server's arguments stopped.
pub ghost enum ArgProblem {
    /// The option is the last argument and has no value.
    NoValue(ServerFlag),
    /// An argument that names no option.
    Unknown(Seq<char>),
}

/// The settings read from the arguments at `i` and after, in order, and the
/// problem that stopped the reading, if any. An option takes the value after
/// its `=` or, when that is empty, the next argument.
pub open spec fn server_args_from(args: Seq<Seq<char>>, i: int) -> (Seq<(ServerFlag, Seq<char>)>, Option<ArgProblem>)
    decreases args.len() - i,
{
    if i < 0 || i >= args.len() {
        (seq![], None)
    } else {
        let (key, value) = split_arg(args[i]);
        match flag_named(key) {
            None => (seq![], Some(ArgProblem::Unknown(key))),
            Some(f) => if value.len() > 0 {
                let (rest, p) = server_args_from(args, i + 1);
                (seq![(f, value)] + rest, p)
            } else if i + 1 < args.len() {
                let (rest, p) = server_args_from(args, i + 2);
                (seq![(f, args[i + 1])] + rest, p)
            } else {
                (seq![], Some(ArgProblem::NoValue(f)))
            },
        }
    }
}

/// The error reported for a problem.
pub open spec fn problem_reported(e: Option<ConfigError>, p: Option<ArgProblem>) -> bool {
    match p {
        None => e is None,
        Some(ArgProblem::NoValue(f)) => e matches Some(ConfigError::MissingArgument(w)) && w@ == flag_text(f),
        Some(ArgProblem::Unknown(k)) => e matches Some(ConfigError::UnknownArgument(s)) && s@ == k,
    }
}

pub open spec fn setting_views(s: Seq<(ServerFlag, String)>) -> Seq<(ServerFlag, Seq<char>)> {
    s.map_values(|x: (ServerFlag, String)| (x.0, x.1@))
}

fn flag_named_exec(key: &[char]) -> (r: Option<ServerFlag>)
    ensures
        r == flag_named(key@),
{
    if chars_eq(key, &chars_of("--transport")) {
        Some(ServerFlag::Transport)
    } else if chars_eq(key, &chars_of("--bind")) {
        Some(ServerFlag::Bind)
    } else if chars_eq(key, &chars_of("--port")) {
        Some(ServerFlag::Port)
    } else {
        None
    }
}

fn split_arg_exec(arg: &[char]) -> (r: (Vec<char>, Vec<char>))
    ensures
        (r.0@, r.1@) == split_arg(arg@),
{
    let mut j: usize = 0;
    assert(arg@.subrange(0, arg@.len() as int) =~= arg@);
    assert(seq![] + split_arg(arg@).0 =~= split_arg(arg@).0);
    assert(arg@.subrange(0, 0) =~= seq![]);
    while j < arg.len() && arg[j] != '='
        invariant
            j <= arg.len(),
            split_arg(arg@) == (arg@.subrange(0, j as int) + split_arg(arg@.subrange(j as int, arg@.len() as int)).0,
                split_arg(arg@.subrange(j as int, arg@.len() as int)).1),
        decreases arg.len() - j,
    {
        let ghost rest = arg@.subrange(j as int, arg@.len() as int);
        assert(rest.drop_first() =~= arg@.subrange(j + 1, arg@.len() as int));
        assert(arg@.subrange(0, j + 1) =~= arg@.subrange(0, j as int) + seq![arg@[j as int]]);
        assert(arg@.subrange(0, j + 1) + split_arg(rest.drop_first()).0 =~= arg@.subrange(0, j as int)
            + (seq![rest[0]] + split_arg(rest.drop_first()).0));
        j = j + 1;
    }
    let mut key: Vec<char> = Vec::new();
    let mut value: Vec<char> = Vec::new();
    let mut k: usize = 0;
    while k < j
        invariant
            k <= j <= arg.len(),
            key@ == arg@.subrange(0, k as int),
        decreases j - k,
    {
        key.push(arg[k]);
        assert(key@ =~= arg@.subrange(0, k + 1));
        k = k + 1;
    }
    if j < arg.len() {
        let mut m: usize = j + 1;
        while m < arg.len()
            invariant
                j < m <= arg.len(),
                value@ == arg@.subrange(j + 1, m as int),
            decreases arg.len() - m,
        {
            value.push(arg[m]);
            assert(value@ =~= arg@.subrange(j + 1, m + 1));
            m = m + 1;
        }
        assert(arg@.subrange(j as int, arg@.len() as int).drop_first() =~= arg@.subrange(j + 1, arg@.len() as int));
    } else {
        assert(arg@.subrange(j as int, arg@.len() as int) =~= seq![]);
    }
    assert(key@ + seq![] =~= key@);
    (key, value)
}

/// Reads the server's command-line options in order: the settings given
/// before the first problem, and that problem as an error (a missing value
/// or an unknown option).
pub fn read_server_args(args: &[String]) -> (r: (Vec<(ServerFlag, String)>, Option<ConfigError>))
    ensures
        setting_views(r.0@) == server_args_from(args@.map_values(|a: String| a@), 0).0,
        problem_reported(r.1, server_args_from(args@.map_values(|a: String| a@), 0).1),
{
    let ghost av = args@.map_values(|a: String| a@);
    let mut settings: Vec<(ServerFlag, String)> = Vec::new();
    let mut i: usize = 0;
    assert(setting_views(settings@) + server_args_from(av, 0).0 =~= server_args_from(av, 0).0);
    while i < args.len()
        invariant
            i <= args.len(),
            av == args@.map_values(|a: String| a@),
            server_args_from(av, 0).0 == setting_views(settings@) + server_args_from(av, i as int).0,
            server_args_from(av, 0).1 == server_args_from(av, i as int).1,
        decreases args.len() - i,
    {
        let (key, value) = split_arg_exec(&chars_of(args[i].as_str()));
        let ghost from_i = server_args_from(av, i as int);
        match flag_named_exec(&key) {
            None => {
                assert(from_i.0 =~= seq![]);
                assert(setting_views(settings@) + seq![] =~= setting_views(settings@));
                return (settings, Some(ConfigError::UnknownArgument(string_of(&key))));
            },
            Some(f) => {
                if value.len() > 0 {
                    let ghost old_settings = settings@;
                    settings.push((f, string_of(&value)));
                    assert(setting_views(settings@) =~= setting_views(old_settings) + seq![(f, value@)]);
                    assert(setting_views(settings@) + server_args_from(av, i + 1).0 =~= setting_views(
                        old_settings,
                    ) + (seq![(f, value@)] + server_args_from(av, i + 1).0));
                    i = i + 1;
                } else if i + 1 < args.len() {
                    let ghost old_settings = settings@;
                    settings.push((f, args[i + 1].clone()));
                    assert(setting_views(settings@) =~= setting_views(old_settings) + seq![(f, av[i + 1])]);
                    assert(setting_views(settings@) + server_args_from(av, i + 2).0 =~= setting_views(
                        old_settings,
                    ) + (seq![(f, av[i + 1])] + server_args_from(av, i + 2).0));
                    i = i + 2;
                } else {
                    assert(from_i.0 =~= seq![]);
                    assert(setting_views(settings@) + seq![] =~= setting_views(settings@));
                    let name: &'static str = match f {
                        ServerFlag::Transport => "--transport",
                        ServerFlag::Bind => "--bind",
                        ServerFlag::Port => "--port",
                    };
                    return (settings, Some(ConfigError::MissingArgument(name)));
                }
            },
        }
    }
    assert(server_args_from(av, i as int).0 =~= seq![]);
    assert(setting_views(settings@) + seq![] =~= setting_views(settings@));
    (settings, None)
}

/// Where to install the server in Goose: the config file and the paths the
/// server is started with.
#[derive(Debug)]
pub struct GooseSetup {
    pub config_path: std::path::PathBuf,
    pub command: std::path::PathBuf,
    pub catalog_path: std::path::PathBuf,
    pub workspace_root: std::path::PathBuf,
    pub typst_path: std::path::PathBuf,
    pub pandoc_path: std::path::PathBuf,
}

/// The backup of a config file taken at Unix time `stamp` (seconds): the
/// config path followed by ".bak-" and the stamp.
pub open spec fn backup_name(config: Seq<char>, stamp: nat) -> Seq<char> {
    config + ".bak-"@ + decimal(stamp)
}

/// The backup path, as text, of the config file at `config` for the time
/// stamp `stamp`.
pub fn backup_path_at(config: &str, stamp: u64) -> (r: String)
    ensures
        r@ == backup_name(config@, stamp as nat),
{
    let mut t = chars_of(config);
    append_chars(&mut t, &chars_of(".bak-"));
    append_chars(&mut t, &decimal_u64(stamp));
    string_of(&t)
}

/// Decimal rendering of a `u64`.
fn decimal_u64(n: u64) -> (r: Vec<char>)
    ensures
        r@ == decimal(n as nat),
    decreases n,
{
    if n < 10 {
        decimal_exec(n as usize)
    } else {
        let mut r = decimal_u64(n / 10);
        let d = decimal_exec((n % 10) as usize);
        assert(d@ == seq![crate::text::digit_char((n % 10) as nat)]);
        append_chars(&mut r, &d);
        r
    }
}

/// The system clock's current time (`SystemTime::now`); nothing is promised of it.
#[verifier::external_body]
fn system_now() -> (t: std::time::SystemTime) {
    std::time::SystemTime::now()
}

/// The time elapsed from the Unix epoch to `t` (`SystemTime::duration_since`),
/// `None` when `t` is before the epoch; nothing more is promised of it.
#[verifier::external_body]
fn since_unix_epoch(t: &std::time::SystemTime) -> (d: Option<std::time::Duration>) {
    t.duration_since(std::time::UNIX_EPOCH).ok()
}

/// The whole seconds of a duration (`Duration::as_secs`); nothing is promised of them.
#[verifier::external_body]
fn whole_seconds(d: &std::time::Duration) -> (s: u64) {
    d.as_secs()
}

/// Seconds since the Unix epoch by the system clock, zero when the clock is
/// before the epoch.
fn unix_seconds() -> (s: u64) {
    let now = system_now();
    match since_unix_epoch(&now) {
        Some(d) => whole_seconds(&d),
        None => 0,
    }
}

/// The backup path, as text, of the config file at `config` for the current
/// time: the config path, ".bak-" and the Unix time in seconds.
pub fn backup_path(config: &str) -> (r: String)
    ensures
        exists|stamp: nat| r@ == backup_name(config@, stamp),
{
    let stamp = unix_seconds();
    backup_path_at(config, stamp)
}

/// Why a `setup-goose` argument could not be read.
#[derive(Debug, Clone, PartialEq, Eq)]
pub enum SetupArgError {
    /// The arguments ended where the flag was expected.
    MissingFlag(String),
    /// Another argument stands where the flag was expected.
    WrongFlag { expected: String, actual: String },
    /// The flag is the last argument.
    MissingValue(String),
}

impl SetupArgError {
    /// The message shown to the user.
    pub fn message(&self) -> (r: String)
        ensures
            r@ == setup_arg_message(*self),
    {
        let mut m: Vec<char> = Vec::new();
        match self {
            SetupArgError::MissingFlag(f) => {
                append_chars(&mut m, &chars_of("missing "));
                append_chars(&mut m, &chars_of(f.as_str()));
                append_chars(&mut m, &chars_of(" for setup-goose"));
            },
            SetupArgError::WrongFlag { expected, actual } => {
                append_chars(&mut m, &chars_of("expected "));
                append_chars(&mut m, &chars_of(expected.as_str()));
                append_chars(&mut m, &chars_of(", got "));
                append_chars(&mut m, &chars_of(actual.as_str()));
            },
            SetupArgError::MissingValue(f) => {
                append_chars(&mut m, &chars_of("missing value after "));
                append_chars(&mut m, &chars_of(f.as_str()));
            },
        }
        string_of(&m)
    }
}

/// The message of a setup argument error.
pub open spec fn setup_arg_message(e: SetupArgError) -> Seq<char> {
    match e {
        SetupArgError::MissingFlag(f) => "missing "@ + f@ + " for setup-goose"@,
        SetupArgError::WrongFlag { expected, actual } => "expected "@ + expected@ + ", got "@ + actual@,
        SetupArgError::MissingValue(f) => "missing value after "@ + f@,
    }
}

/// Reads the flag `expected` at position `at` of the arguments and the path
/// that follows it; on success the next argument is at `at + 2`.
pub fn required_setup_arg(args: &[String], at: usize, expected: &str) -> (r: Result<
    String,
    SetupArgError,
>)
    ensures
        at >= args@.len() ==> (r matches Err(SetupArgError::MissingFlag(f)) && f@ == expected@),
        at < args@.len() && args@[at as int]@ != expected@ ==> (r matches Err(
            SetupArgError::WrongFlag { expected: e, actual: a },
        ) && e@ == expected@ && a@ == args@[at as int]@),
        at < args@.len() && args@[at as int]@ == expected@ && at + 1 >= args@.len() ==> (r matches Err(
            SetupArgError::MissingValue(f),
        ) && f@ == expected@),
        at < args@.len() && args@[at as int]@ == expected@ && at + 1 < args@.len() ==> (r matches Ok(p)
            && p@ == args@[at + 1]@),
{
    let e = string_of(&chars_of(expected));
    if at >= args.len() {
        return Err(SetupArgError::MissingFlag(e));
    }
    let actual = &args[at];
    if !chars_eq(&chars_of(actual.as_str()), &chars_of(expected)) {
        return Err(SetupArgError::WrongFlag { expected: e, actual: actual.clone() });
    }
    if at + 1 >= args.len() {
        return Err(SetupArgError::MissingValue(e));
    }
    Ok(args[at + 1].clone())
}

/// The paths the server is installed with, as text.
#[derive(Debug, Clone)]
pub struct GoosePaths {
    pub command: String,
    pub catalog_path: String,
    pub workspace_root: String,
    pub typst_path: String,
    pub pandoc_path: String,
}

/// The Goose extension entry for the server: its name and description, the
/// command, no arguments, enabled, the stdio type, a 300 s timeout and the
/// environment with the four paths.
pub open spec fn scholarpress_extension(p: GoosePaths) -> Seq<(Seq<char>, YamlItemView)> {
    seq![
        ("name"@, YamlItemView::Text("ScholarPress"@)),
        ("description"@, YamlItemView::Text("Format and validate dissertation documents with ScholarPress"@)),
        ("cmd"@, YamlItemView::Text(p.command@)),
        ("args"@, YamlItemView::EmptyList),
        ("enabled"@, YamlItemView::Flag(true)),
        ("type"@, YamlItemView::Text("stdio"@)),
        ("timeout"@, YamlItemView::Number(300)),
        ("envs"@, YamlItemView::TextMap(seq![
            ("SCHOLARPRESS_CATALOG_PATH"@, p.catalog_path@),
            ("SCHOLARPRESS_WORKSPACE_ROOT"@, p.workspace_root@),
            ("SCHOLARPRESS_TYPST_PATH"@, p.typst_path@),
            ("SCHOLARPRESS_PANDOC_PATH"@, p.pandoc_path@),
        ])),
    ]
}

fn text_of(s: &str) -> (r: String)
    ensures
        r@ == s@,
{
    string_of(&chars_of(s))
}

fn extension_entries(p: &GoosePaths) -> (r: Vec<(String, YamlItem)>)
    ensures
        item_views(r@) == scholarpress_extension(*p),
{
    let mut envs: Vec<(String, String)> = Vec::new();
    envs.push((text_of("SCHOLARPRESS_CATALOG_PATH"), p.catalog_path.clone()));
    envs.push((text_of("SCHOLARPRESS_WORKSPACE_ROOT"), p.workspace_root.clone()));
    envs.push((text_of("SCHOLARPRESS_TYPST_PATH"), p.typst_path.clone()));
    envs.push((text_of("SCHOLARPRESS_PANDOC_PATH"), p.pandoc_path.clone()));
    let ghost ev = envs@;
    let mut r: Vec<(String, YamlItem)> = Vec::new();
    r.push((text_of("name"), YamlItem::Text(text_of("ScholarPress"))));
    r.push(
        (text_of("description"), YamlItem::Text(text_of("Format and validate dissertation documents with ScholarPress"))),
    );
    r.push((text_of("cmd"), YamlItem::Text(p.command.clone())));
    r.push((text_of("args"), YamlItem::EmptyList));
    r.push((text_of("enabled"), YamlItem::Flag(true)));
    r.push((text_of("type"), YamlItem::Text(text_of("stdio"))));
    r.push((text_of("timeout"), YamlItem::Number(300)));
    r.push((text_of("envs"), YamlItem::TextMap(envs)));
    assert(ev.map_values(|q: (String, String)| (q.0@, q.1@)) =~= seq![
        ("SCHOLARPRESS_CATALOG_PATH"@, p.catalog_path@),
        ("SCHOLARPRESS_WORKSPACE_ROOT"@, p.workspace_root@),
        ("SCHOLARPRESS_TYPST_PATH"@, p.typst_path@),
        ("SCHOLARPRESS_PANDOC_PATH"@, p.pandoc_path@),
    ]);
    assert(item_views(r@) =~= scholarpress_extension(*p));
    r
}

/// Why the Goose configuration could not be updated.
#[derive(Debug, Clone, PartialEq, Eq)]
pub enum GooseConfigError {
    /// The configuration is not valid YAML; serde's message.
    Yaml(String),
    /// Its top level is not a mapping.
    TopLevel,
    /// Its `extensions` entry is not a mapping.
    Extensions,
    /// The updated configuration could not be rendered; serde's message.
    Serialize(String),
}

/// What the configuration is read as: a new empty mapping when the text is
/// blank, else the parsed text, or the parse error's message.
pub open spec fn goose_source(previous: Seq<char>) -> Result<Option<Seq<char>>, Seq<char>> {
    if trim(previous).len() == 0 {
        Ok(None)
    } else {
        match yaml_parse_error(previous) {
            Some(m) => Err(m),
            None => Ok(Some(previous)),
        }
    }
}

/// The Goose configuration `previous` with `extensions.scholarpress` set to
/// the server's entry: a YAML error, a top level or `extensions` entry that is
/// not a mapping, or a rendering error, exactly when each occurs; otherwise the
/// rendering of the updated configuration.
pub fn goose_config_text(previous: &str, paths: &GoosePaths) -> (r: Result<String, GooseConfigError>)
    ensures
        match goose_source(previous@) {
            Err(m) => r matches Err(GooseConfigError::Yaml(e)) && e@ == m,
            Ok(src) => if !yaml_is_mapping(src) {
                r matches Err(GooseConfigError::TopLevel)
            } else if yaml_entry_kind(src, "extensions"@) == Some(false) {
                r matches Err(GooseConfigError::Extensions)
            } else {
                match yaml_with_entry(src, "extensions"@, "scholarpress"@, scholarpress_extension(*paths)) {
                    Ok(t) => r matches Ok(s) && s@ == t,
                    Err(m) => r matches Err(GooseConfigError::Serialize(e)) && e@ == m,
                }
            },
        },
{
    let doc = if trim_exec(&chars_of(previous)).len() == 0 {
        empty_yaml_mapping()
    } else {
        match parse_yaml(previous) {
            Ok(d) => d,
            Err(m) => {
                return Err(GooseConfigError::Yaml(m));
            },
        }
    };
    if !yaml_mapping_check(&doc) {
        return Err(GooseConfigError::TopLevel);
    }
    if yaml_entry(&doc, "extensions") == Some(false) {
        return Err(GooseConfigError::Extensions);
    }
    let item = yaml_mapping_of(&extension_entries(paths));
    match yaml_set_and_render(doc, "extensions", "scholarpress", item) {
        Ok(s) => Ok(s),
        Err(m) => Err(GooseConfigError::Serialize(m)),
    }
}

} // verus!
