//! A run of the program: directories, the HTTP client, and what is done for each
//! feed once its page was fetched.
use crate::config::{hook_view, inherited_hook, ChannelConfig, RssplsConfig};
use crate::dirs::{
    cache_dir, cache_dir_of, config_dir, config_dir_of, default_output, default_output_dir,
    dir_view, home_dir, home_override, place_file, place_in, DirError, Place,
};
use crate::feed::ProcessResult;
use crate::paths::{
    as_directory, expand_tilde, file_name, has_drive, is_name, last_name,
    law_file_stays_in_directory, push, pushed, rules_of, stem, tilde_expanded, with_extension,
    PathStyle,
};
use crate::text::{join2, join3, opt_view, views};
use vstd::prelude::*;

verus! {

/// The name of the configuration file.
pub const CONFIG_FILE: &'static str = "feeds.toml";

/// The variable in which a hook finds the path of the feed.
pub const FEED_FILE_VARIABLE: &'static str = "RSSPLS_FEED_FILE";

/// Why the program, or what it does for a feed, cannot go on. `S` is the type of
/// text: `String` in a value, `Seq<char>` in its view.
#[derive(Debug)]
pub enum RunErrorOf<S> {
    /// The user has no home directory, and the configuration may refer to it.
    NoHome,
    /// There is no directory for feeds.
    NoOutputDir,
    /// The configured name of a feed's file is none.
    InvalidFileName {
        /// The configured name.
        filename: S,
    },
    /// There is no place for a feed's cache.
    NoCachePlace {
        /// Why there is none.
        cause: DirError,
    },
    /// The command of a hook could not be run.
    HookNotRun {
        /// The command.
        command: S,
    },
    /// The command of a hook failed.
    HookFailed {
        /// The path of the feed.
        feed: S,
        /// The command.
        command: S,
        /// How it ended.
        status: S,
    },
}

/// Why the program, or what it does for a feed, cannot go on.
pub type RunError = RunErrorOf<String>;

impl View for RunErrorOf<String> {
    type V = RunErrorOf<Seq<char>>;

    open spec fn view(&self) -> RunErrorOf<Seq<char>> {
        match *self {
            RunErrorOf::NoHome => RunErrorOf::NoHome,
            RunErrorOf::NoOutputDir => RunErrorOf::NoOutputDir,
            RunErrorOf::InvalidFileName { filename } => RunErrorOf::InvalidFileName {
                filename: filename@,
            },
            RunErrorOf::NoCachePlace { cause } => RunErrorOf::NoCachePlace { cause },
            RunErrorOf::HookNotRun { command } => RunErrorOf::HookNotRun { command: command@ },
            RunErrorOf::HookFailed { feed, command, status } => RunErrorOf::HookFailed {
                feed: feed@,
                command: command@,
                status: status@,
            },
        }
    }
}

impl RunErrorOf<Seq<char>> {
    /// The message for an error.
    pub open spec fn text(self) -> Seq<char> {
        match self {
            RunErrorOf::NoHome => "unable to determine home directory"@,
            RunErrorOf::NoOutputDir =>
                "output directory must be supplied via --output, be present in configuration file, or RSSPLS_HOME must be set"@,
            RunErrorOf::InvalidFileName { filename } => filename + " is not a valid file name"@,
            RunErrorOf::NoCachePlace { cause: _ } => "unable to create path to cache file"@,
            RunErrorOf::HookNotRun { command } => "failed to execute post-update hook: "@ + command,
            RunErrorOf::HookFailed { feed, command, status } => "post-update hook failed for '"@
                + feed + "': command '"@ + command + "' exited with status "@ + status,
        }
    }
}

impl RunErrorOf<String> {
    /// The message for an error.
    pub fn message(&self) -> (r: String)
        ensures
            r@ == self@.text(),
    {
        match self {
            RunErrorOf::NoHome => "unable to determine home directory".to_owned(),
            RunErrorOf::NoOutputDir =>
                "output directory must be supplied via --output, be present in configuration file, or RSSPLS_HOME must be set".to_owned(),
            RunErrorOf::InvalidFileName { filename } => join2(
                filename.as_str(),
                " is not a valid file name",
            ),
            RunErrorOf::NoCachePlace { cause: _ } =>
                "unable to create path to cache file".to_owned(),
            RunErrorOf::HookNotRun { command } => join2(
                "failed to execute post-update hook: ",
                command.as_str(),
            ),
            RunErrorOf::HookFailed { feed, command, status } => join3(
                "post-update hook failed for '",
                feed.as_str(),
                "': command '",
            ).concat(command.as_str()).concat("' exited with status ").concat(status.as_str()),
        }
    }
}

/// The view of a path, or of why there is none.
pub open spec fn path_view(path: Result<String, RunError>) -> Result<
    Seq<char>,
    RunErrorOf<Seq<char>>,
> {
    match path {
        Ok(path) => Ok(path@),
        Err(err) => Err(err@),
    }
}

/// The configuration file, and the directory that must exist for it: the given file,
/// or else one in the directory for configuration.
pub open spec fn config_file_of(
    style: PathStyle,
    given: Option<Seq<char>>,
    directory: Result<Seq<char>, DirError>,
) -> Result<(Seq<char>, Option<Seq<char>>), DirError> {
    match given {
        Some(path) => Ok((path, None)),
        None => match place_in(style, directory, CONFIG_FILE@) {
            Ok(place) => Ok((place.1, Some(place.0))),
            Err(err) => Err(err),
        },
    }
}

/// The view of the configuration file.
pub open spec fn config_file_view(file: Result<(String, Option<String>), DirError>) -> Result<
    (Seq<char>, Option<Seq<char>>),
    DirError,
> {
    match file {
        Ok(file) => Ok((file.0@, opt_view(file.1))),
        Err(err) => Err(err),
    }
}

/// Finds the configuration file, given the directory for configuration.
pub fn config_file_in(
    style: PathStyle,
    given: Option<String>,
    directory: Result<String, DirError>,
) -> (r: Result<(String, Option<String>), DirError>)
    ensures
        config_file_view(r) == config_file_of(style, opt_view(given), dir_view(directory)),
{
    match given {
        Some(path) => Ok((path, None)),
        None => match place_file(style, directory, CONFIG_FILE) {
            Ok(place) => Ok((place.file, Some(place.directory))),
            Err(err) => Err(err),
        },
    }
}

/// Finds the configuration file, and the directory that must exist for it. Where no
/// file is given it may depend on the user's own directories.
pub fn config_file(style: PathStyle, given: Option<String>, rsspls_home: Option<String>) -> (r:
    Result<(String, Option<String>), DirError>)
    ensures
        exists|user: Option<Seq<char>>|
            config_file_view(r) == config_file_of(
                style,
                opt_view(given),
                #[trigger] config_dir_of(style, home_override(opt_view(rsspls_home)), user),
            ),
{
    config_file_in(style, given, config_dir(style, rsspls_home))
}

/// The directory for feeds: the one given on the command line, or else the
/// configured one, or else the default.
pub open spec fn output_dir_of(
    style: PathStyle,
    given: Option<Seq<char>>,
    configured: Option<Seq<char>>,
    home: Option<Seq<char>>,
    override_: Option<Seq<char>>,
) -> Result<Seq<char>, RunErrorOf<Seq<char>>> {
    match (configured, home) {
        (Some(_), None) => Err(RunErrorOf::NoHome),
        _ => match (given, configured, default_output(style, override_)) {
            (Some(path), _, _) => Ok(path),
            (None, Some(path), _) => Ok(tilde_expanded(style, path, home->0)),
            (None, None, Some(path)) => Ok(path),
            (None, None, None) => Err(RunErrorOf::NoOutputDir),
        },
    }
}

/// Finds the directory for feeds, given the user's home directory.
pub fn output_dir_from(
    style: PathStyle,
    given: Option<String>,
    configured: &Option<String>,
    home: Option<String>,
    rsspls_home: Option<String>,
) -> (r: Result<String, RunError>)
    ensures
        path_view(r) == output_dir_of(
            style,
            opt_view(given),
            opt_view(*configured),
            opt_view(home),
            home_override(opt_view(rsspls_home)),
        ),
{
    let expanded = match configured {
        Some(path) => match home {
            None => {
                return Err(RunErrorOf::NoHome);
            },
            Some(home) => Some(expand_tilde(style, path.as_str(), home.as_str())),
        },
        None => None,
    };
    match given {
        Some(path) => Ok(path),
        None => match expanded {
            Some(path) => Ok(path),
            None => match default_output_dir(style, rsspls_home) {
                Some(path) => Ok(path),
                None => Err(RunErrorOf::NoOutputDir),
            },
        },
    }
}

/// Finds the directory for feeds. It may depend on the user's home directory.
pub fn output_dir(
    style: PathStyle,
    given: Option<String>,
    configured: &Option<String>,
    rsspls_home: Option<String>,
) -> (r: Result<String, RunError>)
    ensures
        exists|home: Option<Seq<char>>|
            path_view(r) == #[trigger] output_dir_of(
                style,
                opt_view(given),
                opt_view(*configured),
                home,
                home_override(opt_view(rsspls_home)),
            ),
{
    output_dir_from(style, given, configured, home_dir(), rsspls_home)
}

/// A proxy for HTTP requests. `S` is the type of text.
#[derive(Debug)]
pub enum ProxyOf<S> {
    /// For all requests.
    All(S),
    /// For requests to `http` URLs.
    Http(S),
    /// For requests to `https` URLs.
    Https(S),
}

/// A proxy for HTTP requests.
pub type Proxy = ProxyOf<String>;

impl View for ProxyOf<String> {
    type V = ProxyOf<Seq<char>>;

    open spec fn view(&self) -> ProxyOf<Seq<char>> {
        match *self {
            ProxyOf::All(url) => ProxyOf::All(url@),
            ProxyOf::Http(url) => ProxyOf::Http(url@),
            ProxyOf::Https(url) => ProxyOf::Https(url@),
        }
    }
}

/// The settings of the HTTP client.
#[derive(Debug)]
pub struct ClientSettings {
    /// How many seconds connecting may take.
    pub connect_timeout: u64,
    /// How many seconds a request may take.
    pub timeout: u64,
    /// The proxies to use, in this order.
    pub proxies: Vec<Proxy>,
    /// Whether to go without the verification of certificates.
    pub accept_invalid_certs: bool,
}

/// The views of proxies.
pub open spec fn proxy_views(proxies: Seq<Proxy>) -> Seq<ProxyOf<Seq<char>>> {
    proxies.map_values(|proxy: Proxy| proxy@)
}

/// The proxies to use: the configured one for all requests, or else those in the
/// variables `http_proxy` and `HTTPS_PROXY`.
pub open spec fn proxies_of(
    configured: Option<Seq<char>>,
    http_proxy: Option<Seq<char>>,
    https_proxy: Option<Seq<char>>,
) -> Seq<ProxyOf<Seq<char>>> {
    match (configured, http_proxy, https_proxy) {
        (Some(url), _, _) => seq![ProxyOf::All(url)],
        (None, Some(http), Some(https)) => seq![ProxyOf::Http(http), ProxyOf::Https(https)],
        (None, Some(http), None) => seq![ProxyOf::Http(http)],
        (None, None, Some(https)) => seq![ProxyOf::Https(https)],
        (None, None, None) => Seq::empty(),
    }
}

/// Chooses the settings of the HTTP client. The last two arguments are the values of
/// the variables `http_proxy` and `HTTPS_PROXY`.
pub fn client_settings(
    config: &RssplsConfig,
    http_proxy: Option<String>,
    https_proxy: Option<String>,
) -> (r: ClientSettings)
    ensures
        r.connect_timeout == 10,
        r.timeout == 30,
        proxy_views(r.proxies@) == proxies_of(
            opt_view(config.proxy),
            opt_view(http_proxy),
            opt_view(https_proxy),
        ),
        r.accept_invalid_certs == config.insecure_disable_certificate_verification,
{
    let mut proxies: Vec<Proxy> = Vec::new();
    match &config.proxy {
        Some(url) => {
            proxies.push(ProxyOf::All(url.clone()));
        },
        None => {
            match http_proxy {
                Some(url) => {
                    proxies.push(ProxyOf::Http(url));
                },
                None => {},
            }
            match https_proxy {
                Some(url) => {
                    proxies.push(ProxyOf::Https(url));
                },
                None => {},
            }
        },
    }
    assert(proxy_views(proxies@) =~= proxies_of(
        opt_view(config.proxy),
        opt_view(http_proxy),
        opt_view(https_proxy),
    ));
    ClientSettings {
        connect_timeout: 10,
        timeout: 30,
        proxies,
        accept_invalid_certs: config.insecure_disable_certificate_verification,
    }
}

/// The files of a feed.
#[derive(Debug)]
pub struct FeedFiles {
    /// The feed itself.
    pub output: String,
    /// What is kept between runs.
    pub cache: Place,
}

/// The files of a feed: where it is written, and the directory and file of its
/// cache.
pub open spec fn feed_files_of(
    style: PathStyle,
    output_dir: Seq<char>,
    filename: Seq<char>,
    cache_dir: Result<Seq<char>, DirError>,
) -> Result<(Seq<char>, (Seq<char>, Seq<char>)), RunErrorOf<Seq<char>>> {
    match last_name(style, filename) {
        None => Err(RunErrorOf::InvalidFileName { filename }),
        Some(name) => match place_in(style, cache_dir, stem(name) + "."@ + "toml"@) {
            Err(cause) => Err(RunErrorOf::NoCachePlace { cause }),
            Ok(place) => Ok((pushed(style, output_dir, name), place)),
        },
    }
}

/// The view of the files of a feed.
pub open spec fn feed_files_view(files: Result<FeedFiles, RunError>) -> Result<
    (Seq<char>, (Seq<char>, Seq<char>)),
    RunErrorOf<Seq<char>>,
> {
    match files {
        Ok(files) => Ok((files.output@, (files.cache.directory@, files.cache.file@))),
        Err(err) => Err(err@),
    }
}

/// Finds the files of a feed, given the directory for caches.
pub fn feed_files_in(
    style: PathStyle,
    output_dir: &str,
    filename: &str,
    cache_dir: Result<String, DirError>,
) -> (r: Result<FeedFiles, RunError>)
    ensures
        feed_files_view(r) == feed_files_of(style, output_dir@, filename@, dir_view(cache_dir)),
{
    let name = match file_name(style, filename) {
        Some(name) => name,
        None => {
            return Err(RunErrorOf::InvalidFileName { filename: filename.to_owned() });
        },
    };
    let output = push(style, output_dir, name.as_str());
    match place_file(style, cache_dir, with_extension(name.as_str(), "toml").as_str()) {
        Ok(cache) => Ok(FeedFiles { output, cache }),
        Err(cause) => Err(RunErrorOf::NoCachePlace { cause }),
    }
}

/// Finds the files of a feed. Where there is no override the cache depends on the
/// user's own directories.
pub fn feed_files(
    style: PathStyle,
    output_dir: &str,
    channel: &ChannelConfig,
    rsspls_home: Option<String>,
) -> (r: Result<FeedFiles, RunError>)
    ensures
        exists|user: Option<Seq<char>>|
            feed_files_view(r) == feed_files_of(
                style,
                output_dir@,
                channel.filename@,
                #[trigger] cache_dir_of(style, home_override(opt_view(rsspls_home)), user),
            ),
{
    feed_files_in(style, output_dir, channel.filename.as_str(), cache_dir(style, rsspls_home))
}

/// The command of a hook.
#[derive(Debug)]
pub struct HookCommand {
    /// The program to run.
    pub program: String,
    /// Its arguments.
    pub args: Vec<String>,
    /// The variable to set for it.
    pub variable: String,
    /// The value of the variable.
    pub value: String,
}

/// The view of the command of a hook.
pub struct HookView {
    /// The program to run.
    pub program: Seq<char>,
    /// Its arguments.
    pub args: Seq<Seq<char>>,
    /// The variable to set for it.
    pub variable: Seq<char>,
    /// The value of the variable.
    pub value: Seq<char>,
}

impl View for HookCommand {
    type V = HookView;

    open spec fn view(&self) -> HookView {
        HookView {
            program: self.program@,
            args: views(self.args@),
            variable: self.variable@,
            value: self.value@,
        }
    }
}

/// The command of a hook: its first word with the others as arguments, and the path
/// of the feed in a variable. A hook without words is none.
pub open spec fn hook_command_of(hook: Option<Seq<String>>, feed: Seq<char>) -> Option<HookView> {
    match hook {
        Some(words) => if words.len() > 0 {
            Some(
                HookView {
                    program: words[0]@,
                    args: views(words.drop_first()),
                    variable: FEED_FILE_VARIABLE@,
                    value: feed,
                },
            )
        } else {
            None
        },
        None => None,
    }
}

/// The view of a command that there may not be.
pub open spec fn command_view(command: Option<HookCommand>) -> Option<HookView> {
    match command {
        Some(command) => Some(command@),
        None => None,
    }
}

/// Makes the command of a hook, if there is anything to run.
pub fn hook_command(hook: &Option<Vec<String>>, feed: &str) -> (r: Option<HookCommand>)
    ensures
        command_view(r) == hook_command_of(hook_view(*hook), feed@),
{
    let words = match hook {
        Some(words) => words,
        None => {
            return None;
        },
    };
    if words.len() == 0 {
        return None;
    }
    let mut args: Vec<String> = Vec::new();
    for i in 1..words.len()
        invariant
            1 <= words.len(),
            args@ =~= words@.subrange(1, i as int),
    {
        args.push(words[i].clone());
    }
    assert(args@ =~= words@.drop_first());
    Some(
        HookCommand {
            program: words[0].clone(),
            args,
            variable: FEED_FILE_VARIABLE.to_owned(),
            value: feed.to_owned(),
        },
    )
}

/// How the command of a hook ended.
#[derive(Debug)]
pub enum HookEnd {
    /// It could not be run.
    NotRun,
    /// It succeeded.
    Success,
    /// It failed, with this status.
    Failure(String),
}

/// What the end of a hook's command means for its feed.
pub fn hook_result(command: &HookCommand, end: HookEnd) -> (r: Result<(), RunError>)
    ensures
        (match (end, r) {
            (HookEnd::NotRun, Err(err)) => err@ == (RunErrorOf::HookNotRun {
                command: command.program@,
            }),
            (HookEnd::Success, Ok(())) => true,
            (HookEnd::Failure(status), Err(err)) => err@ == (RunErrorOf::HookFailed {
                feed: command.value@,
                command: command.program@,
                status: status@,
            }),
            _ => false,
        }),
{
    match end {
        HookEnd::NotRun => Err(RunErrorOf::HookNotRun { command: command.program.clone() }),
        HookEnd::Success => Ok(()),
        HookEnd::Failure(status) => Err(
            RunErrorOf::HookFailed {
                feed: command.value.clone(),
                command: command.program.clone(),
                status,
            },
        ),
    }
}

/// A step in keeping a feed.
#[derive(Debug)]
pub enum Step {
    /// Write the feed to a file.
    WriteFeed {
        /// The file.
        path: String,
    },
    /// Keep the headers that came with its page in a file.
    WriteCache {
        /// The file.
        path: String,
        /// The headers.
        headers: String,
    },
    /// Run the hook.
    RunHook(HookCommand),
}

/// The view of a step in keeping a feed.
pub enum StepView {
    /// Write the feed to a file.
    WriteFeed {
        /// The file.
        path: Seq<char>,
    },
    /// Keep the headers that came with its page in a file.
    WriteCache {
        /// The file.
        path: Seq<char>,
        /// The headers.
        headers: Seq<char>,
    },
    /// Run the hook.
    RunHook(HookView),
}

impl View for Step {
    type V = StepView;

    open spec fn view(&self) -> StepView {
        match *self {
            Step::WriteFeed { path } => StepView::WriteFeed { path: path@ },
            Step::WriteCache { path, headers } => StepView::WriteCache {
                path: path@,
                headers: headers@,
            },
            Step::RunHook(command) => StepView::RunHook(command@),
        }
    }
}

/// The views of steps.
pub open spec fn step_views(steps: Seq<Step>) -> Seq<StepView> {
    steps.map_values(|step: Step| step@)
}

/// The steps that keep a feed, in order: the feed is written, then the headers that
/// came with its page, if there are any, and then the hook is run, if there is one.
/// Nothing is done for a feed whose page is as it was.
pub open spec fn steps_of(
    result: ProcessResult,
    output: Seq<char>,
    cache: Seq<char>,
    hook: Option<Seq<String>>,
) -> Seq<StepView> {
    match result {
        ProcessResult::NotModified => Seq::empty(),
        ProcessResult::Made { channel: _, headers, skipped: _ } => seq![
            StepView::WriteFeed { path: output },
        ] + (match headers {
            Some(headers) => seq![StepView::WriteCache { path: cache, headers: headers@ }],
            None => Seq::empty(),
        }) + (match hook_command_of(hook, output) {
            Some(command) => seq![StepView::RunHook(command)],
            None => Seq::empty(),
        }),
    }
}

/// Plans the steps that keep a feed. Each is to be taken only if those before it
/// succeeded.
pub fn process(result: &ProcessResult, files: &FeedFiles, channel: &ChannelConfig) -> (r: Vec<Step>)
    ensures
        step_views(r@) == steps_of(
            *result,
            files.output@,
            files.cache.file@,
            hook_view(channel.post_update_hook),
        ),
{
    let mut steps: Vec<Step> = Vec::new();
    match result {
        ProcessResult::NotModified => {},
        ProcessResult::Made { channel: _, headers, skipped: _ } => {
            steps.push(Step::WriteFeed { path: files.output.clone() });
            match headers {
                Some(headers) => {
                    steps.push(
                        Step::WriteCache {
                            path: files.cache.file.clone(),
                            headers: headers.clone(),
                        },
                    );
                },
                None => {},
            }
            match hook_command(&channel.post_update_hook, files.output.as_str()) {
                Some(command) => {
                    steps.push(Step::RunHook(command));
                },
                None => {},
            }
        },
    }
    assert(step_views(steps@) =~= steps_of(
        *result,
        files.output@,
        files.cache.file@,
        hook_view(channel.post_update_hook),
    ));
    steps
}

/// What to do once a step was taken, or before the first.
#[derive(Debug)]
pub enum Next<E> {
    /// Take the step at this place.
    Take(usize),
    /// Nothing: all steps were taken.
    Done,
    /// Nothing: a step failed.
    Failed(E),
}

/// What to do once some of so many steps were taken, given what came of the last.
pub open spec fn next_of<E>(count: nat, taken: nat, outcome: Result<(), E>) -> Next<E> {
    match outcome {
        Err(err) => Next::Failed(err),
        Ok(()) => if taken < count {
            Next::Take(taken as usize)
        } else {
            Next::Done
        },
    }
}

/// Finds out what to do once some of the steps were taken, given what came of the last
/// of them. A step that fails ends the run with its error, and no step behind it is
/// taken.
pub fn next_step<E>(steps: &Vec<Step>, taken: usize, outcome: Result<(), E>) -> (r: Next<E>)
    ensures
        r == next_of(steps@.len(), taken as nat, outcome),
{
    match outcome {
        Err(err) => Next::Failed(err),
        Ok(()) => if taken < steps.len() {
            Next::Take(taken)
        } else {
            Next::Done
        },
    }
}

/// How a run goes on from the state in which some steps were taken: how many are taken
/// in the end, and what comes of the run. `outcomes` says of each step what would come
/// of it.
pub open spec fn run_from<E>(outcomes: Seq<Result<(), E>>, taken: nat, outcome: Result<(), E>) -> (
    nat,
    Result<(), E>,
)
    decreases outcomes.len() - taken,
{
    match next_of(outcomes.len(), taken, outcome) {
        Next::Take(_) => if taken < outcomes.len() {
            run_from(outcomes, taken + 1, outcomes[taken as int])
        } else {
            (taken, outcome)
        },
        Next::Done => (taken, Ok(())),
        Next::Failed(err) => (taken, Err(err)),
    }
}

/// A step that fails is the last that is taken, and its error is what comes of the run;
/// where none fails all are taken, and the run succeeds.
pub proof fn law_failed_step_ends_run<E>(outcomes: Seq<Result<(), E>>, place: nat)
    requires
        place <= outcomes.len(),
        forall|k: int| 0 <= k < place ==> #[trigger] outcomes[k] is Ok,
        place < outcomes.len() ==> outcomes[place as int] is Err,
    ensures
        run_from(outcomes, 0, Ok(())) == (if place < outcomes.len() {
            (place + 1, outcomes[place as int])
        } else {
            (place, Ok(()))
        }),
{
    lemma_run_from(outcomes, 0, place);
}

/// A run goes on as far as its steps succeed.
proof fn lemma_run_from<E>(outcomes: Seq<Result<(), E>>, taken: nat, place: nat)
    requires
        taken <= place <= outcomes.len(),
        forall|k: int| 0 <= k < place ==> #[trigger] outcomes[k] is Ok,
        place < outcomes.len() ==> outcomes[place as int] is Err,
    ensures
        run_from(outcomes, taken, Ok(())) == (if place < outcomes.len() {
            (place + 1, outcomes[place as int])
        } else {
            (place, Ok(()))
        }),
    decreases place - taken,
{
    if taken < place {
        assert(outcomes[taken as int] is Ok);
        assert(outcomes[taken as int]->Ok_0 == ());
        lemma_run_from(outcomes, taken + 1, place);
    } else if place < outcomes.len() {
        reveal_with_fuel(run_from, 2);
    }
}

/// Tells whether all feeds succeeded.
pub fn all_succeeded(feeds: &Vec<bool>) -> (r: bool)
    ensures
        r == (forall|k: int| 0 <= k < feeds@.len() ==> #[trigger] feeds@[k]),
{
    let mut ok = true;
    for i in 0..feeds.len()
        invariant
            ok == (forall|k: int| 0 <= k < i ==> #[trigger] feeds@[k]),
    {
        ok = ok && feeds[i];
    }
    ok
}

/// A feed whose page is as it was is left alone: nothing is written and no hook is
/// run.
pub proof fn law_unmodified_feed_left_alone(
    output: Seq<char>,
    cache: Seq<char>,
    hook: Option<Seq<String>>,
)
    ensures
        steps_of(ProcessResult::NotModified, output, cache, hook).len() == 0,
{
}

/// A feed that was made is written before anything else is done, to its own file, and
/// its hook, if it has one, is run last and finds the path of that file.
pub proof fn law_feed_written_before_hook(
    result: ProcessResult,
    output: Seq<char>,
    cache: Seq<char>,
    words: Seq<String>,
)
    requires
        result is Made,
        words.len() > 0,
    ensures
        ({
            let steps = steps_of(result, output, cache, Some(words));
            &&& steps.first() == (StepView::WriteFeed { path: output })
            &&& steps.last() matches StepView::RunHook(command) && command.program == words[0]@
                && command.variable == FEED_FILE_VARIABLE@ && command.value == output
        }),
{
}

/// The cache is written exactly where headers came with the page.
pub proof fn law_cache_written_with_headers(
    result: ProcessResult,
    output: Seq<char>,
    cache: Seq<char>,
    hook: Option<Seq<String>>,
)
    ensures
        (exists|k: int|
            0 <= k < steps_of(result, output, cache, hook).len() && #[trigger] steps_of(
                result,
                output,
                cache,
                hook,
            )[k] is WriteCache) <==> (result matches ProcessResult::Made {
            channel: _,
            headers,
            skipped: _,
        } && headers is Some),
{
    let steps = steps_of(result, output, cache, hook);
    if result matches ProcessResult::Made { channel: _, headers, skipped: _ } && headers is Some {
        assert(steps[1] is WriteCache);
    }
}

/// A hook that is configured as empty runs nothing, as does one that is not
/// configured.
pub proof fn law_empty_hook_runs_nothing(feed: Seq<char>, words: Seq<String>)
    requires
        words.len() == 0,
    ensures
        hook_command_of(Some(words), feed) is None,
        hook_command_of(None, feed) is None,
{
}

/// A directory given on the command line decides over the configured one, and that
/// over the default.
pub proof fn law_given_output_decides(
    style: PathStyle,
    given: Seq<char>,
    configured: Option<Seq<char>>,
    home: Seq<char>,
    override_: Option<Seq<char>>,
)
    ensures
        output_dir_of(style, Some(given), configured, Some(home), override_) == Ok::<
            Seq<char>,
            RunErrorOf<Seq<char>>,
        >(given),
        configured matches Some(path) ==> output_dir_of(
            style,
            None,
            configured,
            Some(home),
            override_,
        ) == Ok::<Seq<char>, RunErrorOf<Seq<char>>>(tilde_expanded(style, path, home)),
{
}

/// A configured proxy decides over those in the environment.
pub proof fn law_configured_proxy_decides(
    configured: Seq<char>,
    http_proxy: Option<Seq<char>>,
    https_proxy: Option<Seq<char>>,
)
    ensures
        proxies_of(Some(configured), http_proxy, https_proxy) == seq![ProxyOf::All(configured)],
{
}

/// A feed is written into the directory for feeds, whatever directories its
/// configured file name goes through. On Windows a name is left out that is taken for a
/// drive or for several components once it stands alone, as one from a verbatim path
/// can be.
pub proof fn law_feed_stays_in_output_dir(
    style: PathStyle,
    output_dir: Seq<char>,
    filename: Seq<char>,
    cache_dir: Result<Seq<char>, DirError>,
)
    requires
        last_name(style, filename) matches Some(name) ==> !has_drive(style, name) && is_name(
            rules_of(style, Seq::empty()),
            name,
        ),
    ensures
        feed_files_of(style, output_dir, filename, cache_dir) matches Ok(files) ==> (last_name(
            style,
            filename,
        ) matches Some(name) && files.0 == as_directory(style, output_dir) + name),
{
    match last_name(style, filename) {
        Some(name) => {
            law_file_stays_in_directory(style, output_dir, name);
        },
        None => {},
    }
}

/// A feed's own hook decides which command is run: one without words runs nothing,
/// even where there is a hook for all feeds.
pub proof fn law_feed_hook_decides(own: Seq<String>, global: Option<Seq<String>>, feed: Seq<char>)
    ensures
        hook_command_of(inherited_hook(Some(own), global), feed) == hook_command_of(Some(own), feed),
        own.len() == 0 ==> hook_command_of(inherited_hook(Some(own), global), feed) is None,
        hook_command_of(inherited_hook(None, global), feed) == hook_command_of(global, feed),
{
}

/// What is done for a feed that was made, step by step: it is written to its file; the
/// headers that came with its page, where there are any, are written to its cache; and
/// its hook, where it has one with words, is run. Nothing else is done.
pub proof fn law_steps_of_a_feed(
    result: ProcessResult,
    output: Seq<char>,
    cache: Seq<char>,
    hook: Option<Seq<String>>,
)
    ensures
        result matches ProcessResult::Made { channel: _, headers, skipped: _ } ==> {
            let steps = steps_of(result, output, cache, hook);
            let kept: int = if headers is Some {
                1
            } else {
                0
            };
            let run: int = if hook is Some && hook->0.len() > 0 {
                1
            } else {
                0
            };
            &&& steps.len() == 1 + kept + run
            &&& steps[0] == (StepView::WriteFeed { path: output })
            &&& headers matches Some(text) ==> steps[1] == (StepView::WriteCache {
                path: cache,
                headers: text@,
            })
            &&& run == 1 ==> (steps[1 + kept] matches StepView::RunHook(command)
                && runs_words(command, hook->0, output))
        },
        result is NotModified ==> steps_of(result, output, cache, hook).len() == 0,
{
}

/// Whether a command runs the words of a hook for a feed: the first is the program, the
/// others are its arguments in order, and it finds the path of the feed in a variable.
pub open spec fn runs_words(command: HookView, words: Seq<String>, feed: Seq<char>) -> bool {
    &&& command.program == words[0]@
    &&& command.args.len() == words.len() - 1
    &&& forall|k: int| 0 <= k < command.args.len() ==> #[trigger] command.args[k] == words[k + 1]@
    &&& command.variable == "RSSPLS_FEED_FILE"@
    &&& command.value == feed
}

/// A hook with words is run as its words say, and one without words is not run.
pub proof fn law_hook_runs_its_words(words: Seq<String>, feed: Seq<char>)
    ensures
        words.len() > 0 ==> (hook_command_of(Some(words), feed) matches Some(command)
            && runs_words(command, words, feed)),
        words.len() == 0 ==> hook_command_of(Some(words), feed) is None,
{
}

/// After a step that succeeded the one behind it is taken, as long as there is one; after
/// the last there is nothing more to do; and after one that failed its error is what
/// there is.
pub proof fn law_steps_taken_in_turn<E>(count: nat, taken: nat, err: E)
    requires
        taken <= usize::MAX,
    ensures
        taken < count ==> (next_of::<E>(count, taken, Ok(())) matches Next::Take(place) && place
            == taken),
        taken >= count ==> next_of::<E>(count, taken, Ok(())) is Done,
        next_of(count, taken, Err(err)) == Next::Failed(err),
{
}

/// The directory for feeds: that on the command line, else the configured one, else that
/// of the override. It takes a home directory exactly where one is configured, and there
/// is none where nothing says which it is.
pub proof fn law_output_directory(
    style: PathStyle,
    given: Option<Seq<char>>,
    configured: Option<Seq<char>>,
    home: Option<Seq<char>>,
    override_: Option<Seq<char>>,
)
    ensures
        ({
            let result = output_dir_of(style, given, configured, home, override_);
            &&& configured is Some && home is None ==> result == Err::<
                Seq<char>,
                RunErrorOf<Seq<char>>,
            >(RunErrorOf::NoHome)
            &&& configured is None || home is Some ==> {
                &&& given matches Some(path) ==> result == Ok::<Seq<char>, RunErrorOf<Seq<char>>>(
                    path,
                )
                &&& given is None && configured is Some ==> result == Ok::<
                    Seq<char>,
                    RunErrorOf<Seq<char>>,
                >(tilde_expanded(style, configured->0, home->0))
                &&& given is None && configured is None ==> result == (match override_ {
                    Some(path) => Ok::<Seq<char>, RunErrorOf<Seq<char>>>(
                        pushed(style, path, "out"@),
                    ),
                    None => Err(RunErrorOf::NoOutputDir),
                })
            }
        }),
{
}

/// A configured proxy is the only one, for all requests. Without one, the variable for
/// `http` gives a proxy for `http` URLs, and that for `https` one for `https` URLs.
pub proof fn law_proxies(
    configured: Option<Seq<char>>,
    http_proxy: Option<Seq<char>>,
    https_proxy: Option<Seq<char>>,
)
    ensures
        ({
            let proxies = proxies_of(configured, http_proxy, https_proxy);
            let http: int = if http_proxy is Some {
                1
            } else {
                0
            };
            let https: int = if https_proxy is Some {
                1
            } else {
                0
            };
            &&& configured matches Some(url) ==> proxies.len() == 1 && proxies[0] == ProxyOf::All(
                url,
            )
            &&& configured is None ==> {
                &&& proxies.len() == http + https
                &&& http_proxy matches Some(url) ==> proxies[0] == ProxyOf::Http(url)
                &&& https_proxy matches Some(url) ==> proxies[http] == ProxyOf::Https(url)
            }
        }),
{
}

/// A configuration file that is given is read as it is, and no directory is made for it;
/// without one, `feeds.toml` is read from the directory for configuration.
pub proof fn law_configuration_file(
    style: PathStyle,
    given: Option<Seq<char>>,
    directory: Result<Seq<char>, DirError>,
)
    ensures
        given matches Some(path) ==> config_file_of(style, given, directory) == Ok::<
            (Seq<char>, Option<Seq<char>>),
            DirError,
        >((path, None)),
        given is None ==> config_file_of(style, given, directory) == (match directory {
            Ok(path) => Ok::<(Seq<char>, Option<Seq<char>>), DirError>(
                (pushed(style, path, "feeds.toml"@), Some(path)),
            ),
            Err(err) => Err(err),
        }),
{
}

/// The files of a feed whose configured name ends with a file name: the feed is that file
/// in the directory for feeds, and its cache is a file in the directory for caches that
/// has its name with the extension `toml`.
pub proof fn law_files_of_a_feed(
    style: PathStyle,
    output_dir: Seq<char>,
    filename: Seq<char>,
    cache_dir: Result<Seq<char>, DirError>,
)
    ensures
        (match (last_name(style, filename), cache_dir) {
            (None, _) => feed_files_of(style, output_dir, filename, cache_dir) == Err::<
                (Seq<char>, (Seq<char>, Seq<char>)),
                RunErrorOf<Seq<char>>,
            >(RunErrorOf::InvalidFileName { filename }),
            (Some(_), Err(cause)) => feed_files_of(style, output_dir, filename, cache_dir) == Err::<
                (Seq<char>, (Seq<char>, Seq<char>)),
                RunErrorOf<Seq<char>>,
            >(RunErrorOf::NoCachePlace { cause }),
            (Some(name), Ok(directory)) => feed_files_of(
                style,
                output_dir,
                filename,
                cache_dir,
            ) == Ok::<(Seq<char>, (Seq<char>, Seq<char>)), RunErrorOf<Seq<char>>>(
                (
                    pushed(style, output_dir, name),
                    (directory, pushed(style, directory, stem(name) + ".toml"@)),
                ),
            ),
        }),
{
    reveal_strlit(".");
    reveal_strlit("toml");
    reveal_strlit(".toml");
    match last_name(style, filename) {
        Some(name) => {
            assert(stem(name) + "."@ + "toml"@ =~= stem(name) + ".toml"@);
        },
        None => {},
    }
}

/// The view of a command, of a step and of a proxy has all that it is made of.
pub proof fn law_views_of_steps(command: HookCommand, step: Step, proxy: Proxy)
    ensures
        command@.program == command.program@,
        command@.args == views(command.args@),
        command@.variable == command.variable@,
        command@.value == command.value@,
        step matches Step::WriteFeed { path } ==> step@ == (StepView::WriteFeed { path: path@ }),
        step matches Step::WriteCache { path, headers } ==> step@ == (StepView::WriteCache {
            path: path@,
            headers: headers@,
        }),
        step matches Step::RunHook(hook) ==> step@ == StepView::RunHook(hook@),
        proxy matches ProxyOf::All(url) ==> proxy@ == ProxyOf::All(url@),
        proxy matches ProxyOf::Http(url) ==> proxy@ == ProxyOf::Http(url@),
        proxy matches ProxyOf::Https(url) ==> proxy@ == ProxyOf::Https(url@),
{
}

/// The views of paths, files and commands have all that they are made of.
pub proof fn law_views_of_files(
    path: String,
    directory: Option<String>,
    files: FeedFiles,
    command: HookCommand,
    err: RunError,
    cause: DirError,
    steps: Seq<Step>,
    proxies: Seq<Proxy>,
)
    ensures
        path_view(Ok(path)) == Ok::<Seq<char>, RunErrorOf<Seq<char>>>(path@),
        path_view(Err(err)) == Err::<Seq<char>, RunErrorOf<Seq<char>>>(err@),
        config_file_view(Ok((path, directory))) == Ok::<(Seq<char>, Option<Seq<char>>), DirError>(
            (path@, opt_view(directory)),
        ),
        config_file_view(Err(cause)) == Err::<(Seq<char>, Option<Seq<char>>), DirError>(cause),
        feed_files_view(Ok(files)) == Ok::<
            (Seq<char>, (Seq<char>, Seq<char>)),
            RunErrorOf<Seq<char>>,
        >((files.output@, (files.cache.directory@, files.cache.file@))),
        feed_files_view(Err(err)) == Err::<
            (Seq<char>, (Seq<char>, Seq<char>)),
            RunErrorOf<Seq<char>>,
        >(err@),
        command_view(Some(command)) == Some(command@),
        command_view(None) is None,
        step_views(steps).len() == steps.len(),
        forall|k: int| 0 <= k < steps.len() ==> step_views(steps)[k] == (#[trigger] steps[k])@,
        proxy_views(proxies).len() == proxies.len(),
        forall|k: int| 0 <= k < proxies.len() ==> proxy_views(proxies)[k] == (
        #[trigger] proxies[k])@,
{
}

/// An error of a run says what it is about: the name that is none, the command that was
/// not run, and the feed, the command and the status of a hook that failed.
pub proof fn law_run_errors_say_what_is_wrong(a: String, b: String, c: String, cause: DirError)
    ensures
        (RunErrorOf::InvalidFileName { filename: a })@.text() == a@ + " is not a valid file name"@,
        (RunErrorOf::HookNotRun { command: a })@.text() == "failed to execute post-update hook: "@
            + a@,
        (RunErrorOf::HookFailed { feed: a, command: b, status: c })@.text()
            == "post-update hook failed for '"@ + a@ + "': command '"@ + b@
            + "' exited with status "@ + c@,
        (RunErrorOf::<String>::NoHome)@.text() == "unable to determine home directory"@,
        (RunErrorOf::<String>::NoCachePlace { cause })@ == (RunErrorOf::NoCachePlace::<Seq<char>> {
            cause,
        }),
{
}

} // verus!
