//! Directories: where the configuration, the cache and the feeds are kept.
//!
//! The directories of the user come from the `dirs` crate. They depend on the
//! environment, so each function that asks for one has a companion that takes the
//! answer as an argument.
use crate::paths::{push, pushed, PathStyle};
use crate::text::opt_view;
use vstd::prelude::*;

verus! {

/// The directory below the user's own directories.
pub const APP_DIR: &'static str = "rsspls";

/// Why there is no place for a file.
#[derive(Debug, Clone, Copy, PartialEq, Eq, Structural)]
pub enum DirError {
    /// The user has no directory for configuration.
    NoConfigDir,
    /// The user has no directory for caches.
    NoCacheDir,
}

impl DirError {
    /// The message for an error.
    pub fn message(&self) -> (r: String)
        ensures
            r@ == (match self {
                DirError::NoConfigDir => "unable to determine user config dir"@,
                DirError::NoCacheDir => "unable to determine user cache dir"@,
            }),
    {
        match self {
            DirError::NoConfigDir => "unable to determine user config dir".to_owned(),
            DirError::NoCacheDir => "unable to determine user cache dir".to_owned(),
        }
    }
}

/// A file and the directory that it is in.
#[derive(Debug)]
pub struct Place {
    /// The directory, which may have to be created first.
    pub directory: String,
    /// The file.
    pub file: String,
}

/// Calls `dirs::home_dir`. Nothing is promised of the answer: it depends on the
/// environment. A directory whose path is not Unicode is left out.
#[verifier::external_body]
pub fn home_dir() -> (r: Option<String>) {
    ::dirs::home_dir().and_then(|path| path.into_os_string().into_string().ok())
}

/// Calls `dirs::config_dir`. Nothing is promised of the answer: it depends on the
/// environment. A directory whose path is not Unicode is left out.
#[verifier::external_body]
fn user_config_dir() -> (r: Option<String>) {
    ::dirs::config_dir().and_then(|path| path.into_os_string().into_string().ok())
}

/// Calls `dirs::cache_dir`. Nothing is promised of the answer: it depends on the
/// environment. A directory whose path is not Unicode is left out.
#[verifier::external_body]
fn user_cache_dir() -> (r: Option<String>) {
    ::dirs::cache_dir().and_then(|path| path.into_os_string().into_string().ok())
}

/// The directory that replaces the user's own, from the value of `RSSPLS_HOME`. An
/// empty value counts as none.
pub open spec fn home_override(value: Option<Seq<char>>) -> Option<Seq<char>> {
    match value {
        Some(path) => if path.len() == 0 {
            None
        } else {
            Some(path)
        },
        None => None,
    }
}

/// The directory for configuration: the override, or else one of the user's.
pub open spec fn config_dir_of(
    style: PathStyle,
    override_: Option<Seq<char>>,
    user: Option<Seq<char>>,
) -> Result<Seq<char>, DirError> {
    match (override_, user) {
        (Some(home), _) => Ok(home),
        (None, Some(user)) => Ok(pushed(style, user, APP_DIR@)),
        (None, None) => Err(DirError::NoConfigDir),
    }
}

/// The directory for caches: one below the override, or else one of the user's.
pub open spec fn cache_dir_of(
    style: PathStyle,
    override_: Option<Seq<char>>,
    user: Option<Seq<char>>,
) -> Result<Seq<char>, DirError> {
    match (override_, user) {
        (Some(home), _) => Ok(pushed(style, home, "cache"@)),
        (None, Some(user)) => Ok(pushed(style, user, APP_DIR@)),
        (None, None) => Err(DirError::NoCacheDir),
    }
}

/// A file in a directory.
pub open spec fn place_in(
    style: PathStyle,
    directory: Result<Seq<char>, DirError>,
    file: Seq<char>,
) -> Result<(Seq<char>, Seq<char>), DirError> {
    match directory {
        Ok(directory) => Ok((directory, pushed(style, directory, file))),
        Err(err) => Err(err),
    }
}

/// The view of a directory, or why there is none.
pub open spec fn dir_view(dir: Result<String, DirError>) -> Result<Seq<char>, DirError> {
    match dir {
        Ok(path) => Ok(path@),
        Err(err) => Err(err),
    }
}

/// The view of a place, or why there is none.
pub open spec fn place_view(place: Result<Place, DirError>) -> Result<
    (Seq<char>, Seq<char>),
    DirError,
> {
    match place {
        Ok(place) => Ok((place.directory@, place.file@)),
        Err(err) => Err(err),
    }
}

/// The directory that replaces the user's own, from the value of `RSSPLS_HOME`.
pub fn rsspls_home_dir(value: Option<String>) -> (r: Option<String>)
    ensures
        opt_view(r) == home_override(opt_view(value)),
{
    match value {
        Some(path) => if path.as_str().is_empty() {
            None
        } else {
            Some(path)
        },
        None => None,
    }
}

/// The directory for configuration, given that of the user.
pub fn config_dir_from(
    style: PathStyle,
    rsspls_home: Option<String>,
    user: Option<String>,
) -> (r: Result<String, DirError>)
    ensures
        dir_view(r) == config_dir_of(style, home_override(opt_view(rsspls_home)), opt_view(user)),
{
    match rsspls_home_dir(rsspls_home) {
        Some(home) => Ok(home),
        None => match user {
            Some(user) => Ok(push(style, user.as_str(), APP_DIR)),
            None => Err(DirError::NoConfigDir),
        },
    }
}

/// The directory for caches, given that of the user.
pub fn cache_dir_from(
    style: PathStyle,
    rsspls_home: Option<String>,
    user: Option<String>,
) -> (r: Result<String, DirError>)
    ensures
        dir_view(r) == cache_dir_of(style, home_override(opt_view(rsspls_home)), opt_view(user)),
{
    match rsspls_home_dir(rsspls_home) {
        Some(home) => Ok(push(style, home.as_str(), "cache")),
        None => match user {
            Some(user) => Ok(push(style, user.as_str(), APP_DIR)),
            None => Err(DirError::NoCacheDir),
        },
    }
}

/// The directory for configuration. Without an override it depends on the user's.
pub fn config_dir(style: PathStyle, rsspls_home: Option<String>) -> (r: Result<String, DirError>)
    ensures
        exists|user: Option<Seq<char>>|
            dir_view(r) == #[trigger] config_dir_of(
                style,
                home_override(opt_view(rsspls_home)),
                user,
            ),
{
    config_dir_from(style, rsspls_home, user_config_dir())
}

/// The directory for caches. Without an override it depends on the user's.
pub fn cache_dir(style: PathStyle, rsspls_home: Option<String>) -> (r: Result<String, DirError>)
    ensures
        exists|user: Option<Seq<char>>|
            dir_view(r) == #[trigger] cache_dir_of(
                style,
                home_override(opt_view(rsspls_home)),
                user,
            ),
{
    cache_dir_from(style, rsspls_home, user_cache_dir())
}

/// Places a file in a directory.
pub fn place_file(style: PathStyle, directory: Result<String, DirError>, file: &str) -> (r: Result<
    Place,
    DirError,
>)
    ensures
        place_view(r) == place_in(style, dir_view(directory), file@),
{
    match directory {
        Ok(directory) => {
            let path = push(style, directory.as_str(), file);
            Ok(Place { directory, file: path })
        },
        Err(err) => Err(err),
    }
}

/// Places a file in the directory for configuration.
pub fn place_config_file(style: PathStyle, rsspls_home: Option<String>, path: &str) -> (r: Result<
    Place,
    DirError,
>)
    ensures
        exists|user: Option<Seq<char>>|
            place_view(r) == place_in(
                style,
                #[trigger] config_dir_of(style, home_override(opt_view(rsspls_home)), user),
                path@,
            ),
{
    place_file(style, config_dir(style, rsspls_home), path)
}

/// Places a file in the directory for caches.
pub fn place_cache_file(style: PathStyle, rsspls_home: Option<String>, path: &str) -> (r: Result<
    Place,
    DirError,
>)
    ensures
        exists|user: Option<Seq<char>>|
            place_view(r) == place_in(
                style,
                #[trigger] cache_dir_of(style, home_override(opt_view(rsspls_home)), user),
                path@,
            ),
{
    place_file(style, cache_dir(style, rsspls_home), path)
}

/// The directory for feeds where none is configured: one below the override.
pub fn default_output_dir(style: PathStyle, rsspls_home: Option<String>) -> (r: Option<String>)
    ensures
        opt_view(r) == default_output(style, home_override(opt_view(rsspls_home))),
{
    match rsspls_home_dir(rsspls_home) {
        Some(home) => Some(push(style, home.as_str(), "out")),
        None => None,
    }
}

/// The directory for feeds where none is configured.
pub open spec fn default_output(style: PathStyle, override_: Option<Seq<char>>) -> Option<
    Seq<char>,
> {
    match override_ {
        Some(home) => Some(pushed(style, home, "out"@)),
        None => None,
    }
}

/// With an override, the configuration is read from a file in it, caches are kept in
/// its directory `cache` and feeds in its directory `out`, whatever the user's own
/// directories are.
pub proof fn law_override_decides(
    style: PathStyle,
    home: Seq<char>,
    user_config: Option<Seq<char>>,
    user_cache: Option<Seq<char>>,
    file: Seq<char>,
)
    requires
        home.len() > 0,
    ensures
        place_in(style, config_dir_of(style, home_override(Some(home)), user_config), file) == Ok::<
            (Seq<char>, Seq<char>),
            DirError,
        >((home, pushed(style, home, file))),
        cache_dir_of(style, home_override(Some(home)), user_cache) == Ok::<Seq<char>, DirError>(
            pushed(style, home, "cache"@),
        ),
        default_output(style, home_override(Some(home))) == Some(pushed(style, home, "out"@)),
{
}

/// An empty override is as good as none: the directories are the user's own, and
/// there is none for feeds.
pub proof fn law_empty_override_is_none(style: PathStyle, value: Seq<char>, user: Option<Seq<char>>)
    requires
        value.len() == 0,
    ensures
        config_dir_of(style, home_override(Some(value)), user) == config_dir_of(style, None, user),
        cache_dir_of(style, home_override(Some(value)), user) == cache_dir_of(style, None, user),
        default_output(style, home_override(Some(value))) is None,
{
}

/// Without an override, the configuration and the caches are in the directory `rsspls`
/// below the user's own, and nowhere where the user has none.
pub proof fn law_user_directories(style: PathStyle, user: Seq<char>, file: Seq<char>)
    ensures
        config_dir_of(style, None, Some(user)) == Ok::<Seq<char>, DirError>(
            pushed(style, user, "rsspls"@),
        ),
        cache_dir_of(style, None, Some(user)) == Ok::<Seq<char>, DirError>(
            pushed(style, user, "rsspls"@),
        ),
        config_dir_of(style, None, None) == Err::<Seq<char>, DirError>(DirError::NoConfigDir),
        cache_dir_of(style, None, None) == Err::<Seq<char>, DirError>(DirError::NoCacheDir),
        default_output(style, None) is None,
        place_in(style, Ok(user), file) == Ok::<(Seq<char>, Seq<char>), DirError>(
            (user, pushed(style, user, file)),
        ),
        place_in(style, Err(DirError::NoCacheDir), file) == Err::<
            (Seq<char>, Seq<char>),
            DirError,
        >(DirError::NoCacheDir),
        place_in(style, Err(DirError::NoConfigDir), file) == Err::<
            (Seq<char>, Seq<char>),
            DirError,
        >(DirError::NoConfigDir),
{
}

/// The views of directories and places have all that they are made of.
pub proof fn law_views_of_places(path: String, place: Place, err: DirError)
    ensures
        dir_view(Ok(path)) == Ok::<Seq<char>, DirError>(path@),
        dir_view(Err(err)) == Err::<Seq<char>, DirError>(err),
        place_view(Ok(place)) == Ok::<(Seq<char>, Seq<char>), DirError>(
            (place.directory@, place.file@),
        ),
        place_view(Err(err)) == Err::<(Seq<char>, Seq<char>), DirError>(err),
{
}

} // verus!
