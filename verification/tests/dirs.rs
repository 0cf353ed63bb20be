use rsspls::dirs::{
    cache_dir, cache_dir_from, config_dir, config_dir_from, default_output_dir, home_dir,
    place_cache_file, place_config_file, place_file, rsspls_home_dir, DirError,
};
use rsspls::paths::PathStyle;

fn text(s: &str) -> Option<String> {
    Some(s.to_string())
}

#[test]
fn rsspls_home_dir_uses_override_when_set() {
    assert_eq!(
        rsspls_home_dir(text("/tmp/rsspls-home-test")),
        text("/tmp/rsspls-home-test")
    );
}

#[test]
fn rsspls_home_dir_treats_empty_override_as_unset() {
    assert_eq!(rsspls_home_dir(text("")), None);
}

#[test]
fn override_decides() {
    let place = place_config_file(PathStyle::Unix, text("/rsspls"), "feeds.toml").unwrap();
    assert_eq!(place.directory, "/rsspls");
    assert_eq!(place.file, "/rsspls/feeds.toml");
    let place = place_cache_file(PathStyle::Unix, text("/rsspls"), "a.toml").unwrap();
    assert_eq!(place.directory, "/rsspls/cache");
    assert_eq!(place.file, "/rsspls/cache/a.toml");
    assert_eq!(
        default_output_dir(PathStyle::Unix, text("/rsspls")),
        text("/rsspls/out")
    );
    assert_eq!(default_output_dir(PathStyle::Unix, text("")), None);
    assert_eq!(default_output_dir(PathStyle::Unix, None), None);
}

#[test]
fn user_directories_without_override() {
    assert_eq!(
        config_dir_from(PathStyle::Unix, None, text("/home/foo/.config")),
        Ok("/home/foo/.config/rsspls".to_string())
    );
    assert_eq!(
        cache_dir_from(PathStyle::Unix, text(""), text("/home/foo/.cache")),
        Ok("/home/foo/.cache/rsspls".to_string())
    );
    assert_eq!(
        config_dir_from(PathStyle::Unix, None, None),
        Err(DirError::NoConfigDir)
    );
    assert_eq!(
        cache_dir_from(PathStyle::Unix, None, None),
        Err(DirError::NoCacheDir)
    );
}

#[test]
fn directories_on_windows() {
    let place = place_file(PathStyle::Windows, Ok(r"\\?\C:\x".to_string()), "feeds.toml").unwrap();
    assert_eq!(place.file, r"\\?\C:\x\feeds.toml");
    let place = place_cache_file(PathStyle::Windows, text(r"\\?\C:\r"), "a.toml").unwrap();
    assert_eq!(place.directory, r"\\?\C:\r\cache");
    assert_eq!(place.file, r"\\?\C:\r\cache\a.toml");
    let place = place_config_file(PathStyle::Windows, text(r"\\server\share"), "feeds.toml").unwrap();
    assert_eq!(place.file, r"\\server\share\feeds.toml");
    assert_eq!(
        default_output_dir(PathStyle::Windows, text(r"\\?\C:\")),
        text(r"\\?\C:\out")
    );
    let place = place_file(PathStyle::Unix, Err(DirError::NoCacheDir), "a");
    assert_eq!(place.err(), Some(DirError::NoCacheDir));
}

#[test]
fn messages_of_directories() {
    assert_eq!(
        DirError::NoConfigDir.message(),
        "unable to determine user config dir"
    );
    assert_eq!(
        DirError::NoCacheDir.message(),
        "unable to determine user cache dir"
    );
}

#[test]
fn directories_of_this_user() {
    // Whatever the environment is, what is found lies below the user's directories.
    if let Ok(path) = config_dir(PathStyle::Unix, None) {
        assert!(path.ends_with("rsspls"));
    }
    if let Ok(path) = cache_dir(PathStyle::Unix, None) {
        assert!(path.ends_with("rsspls"));
    }
    if let Some(home) = home_dir() {
        assert!(!home.is_empty());
    }
}
