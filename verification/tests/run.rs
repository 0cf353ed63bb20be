use rsspls::config::{ChannelConfig, FeedConfig, FeedSource, RssplsConfig};
use rsspls::dirs::{DirError, Place};
use rsspls::feed::{process_feed, FetchResult, ProcessResult};
use rsspls::paths::PathStyle;
use rsspls::run::{
    all_succeeded, client_settings, config_file, config_file_in, feed_files, feed_files_in,
    hook_command, hook_result, next_step, output_dir, output_dir_from, process, FeedFiles, HookEnd,
    Next, ProxyOf, RunErrorOf, Step,
};

fn text(s: &str) -> Option<String> {
    Some(s.to_string())
}

fn hook(words: &[&str]) -> Option<Vec<String>> {
    Some(words.iter().map(|word| word.to_string()).collect())
}

fn channel(filename: &str, post_update_hook: Option<Vec<String>>) -> ChannelConfig {
    ChannelConfig {
        title: "T".to_string(),
        filename: filename.to_string(),
        user_agent: None,
        post_update_hook,
        config: FeedConfig {
            source: FeedSource::Html,
            url: "file:///tmp/t.html".to_string(),
            item: "h2".to_string(),
            heading: "h2".to_string(),
            link: None,
            summary: vec![],
            date: None,
            media: None,
            min_items: None,
        },
    }
}

fn files() -> FeedFiles {
    FeedFiles {
        output: "/out/t.xml".to_string(),
        cache: Place { directory: "/cache".to_string(), file: "/cache/t.toml".to_string() },
    }
}

fn steps(result: &ProcessResult, hook: Option<Vec<String>>) -> Vec<String> {
    process(result, &files(), &channel("t.xml", hook))
        .into_iter()
        .map(|step| match step {
            Step::WriteFeed { path } => format!("feed {path}"),
            Step::WriteCache { path, headers } => format!("cache {path} {headers}"),
            Step::RunHook(command) => format!("hook {} {}", command.program, command.value),
        })
        .collect()
}

#[test]
fn test_run_hook() {
    let words = hook(&["sh", "-c", "echo $RSSPLS_FEED_FILE > /tmp/hook_marker"]);
    let command = hook_command(&words, "/tmp/feed.xml").unwrap();
    assert_eq!(command.program, "sh");
    assert_eq!(command.args, ["-c", "echo $RSSPLS_FEED_FILE > /tmp/hook_marker"]);
    assert_eq!(command.variable, "RSSPLS_FEED_FILE");
    assert_eq!(command.value, "/tmp/feed.xml");
    assert!(hook_result(&command, HookEnd::Success).is_ok());
}

#[test]
fn test_process_triggers_hook() {
    let feed = channel("t.xml", hook(&["touch", "/tmp/hook_run"]));
    let fetched = FetchResult::Fetched { html: "<h2>t</h2>".to_string(), headers: None };
    let result = process_feed(PathStyle::Unix, &feed, fetched, None).unwrap().unwrap();
    let files = feed_files(PathStyle::Unix, "/tmp/out", &feed, text("/tmp/home")).unwrap();
    let planned = process(&result, &files, &feed);
    assert_eq!(planned.len(), 2);
    match &planned[0] {
        Step::WriteFeed { path } => assert_eq!(path, "/tmp/out/t.xml"),
        other => panic!("expected the feed but got: {other:?}"),
    }
    match &planned[1] {
        Step::RunHook(command) => {
            assert_eq!(command.program, "touch");
            assert_eq!(command.args, ["/tmp/hook_run"]);
            assert_eq!(command.value, "/tmp/out/t.xml");
        }
        other => panic!("expected the hook but got: {other:?}"),
    }
}

#[test]
fn test_run_hook_returns_err_on_non_zero_exit() {
    let command = hook_command(&hook(&["sh", "-c", "exit 7"]), "/tmp/feed.xml").unwrap();
    let err = hook_result(&command, HookEnd::Failure("exit status: 7".to_string())).unwrap_err();
    assert!(err.message().contains("post-update hook failed"));
    assert_eq!(
        err.message(),
        "post-update hook failed for '/tmp/feed.xml': command 'sh' exited with status exit status: 7"
    );
    let err = hook_result(&command, HookEnd::NotRun).unwrap_err();
    assert_eq!(err.message(), "failed to execute post-update hook: sh");
}

#[test]
fn hooks_without_words_run_nothing() {
    assert!(hook_command(&None, "/x").is_none());
    assert!(hook_command(&Some(vec![]), "/x").is_none());
}

#[test]
fn steps_come_in_order() {
    let made = |headers: Option<&str>| {
        let fetched = FetchResult::Fetched {
            html: String::new(),
            headers: headers.map(str::to_string),
        };
        process_feed(PathStyle::Unix, &channel("t.xml", None), fetched, None).unwrap().unwrap()
    };
    assert!(steps(&ProcessResult::NotModified, hook(&["touch"])).is_empty());
    assert_eq!(steps(&made(None), None), ["feed /out/t.xml"]);
    assert_eq!(
        steps(&made(Some("h")), None),
        ["feed /out/t.xml", "cache /cache/t.toml h"]
    );
    assert_eq!(
        steps(&made(Some("h")), hook(&["touch"])),
        ["feed /out/t.xml", "cache /cache/t.toml h", "hook touch /out/t.xml"]
    );
}

#[test]
fn files_of_feeds() {
    let files = |filename: &str, cache: Result<&str, DirError>| {
        feed_files_in(PathStyle::Unix, "/out", filename, cache.map(str::to_string))
    };
    let found = files("a/../example.tar.gz", Ok("/cache")).unwrap();
    assert_eq!(found.output, "/out/example.tar.gz");
    assert_eq!(found.cache.directory, "/cache");
    assert_eq!(found.cache.file, "/cache/example.tar.toml");
    assert_eq!(files("/etc/passwd", Ok("/c")).unwrap().output, "/out/passwd");
    assert_eq!(files(".hidden", Ok("/c")).unwrap().cache.file, "/c/.hidden.toml");
    assert_eq!(files("..", Ok("/c")).unwrap_err().message(), ".. is not a valid file name");
    assert_eq!(files("/", Ok("/c")).unwrap_err().message(), "/ is not a valid file name");
    let err = files("x", Err(DirError::NoCacheDir)).unwrap_err();
    assert_eq!(err.message(), "unable to create path to cache file");
    assert!(matches!(err, RunErrorOf::NoCachePlace { cause: DirError::NoCacheDir }));
    let windows = |out: &str, filename: &str| {
        feed_files_in(PathStyle::Windows, out, filename, Ok(r"C:\c".to_string())).unwrap().output
    };
    assert_eq!(windows(r"C:\out", r"\\a\b\c.xml"), r"C:\out\c.xml");
    assert_eq!(windows(r"\\?\C:\out", "c.xml"), r"\\?\C:\out\c.xml");
}

#[test]
fn output_directories() {
    let dir = |given: Option<&str>, configured: Option<&str>, home: Option<&str>, over: Option<&str>| {
        output_dir_from(
            PathStyle::Unix,
            given.map(str::to_string),
            &configured.map(str::to_string),
            home.map(str::to_string),
            over.map(str::to_string),
        )
        .map_err(|err| err.message())
    };
    let home = Some("/home/foo");
    assert_eq!(dir(Some("g"), Some("~/c"), home, Some("/r")), Ok("g".to_string()));
    assert_eq!(dir(None, Some("~/c"), home, Some("/r")), Ok("/home/foo/c".to_string()));
    assert_eq!(dir(None, Some("/c"), home, None), Ok("/c".to_string()));
    assert_eq!(dir(None, None, None, Some("/r")), Ok("/r/out".to_string()));
    assert_eq!(
        dir(Some("g"), Some("c"), None, None),
        Err("unable to determine home directory".to_string())
    );
    assert_eq!(dir(Some("g"), None, None, None), Ok("g".to_string()));
    let missing = "output directory must be supplied via --output, be present in configuration file, or RSSPLS_HOME must be set";
    assert_eq!(dir(None, None, home, Some("")), Err(missing.to_string()));
    let verbatim = output_dir_from(PathStyle::Windows, None, &text(r"~\c"), text(r"\\?\C:\"), None);
    assert_eq!(verbatim.unwrap(), r"\\?\C:\c");
    assert_eq!(
        output_dir(PathStyle::Unix, None, &None, text("/r")).unwrap(),
        "/r/out"
    );
}

#[test]
fn configuration_files() {
    assert_eq!(
        config_file(PathStyle::Unix, text("my.toml"), text("/rsspls")),
        Ok(("my.toml".to_string(), None))
    );
    assert_eq!(
        config_file(PathStyle::Unix, None, text("/rsspls")),
        Ok(("/rsspls/feeds.toml".to_string(), text("/rsspls")))
    );
    assert_eq!(
        config_file_in(PathStyle::Unix, None, Err(DirError::NoConfigDir)),
        Err(DirError::NoConfigDir)
    );
}

#[test]
fn settings_of_the_client() {
    let config = |proxy: Option<&str>, insecure| RssplsConfig {
        output: None,
        proxy: proxy.map(str::to_string),
        post_update_hook: None,
        file_urls: false,
        insecure_disable_certificate_verification: insecure,
    };
    let settings = client_settings(&config(Some("p"), false), text("h"), text("s"));
    assert_eq!(settings.connect_timeout, 10);
    assert_eq!(settings.timeout, 30);
    assert!(!settings.accept_invalid_certs);
    assert_eq!(settings.proxies.len(), 1);
    assert!(matches!(&settings.proxies[0], ProxyOf::All(url) if url == "p"));
    let settings = client_settings(&config(None, true), text("h"), text("s"));
    assert!(settings.accept_invalid_certs);
    assert_eq!(settings.proxies.len(), 2);
    assert!(matches!(&settings.proxies[0], ProxyOf::Http(url) if url == "h"));
    assert!(matches!(&settings.proxies[1], ProxyOf::Https(url) if url == "s"));
    assert!(client_settings(&config(None, true), None, None).proxies.is_empty());
    let settings = client_settings(&config(None, true), None, text("s"));
    assert!(matches!(&settings.proxies[0], ProxyOf::Https(url) if url == "s"));
}

#[test]
fn success_of_all_feeds() {
    assert!(all_succeeded(&vec![]));
    assert!(all_succeeded(&vec![true, true]));
    assert!(!all_succeeded(&vec![true, false, true]));
}

#[test]
fn a_failed_step_ends_the_run() {
    let run = |fails: usize| {
        let planned = vec![
            Step::WriteFeed { path: "a".to_string() },
            Step::WriteCache { path: "b".to_string(), headers: "h".to_string() },
            Step::WriteFeed { path: "c".to_string() },
        ];
        let mut taken = 0;
        let mut outcome = Ok(());
        loop {
            match next_step(&planned, taken, outcome) {
                Next::Take(place) => {
                    assert_eq!(place, taken);
                    outcome = if place == fails { Err(format!("step {place}")) } else { Ok(()) };
                    taken += 1;
                }
                Next::Done => return (taken, Ok(())),
                Next::Failed(err) => return (taken, Err(err)),
            }
        }
    };
    assert_eq!(run(0), (1, Err("step 0".to_string())));
    assert_eq!(run(1), (2, Err("step 1".to_string())));
    assert_eq!(run(9), (3, Ok(())));
}
