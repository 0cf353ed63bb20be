use rsspls::paths::{
    expand_tilde, extension, file_name, push, with_extension, PathStyle,
};

#[test]
fn test_home() {
    let expanded = expand_tilde(PathStyle::Unix, "asdf", "/home/foo");
    assert_eq!(expanded, "asdf");

    let expanded = expand_tilde(PathStyle::Unix, "~asdf", "/home/foo");
    assert_eq!(expanded, "~asdf");

    let expanded = expand_tilde(PathStyle::Unix, "~/some/where", "/home/foo");
    assert_eq!(expanded, "/home/foo/some/where");

    let expanded = expand_tilde(PathStyle::Unix, "~/some/where", "/");
    assert_eq!(expanded, "/some/where");
}

#[test]
fn test_home_windows() {
    let expanded = expand_tilde(PathStyle::Windows, "asdf", r"C:\Users\Foo");
    assert_eq!(expanded, "asdf");

    let expanded = expand_tilde(PathStyle::Windows, "~asdf", r"C:\Users\Foo");
    assert_eq!(expanded, "~asdf");

    let expanded = expand_tilde(PathStyle::Windows, r"~\some\where", r"C:\Users\Foo");
    assert_eq!(expanded, r"C:\Users\Foo\some\where");

    let expanded = expand_tilde(PathStyle::Windows, r"~\some\where", r"C:\");
    assert_eq!(expanded, r"C:\some\where");
}

#[test]
fn tildes_alone() {
    assert_eq!(expand_tilde(PathStyle::Unix, "~", "/home/foo"), "/home/foo");
    assert_eq!(expand_tilde(PathStyle::Unix, "~/", "/home/foo"), "/home/foo");
    assert_eq!(expand_tilde(PathStyle::Unix, "~/./a//b/", "/home/foo"), "/home/foo/a//b");
    assert_eq!(expand_tilde(PathStyle::Unix, "/~", "/home/foo"), "/~");
}

#[test]
fn paths_below_others() {
    assert_eq!(push(PathStyle::Unix, "/a", "b"), "/a/b");
    assert_eq!(push(PathStyle::Unix, "/a/", "b"), "/a/b");
    assert_eq!(push(PathStyle::Unix, "", "b"), "b");
    assert_eq!(push(PathStyle::Unix, "/a", "/b"), "/b");
    assert_eq!(push(PathStyle::Windows, r"C:\a", "b"), r"C:\a\b");
    assert_eq!(push(PathStyle::Windows, "C:", "b"), "C:b");
    assert_eq!(push(PathStyle::Windows, r"C:\a", r"\b"), r"C:\b");
    assert_eq!(push(PathStyle::Windows, r"C:\a", "D:b"), "D:b");
    assert_eq!(push(PathStyle::Windows, r"C:\a", r"\\server\share\b"), r"\\server\share\b");
    assert_eq!(push(PathStyle::Windows, r"\\server\share", "b"), r"\\server\share\b");
    assert_eq!(push(PathStyle::Windows, r"\\server\share\a", r"\b"), r"\\server\share\b");
    assert_eq!(push(PathStyle::Windows, r"\\.\COM1", "b"), r"\\.\COM1\b");
    assert_eq!(push(PathStyle::Windows, r"\\?\C:\a", r"..\.\b/c"), r"\\?\C:\b\c");
    assert_eq!(push(PathStyle::Windows, r"\\?\C:\a\b", r"..\x"), r"\\?\C:\a\x");
    assert_eq!(push(PathStyle::Windows, r"\\?\C:\a", r"\b"), r"\\?\C:\b");
    assert_eq!(push(PathStyle::Windows, r"\\?\C:", "b"), r"\\?\C:\b");
    assert_eq!(push(PathStyle::Windows, r"\\?\UNC\s\t", "b"), r"\\?\UNC\s\t\b");
    assert_eq!(push(PathStyle::Windows, r"\\?\UNC\s\t\a", r"..\..\b"), r"\\?\UNC\s\t\b");
    assert_eq!(push(PathStyle::Windows, r"\\?\C:\a", ""), r"\\?\C:\a\");
    assert_eq!(push(PathStyle::Windows, r"\\?\C:\a\", "."), r"\\?\C:\a");
    assert_eq!(push(PathStyle::Windows, r"\\?\C:\\a\\b\\", "c"), r"\\?\C:\a\b\c");
    assert_eq!(push(PathStyle::Windows, r"\\?\C:\\", "c"), r"\\?\C:\c");
    assert_eq!(push(PathStyle::Windows, r"\\?\C:\a\..", r"..\b"), r"\\?\C:\a\..\b");
}

#[test]
fn names_of_files() {
    let name = |path: &str| file_name(PathStyle::Unix, path);
    assert_eq!(name("/a/b.xml").as_deref(), Some("b.xml"));
    assert_eq!(name("b.xml/").as_deref(), Some("b.xml"));
    assert_eq!(name("a/b/.").as_deref(), Some("b"));
    assert_eq!(name("a/.."), None);
    assert_eq!(name("/"), None);
    assert_eq!(name(""), None);
    assert_eq!(file_name(PathStyle::Windows, r"C:\a\b").as_deref(), Some("b"));
    let name = |path: &str| file_name(PathStyle::Windows, path);
    assert_eq!(name("C:"), None);
    assert_eq!(name(r"\\server\share\a\b").as_deref(), Some("b"));
    assert_eq!(name(r"\\server\share"), None);
    assert_eq!(name(r"\\server").as_deref(), Some("server"));
    assert_eq!(name(r"\\.\COM1\b").as_deref(), Some("b"));
    assert_eq!(name(r"\\?\C:\a\b/c").as_deref(), Some("b/c"));
    assert_eq!(name(r"\\?\C:\a\."), None);
    assert_eq!(name(r"\\?\pictures"), None);
}

#[test]
fn extensions() {
    assert_eq!(with_extension("a.xml", "toml"), "a.toml");
    assert_eq!(with_extension("a", "toml"), "a.toml");
    assert_eq!(with_extension(".a", "toml"), ".a.toml");
    assert_eq!(with_extension("a.b.c", "toml"), "a.b.toml");
}

#[test]
fn extensions_of_paths() {
    assert_eq!(extension(PathStyle::Unix, "/a/b.tar.gz").as_deref(), Some("gz"));
    assert_eq!(extension(PathStyle::Unix, "b.").as_deref(), Some(""));
    assert_eq!(extension(PathStyle::Unix, ".b"), None);
    assert_eq!(extension(PathStyle::Unix, "b"), None);
    assert_eq!(extension(PathStyle::Unix, "a.b/.."), None);
    assert_eq!(extension(PathStyle::Windows, r"C:\a.b\c.d").as_deref(), Some("d"));
}

#[test]
fn tildes_expand_once() {
    for (style, path, home, expected) in [
        (PathStyle::Unix, "~/a", "/home/foo", "/home/foo/a"),
        (PathStyle::Windows, r"~\a", r"\\?\C:\home", r"\\?\C:\home\a"),
        (PathStyle::Windows, r"~\..\a", r"\\?\C:\home", r"\\?\C:\a"),
        (PathStyle::Windows, r"~/a/b", r"\\server\share", r"\\server\share\a/b"),
        (PathStyle::Windows, r"~\C:\a", r"D:\home", r"C:\a"),
    ] {
        let expanded = expand_tilde(style, path, home);
        assert_eq!(expanded, expected);
        assert_eq!(expand_tilde(style, &expanded, home), expected);
    }
}
