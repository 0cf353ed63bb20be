//! File system paths as text: home directories, file names and extensions.
//!
//! A path is taken apart at its separators. What counts as one depends on the
//! platform that the path is for, so every function takes a `PathStyle`. On Windows a
//! path may start with a prefix: a drive such as `C:`, a share such as
//! `\\server\share`, a device such as `\\.\COM1`, or one of them in the verbatim form
//! that starts with `\\?\` and turns most rules off.
use crate::text::{chars_of, join2, join3, opt_view};
use vstd::prelude::*;

verus! {

/// The platform that a path is for.
#[derive(Debug, Clone, Copy, PartialEq, Eq, Structural)]
pub enum PathStyle {
    /// Paths such as `/home/foo`.
    Unix,
    /// Paths such as `C:\Users\Foo`.
    Windows,
}

/// The rules by which the text of a path is taken apart.
#[derive(Debug, Clone, Copy, PartialEq, Eq, Structural)]
pub enum Rules {
    /// Those of Unix.
    Unix,
    /// Those of Windows.
    Windows,
    /// Those of verbatim paths on Windows.
    Verbatim,
}

/// Whether a character separates the components of a path.
pub open spec fn is_separator(rules: Rules, c: char) -> bool {
    match rules {
        Rules::Unix => c == '/',
        Rules::Windows => c == '/' || c == '\\',
        Rules::Verbatim => c == '\\',
    }
}

/// Whether a path starts with `\\?\`, which turns the usual rules off.
pub open spec fn is_verbatim(style: PathStyle, path: Seq<char>) -> bool {
    &&& style is Windows
    &&& path.len() >= 4
    &&& path[0] == '\\'
    &&& path[1] == '\\'
    &&& path[2] == '?'
    &&& path[3] == '\\'
}

/// The rules for a path.
pub open spec fn rules_of(style: PathStyle, path: Seq<char>) -> Rules {
    match style {
        PathStyle::Unix => Rules::Unix,
        PathStyle::Windows => if is_verbatim(style, path) {
            Rules::Verbatim
        } else {
            Rules::Windows
        },
    }
}

/// Whether a text starts with a letter and a colon.
pub open spec fn starts_with_drive(s: Seq<char>) -> bool {
    &&& s.len() >= 2
    &&& 'a' <= s[0] <= 'z' || 'A' <= s[0] <= 'Z'
    &&& s[1] == ':'
}

/// Whether a path starts with a drive, such as `C:`.
pub open spec fn has_drive(style: PathStyle, path: Seq<char>) -> bool {
    style is Windows && starts_with_drive(path)
}

/// Whether a path starts with a separator.
pub open spec fn is_rooted(style: PathStyle, path: Seq<char>) -> bool {
    path.len() >= 1 && is_separator(rules_of(style, path), path[0])
}

/// Whether a path starts with two separators where that names a share or a device.
pub open spec fn is_share(style: PathStyle, path: Seq<char>) -> bool {
    &&& style is Windows
    &&& path.len() >= 2
    &&& is_separator(Rules::Windows, path[0])
    &&& is_separator(Rules::Windows, path[1])
}

/// How many characters the first component of a path has.
pub open spec fn first_end(rules: Rules, path: Seq<char>) -> nat
    decreases path.len(),
{
    if path.len() == 0 || is_separator(rules, path[0]) {
        0
    } else {
        1 + first_end(rules, path.drop_first())
    }
}

/// Where a component ends that starts at some place in a path.
pub open spec fn component_end(rules: Rules, path: Seq<char>, from: int) -> int {
    from + first_end(rules, path.skip(from))
}

/// How many characters the prefix of a verbatim path has: `\\?\UNC\` with a server and
/// a share, `\\?\` with a drive, or `\\?\` with one component.
pub open spec fn verbatim_prefix_len(path: Seq<char>) -> int {
    if path.len() >= 8 && path[4] == 'U' && path[5] == 'N' && path[6] == 'C' && path[7] == '\\' {
        let server = component_end(Rules::Verbatim, path, 8);
        if server + 1 < path.len() && path[server + 1] != '\\' {
            component_end(Rules::Verbatim, path, server + 1)
        } else {
            server
        }
    } else if starts_with_drive(path.skip(4)) && (path.len() == 6 || is_separator(
        Rules::Windows,
        path[6],
    )) {
        6
    } else {
        component_end(Rules::Verbatim, path, 4)
    }
}

/// How many characters the prefix of a path has that starts with two separators: a
/// device, or a share that names its server. Without a share there is no prefix.
pub open spec fn share_prefix_len(path: Seq<char>) -> int {
    if path.len() >= 4 && path[2] == '.' && is_separator(Rules::Windows, path[3]) {
        component_end(Rules::Windows, path, 4)
    } else {
        let server = component_end(Rules::Windows, path, 2);
        if 2 < server && server + 1 < path.len() && !is_separator(Rules::Windows, path[server + 1]) {
            component_end(Rules::Windows, path, server + 1)
        } else {
            0
        }
    }
}

/// How many characters the prefix of a path has.
pub open spec fn prefix_len(style: PathStyle, path: Seq<char>) -> int {
    if is_verbatim(style, path) {
        verbatim_prefix_len(path)
    } else if is_share(style, path) {
        share_prefix_len(path)
    } else if has_drive(style, path) {
        2
    } else {
        0
    }
}

/// A path that ends with a separator, but for an empty one and a drive alone.
pub open spec fn with_separator(style: PathStyle, base: Seq<char>) -> Seq<char> {
    if base.len() == 0 || is_separator(rules_of(style, Seq::empty()), base.last()) || (base.len()
        == 2 && has_drive(style, base)) {
        base
    } else {
        base.push(
            match style {
                PathStyle::Unix => '/',
                PathStyle::Windows => '\\',
            },
        )
    }
}

/// Where the last component of a path starts.
pub open spec fn last_start(rules: Rules, path: Seq<char>) -> nat
    decreases path.len(),
{
    if path.len() == 0 || is_separator(rules, path.last()) {
        path.len()
    } else {
        last_start(rules, path.drop_last())
    }
}

/// A component that stands for nothing: what lies between two separators in a row and,
/// but for verbatim paths, `.`.
pub open spec fn is_void(rules: Rules, component: Seq<char>) -> bool {
    component.len() == 0 || (rules !is Verbatim && component.len() == 1 && component[0] == '.')
}

/// The components `.` and `..`.
pub open spec fn is_dots(component: Seq<char>) -> bool {
    component == seq!['.'] || component == seq!['.', '.']
}

/// A path without void components at its start.
pub open spec fn trim_start(rules: Rules, path: Seq<char>) -> Seq<char>
    decreases path.len(),
{
    let end = first_end(rules, path);
    if end < path.len() && is_void(rules, path.take(end as int)) {
        trim_start(rules, path.skip(end as int + 1))
    } else if is_void(rules, path) {
        Seq::empty()
    } else {
        path
    }
}

/// A path without void components at its end.
pub open spec fn trim_end(rules: Rules, path: Seq<char>) -> Seq<char>
    decreases path.len(),
{
    let start = last_start(rules, path);
    if 0 < start <= path.len() && is_void(rules, path.skip(start as int)) {
        trim_end(rules, path.take(start - 1))
    } else if is_void(rules, path) {
        Seq::empty()
    } else {
        path
    }
}

/// What follows the prefix of a verbatim path, without separators that stand before
/// another one or at the end.
pub open spec fn squeezed(body: Seq<char>) -> Seq<char>
    decreases body.len(),
{
    if body.len() == 0 {
        body
    } else if body[0] == '\\' && (body.len() == 1 || body[1] == '\\') {
        squeezed(body.drop_first())
    } else {
        seq![body[0]] + squeezed(body.drop_first())
    }
}

/// What follows the prefix of a verbatim path, with one separator before each component,
/// or one alone.
pub open spec fn plain_body(body: Seq<char>) -> Seq<char> {
    if body.len() == 0 {
        body
    } else if squeezed(body).len() > 0 && squeezed(body)[0] == '\\' {
        squeezed(body)
    } else {
        seq!['\\'] + squeezed(body)
    }
}

/// What follows the prefix of a verbatim path, with a separator at the end.
pub open spec fn entered(body: Seq<char>) -> Seq<char> {
    if body.len() > 0 && body.last() == '\\' {
        body
    } else {
        body.push('\\')
    }
}

/// What follows the prefix of a verbatim path, without its last component. One that
/// ends with `.` or `..`, or has no component, stays as it is.
pub open spec fn without_last(body: Seq<char>) -> Seq<char> {
    let start = last_start(Rules::Verbatim, body);
    let name = body.skip(start as int);
    if name.len() == 0 || is_dots(name) {
        body
    } else if start <= 1 {
        body.take(start as int)
    } else {
        body.take(start - 1)
    }
}

/// A path put behind what follows the prefix of a verbatim one, component by component.
/// There `.` and `..` would be names like any other, so they are resolved.
pub open spec fn extended(body: Seq<char>, path: Seq<char>) -> Seq<char>
    decreases path.len(),
{
    let end = first_end(Rules::Windows, path);
    let component = path.take(end as int);
    let next = if is_void(Rules::Windows, component) {
        body
    } else if is_dots(component) {
        without_last(body)
    } else {
        entered(body) + component
    };
    if end < path.len() {
        extended(next, path.skip(end as int + 1))
    } else {
        next
    }
}

/// A path put below a verbatim one.
pub open spec fn verbatim_pushed(base: Seq<char>, path: Seq<char>) -> Seq<char> {
    let from = prefix_len(PathStyle::Windows, base);
    base.take(from) + extended(
        if is_rooted(PathStyle::Windows, path) {
            seq!['\\']
        } else {
            plain_body(base.skip(from))
        },
        path,
    )
}

/// A path as it stands before what is put below it.
pub open spec fn as_directory(style: PathStyle, base: Seq<char>) -> Seq<char> {
    if is_verbatim(style, base) {
        let from = prefix_len(style, base);
        base.take(from) + entered(plain_body(base.skip(from)))
    } else {
        with_separator(style, base)
    }
}

/// A path put below another. A path with a prefix replaces the other, and one that
/// starts with a separator replaces all but its prefix.
pub open spec fn pushed(style: PathStyle, base: Seq<char>, path: Seq<char>) -> Seq<char> {
    if prefix_len(style, path) > 0 {
        path
    } else if is_verbatim(style, base) && path.len() > 0 {
        verbatim_pushed(base, path)
    } else if is_rooted(style, path) {
        base.take(prefix_len(style, base)) + path
    } else {
        with_separator(style, base) + path
    }
}

/// What follows a `~` that is the first component of a path.
pub open spec fn below_tilde(style: PathStyle, path: Seq<char>) -> Option<Seq<char>> {
    let rules = rules_of(style, path);
    if path.len() >= 1 && path[0] == '~' && (path.len() == 1 || is_separator(rules, path[1])) {
        Some(trim_end(rules, trim_start(rules, path.skip(1))))
    } else {
        None
    }
}

/// A path with a `~` that is its first component replaced by the home directory.
pub open spec fn tilde_expanded(style: PathStyle, path: Seq<char>, home: Seq<char>) -> Seq<char> {
    match below_tilde(style, path) {
        None => path,
        Some(rest) => if rest.len() == 0 {
            home
        } else {
            pushed(style, home, rest)
        },
    }
}

/// The last component of a path, where it names something: neither `.` nor `..`.
pub open spec fn last_name(style: PathStyle, path: Seq<char>) -> Option<Seq<char>> {
    let rules = rules_of(style, path);
    let body = trim_end(rules, path.skip(prefix_len(style, path)));
    let name = body.skip(last_start(rules, body) as int);
    if name.len() == 0 || is_dots(name) {
        None
    } else {
        Some(name)
    }
}

/// Where the last dot of a name stands, or 0.
pub open spec fn last_dot(name: Seq<char>) -> nat
    decreases name.len(),
{
    if name.len() == 0 {
        0
    } else if name.last() == '.' {
        (name.len() - 1) as nat
    } else {
        last_dot(name.drop_last())
    }
}

/// A file name without its extension. A dot at the start begins no extension.
pub open spec fn stem(name: Seq<char>) -> Seq<char> {
    if last_dot(name) > 0 {
        name.take(last_dot(name) as int)
    } else {
        name
    }
}

/// The extension of the last component of a path: what follows its last dot, where that
/// dot is not its first character.
pub open spec fn extension_of(style: PathStyle, path: Seq<char>) -> Option<Seq<char>> {
    match last_name(style, path) {
        Some(name) => if last_dot(name) > 0 {
            Some(name.skip(last_dot(name) as int + 1))
        } else {
            None
        },
        None => None,
    }
}

/// Whether a path says by itself where it is: on Unix it starts with a separator, and
/// on Windows it has a prefix other than a drive alone.
pub open spec fn is_absolute(style: PathStyle, path: Seq<char>) -> bool {
    match style {
        PathStyle::Unix => is_rooted(style, path),
        PathStyle::Windows => prefix_len(style, path) > 0 && (has_drive(style, path)
            ==> path.len() > 2 && is_separator(Rules::Windows, path[2])),
    }
}

/// Whether a character separates the components of a path.
fn separates(rules: Rules, c: char) -> (r: bool)
    ensures
        r == is_separator(rules, c),
{
    match rules {
        Rules::Unix => c == '/',
        Rules::Windows => c == '/' || c == '\\',
        Rules::Verbatim => c == '\\',
    }
}

/// Whether a text has a letter and a colon at some place.
fn drive_at(s: &Vec<char>, at: usize) -> (r: bool)
    requires
        at <= s.len(),
    ensures
        r == starts_with_drive(s@.skip(at as int)),
{
    s.len() - at >= 2 && (('a' <= s[at] && s[at] <= 'z') || ('A' <= s[at] && s[at] <= 'Z')) && s[at
        + 1] == ':'
}

/// Tells whether a path is verbatim.
fn starts_verbatim(style: PathStyle, s: &Vec<char>) -> (r: bool)
    ensures
        r == is_verbatim(style, s@),
{
    match style {
        PathStyle::Unix => false,
        PathStyle::Windows => s.len() >= 4 && s[0] == '\\' && s[1] == '\\' && s[2] == '?' && s[3]
            == '\\',
    }
}

/// Finds the rules for a path.
fn find_rules(style: PathStyle, s: &Vec<char>) -> (r: Rules)
    ensures
        r == rules_of(style, s@),
{
    match style {
        PathStyle::Unix => Rules::Unix,
        PathStyle::Windows => if starts_verbatim(style, s) {
            Rules::Verbatim
        } else {
            Rules::Windows
        },
    }
}

/// Finds the length of the prefix of a path.
fn find_prefix_len(style: PathStyle, s: &Vec<char>) -> (r: usize)
    ensures
        r == prefix_len(style, s@),
        r <= s@.len(),
        is_verbatim(style, s@) ==> r >= 4,
{
    assert(s@.skip(0) =~= s@);
    match style {
        PathStyle::Unix => {
            return 0;
        },
        PathStyle::Windows => {},
    }
    if starts_verbatim(style, s) {
        if s.len() >= 8 && s[4] == 'U' && s[5] == 'N' && s[6] == 'C' && s[7] == '\\' {
            let server: usize = find_first_end(Rules::Verbatim, s, 8);
            if server < s.len() && server + 1 < s.len() && s[server + 1] != '\\' {
                return find_first_end(Rules::Verbatim, s, server + 1);
            }
            return server;
        }
        if drive_at(s, 4) && (s.len() == 6 || separates(Rules::Windows, s[6])) {
            return 6;
        }
        return find_first_end(Rules::Verbatim, s, 4);
    }
    if s.len() >= 2 && separates(Rules::Windows, s[0]) && separates(Rules::Windows, s[1]) {
        if s.len() >= 4 && s[2] == '.' && separates(Rules::Windows, s[3]) {
            return find_first_end(Rules::Windows, s, 4);
        }
        let server: usize = find_first_end(Rules::Windows, s, 2);
        if 2 < server && server < s.len() && server + 1 < s.len() && !separates(
            Rules::Windows,
            s[server + 1],
        ) {
            return find_first_end(Rules::Windows, s, server + 1);
        }
        return 0;
    }
    if drive_at(s, 0) {
        2
    } else {
        0
    }
}

/// Makes a path end with a separator, but for an empty one and a drive alone.
fn add_separator(style: PathStyle, base: &str) -> (r: String)
    ensures
        r@ == with_separator(style, base@),
{
    let b = chars_of(base);
    assert(b@.skip(0) =~= b@);
    match style {
        PathStyle::Unix => {
            if b.len() == 0 || separates(Rules::Unix, b[b.len() - 1]) {
                return base.to_owned();
            }
            proof {
                reveal_strlit("/");
                assert(base@ + "/"@ =~= base@.push('/'));
            }
            join2(base, "/")
        },
        PathStyle::Windows => {
            if b.len() == 0 || separates(Rules::Windows, b[b.len() - 1]) || (b.len() == 2
                && drive_at(&b, 0)) {
                return base.to_owned();
            }
            proof {
                reveal_strlit("\\");
                assert(base@ + "\\"@ =~= base@.push('\\'));
            }
            join2(base, "\\")
        },
    }
}

/// Whether part of a path is `.` or `..`.
fn dots(path: &Vec<char>, from: usize, to: usize) -> (r: bool)
    requires
        from <= to <= path.len(),
    ensures
        r == is_dots(path@.subrange(from as int, to as int)),
{
    let ghost part = path@.subrange(from as int, to as int);
    if to - from == 1 && path[from] == '.' {
        assert(part =~= seq!['.']);
        true
    } else if to - from == 2 && path[from] == '.' && path[from + 1] == '.' {
        assert(part =~= seq!['.', '.']);
        true
    } else {
        proof {
            let one = seq!['.'];
            let two = seq!['.', '.'];
            assert(one.len() == 1 && one[0] == '.');
            assert(two.len() == 2 && two[0] == '.' && two[1] == '.');
        }
        false
    }
}

/// Leaves separators out that stand before another one or at the end.
fn squeeze(body: &str) -> (r: String)
    ensures
        r@ == squeezed(body@),
{
    let b = chars_of(body);
    let mut kept = String::new();
    assert(b@.skip(0) =~= b@);
    for i in 0..b.len()
        invariant
            b@ == body@,
            kept@ + squeezed(b@.skip(i as int)) == squeezed(b@),
    {
        let ghost rest = b@.skip(i as int);
        assert(rest.drop_first() =~= b@.skip(i + 1));
        if b[i] == '\\' && (b.len() - i == 1 || b[i + 1] == '\\') {
            assert(squeezed(rest) == squeezed(rest.drop_first()));
        } else {
            let one = body.substring_char(i, i + 1);
            assert(one@ =~= seq![rest[0]]);
            assert(kept@ + (one@ + squeezed(rest.drop_first())) =~= kept@ + one@ + squeezed(
                rest.drop_first(),
            ));
            kept = kept.concat(one);
        }
    }
    assert(b@.skip(b.len() as int) =~= Seq::empty());
    assert(kept@ + Seq::<char>::empty() =~= kept@);
    kept
}

/// Puts one separator before each component of what follows the prefix of a verbatim
/// path.
fn to_plain_body(body: &str) -> (r: String)
    ensures
        r@ == plain_body(body@),
{
    if chars_of(body).len() == 0 {
        return body.to_owned();
    }
    let kept = squeeze(body);
    let k = chars_of(kept.as_str());
    if k.len() > 0 && k[0] == '\\' {
        kept
    } else {
        proof {
            reveal_strlit("\\");
            assert("\\"@ =~= seq!['\\']);
        }
        join2("\\", kept.as_str())
    }
}

/// Puts a component behind what follows the prefix of a verbatim path.
fn enter(body: &str, component: &str) -> (r: String)
    ensures
        r@ == entered(body@) + component@,
{
    let b = chars_of(body);
    if b.len() > 0 && b[b.len() - 1] == '\\' {
        join2(body, component)
    } else {
        proof {
            reveal_strlit("\\");
            assert(body@ + "\\"@ =~= body@.push('\\'));
        }
        join3(body, "\\", component)
    }
}

/// Takes the last component from what follows the prefix of a verbatim path.
fn drop_last_component(body: &str) -> (r: String)
    ensures
        r@ == without_last(body@),
{
    let b = chars_of(body);
    let start: usize = find_last_start(Rules::Verbatim, &b, 0, b.len());
    assert(b@.subrange(0, b.len() as int) =~= b@);
    assert(b@.skip(start as int) =~= b@.subrange(start as int, b.len() as int));
    if start == b.len() || dots(&b, start, b.len()) {
        body.to_owned()
    } else if start <= 1 {
        assert(body@.subrange(0, start as int) =~= body@.take(start as int));
        body.substring_char(0, start).to_owned()
    } else {
        assert(body@.subrange(0, start - 1) =~= body@.take(start - 1));
        body.substring_char(0, start - 1).to_owned()
    }
}

/// Puts a path behind what follows the prefix of a verbatim one.
fn extend(body: String, path: &str) -> (r: String)
    ensures
        r@ == extended(body@, path@),
{
    let p = chars_of(path);
    let mut whole = body;
    let mut i: usize = 0;
    assert(p@.skip(0) =~= p@);
    loop
        invariant
            p@ == path@,
            i <= p.len(),
            extended(body@, path@) == extended(whole@, p@.skip(i as int)),
        decreases p.len() - i,
    {
        let end: usize = find_first_end(Rules::Windows, &p, i);
        let ghost rest = p@.skip(i as int);
        assert(rest.take(end - i) =~= p@.subrange(i as int, end as int));
        if void(Rules::Windows, &p, i, end) {
        } else if dots(&p, i, end) {
            whole = drop_last_component(whole.as_str());
        } else {
            whole = enter(whole.as_str(), path.substring_char(i, end));
        }
        if end >= p.len() {
            return whole;
        }
        assert(rest.skip(end - i + 1) =~= p@.skip(end + 1));
        i = end + 1;
    }
}

/// Puts a path below another.
pub fn push(style: PathStyle, base: &str, path: &str) -> (r: String)
    ensures
        r@ == pushed(style, base@, path@),
{
    let b = chars_of(base);
    let p = chars_of(path);
    if find_prefix_len(style, &p) > 0 {
        return path.to_owned();
    }
    let from: usize = find_prefix_len(style, &b);
    let prefix = base.substring_char(0, from);
    assert(prefix@ =~= base@.take(from as int));
    let rooted = p.len() >= 1 && separates(find_rules(style, &p), p[0]);
    if starts_verbatim(style, &b) && p.len() > 0 {
        let body = if rooted {
            proof {
                reveal_strlit("\\");
                assert("\\"@ =~= seq!['\\']);
            }
            "\\".to_owned()
        } else {
            assert(base@.subrange(from as int, b.len() as int) =~= base@.skip(from as int));
            to_plain_body(base.substring_char(from, b.len()))
        };
        join2(prefix, extend(body, path).as_str())
    } else if rooted {
        join2(prefix, path)
    } else {
        add_separator(style, base).concat(path)
    }
}

/// Whether part of a path is a void component.
fn void(rules: Rules, path: &Vec<char>, from: usize, to: usize) -> (r: bool)
    requires
        from <= to <= path.len(),
    ensures
        r == is_void(rules, path@.subrange(from as int, to as int)),
{
    match rules {
        Rules::Verbatim => from == to,
        _ => from == to || (to - from == 1 && path[from] == '.'),
    }
}

/// Finds the end of the first component of part of a path.
fn find_first_end(rules: Rules, path: &Vec<char>, from: usize) -> (r: usize)
    requires
        from <= path.len(),
    ensures
        from <= r <= path.len(),
        r - from == first_end(rules, path@.skip(from as int)),
{
    let mut i: usize = from;
    while i < path.len() && !separates(rules, path[i])
        invariant
            from <= i <= path.len(),
            first_end(rules, path@.skip(from as int)) == i - from + first_end(
                rules,
                path@.skip(i as int),
            ),
        decreases path.len() - i,
    {
        assert(path@.skip(i as int).drop_first() =~= path@.skip(i + 1));
        i = i + 1;
    }
    i
}

/// Finds the start of the last component of part of a path.
fn find_last_start(rules: Rules, path: &Vec<char>, from: usize, to: usize) -> (r: usize)
    requires
        from <= to <= path.len(),
    ensures
        from <= r <= to,
        r - from == last_start(rules, path@.subrange(from as int, to as int)),
{
    let mut i: usize = to;
    while i > from && !separates(rules, path[i - 1])
        invariant
            from <= i <= to <= path.len(),
            last_start(rules, path@.subrange(from as int, to as int)) == last_start(
                rules,
                path@.subrange(from as int, i as int),
            ),
        decreases i,
    {
        assert(path@.subrange(from as int, i as int).drop_last() =~= path@.subrange(
            from as int,
            i - 1,
        ));
        i = i - 1;
    }
    i
}

/// Finds where a part of a path starts once void components are left out.
fn find_trimmed_start(rules: Rules, path: &Vec<char>, from: usize) -> (r: usize)
    requires
        from <= path.len(),
    ensures
        from <= r <= path.len(),
        trim_start(rules, path@.skip(from as int)) == path@.skip(r as int),
{
    let mut i: usize = from;
    loop
        invariant
            from <= i <= path.len(),
            trim_start(rules, path@.skip(from as int)) == trim_start(rules, path@.skip(i as int)),
        decreases path.len() - i,
    {
        let end: usize = find_first_end(rules, path, i);
        let ghost rest = path@.skip(i as int);
        assert(rest.take(end - i) =~= path@.subrange(i as int, end as int));
        assert(rest =~= path@.subrange(i as int, path.len() as int));
        if end < path.len() && void(rules, path, i, end) {
            assert(rest.skip(end - i + 1) =~= path@.skip(end + 1));
            i = end + 1;
        } else if void(rules, path, i, path.len()) {
            assert(path@.skip(path.len() as int) =~= Seq::empty());
            return path.len();
        } else {
            return i;
        }
    }
}

/// Finds where a part of a path ends once void components are left out.
fn find_trimmed_end(rules: Rules, path: &Vec<char>, from: usize) -> (r: usize)
    requires
        from <= path.len(),
    ensures
        from <= r <= path.len(),
        trim_end(rules, path@.skip(from as int)) == path@.subrange(from as int, r as int),
{
    let mut i: usize = path.len();
    assert(path@.skip(from as int) =~= path@.subrange(from as int, i as int));
    loop
        invariant
            from <= i <= path.len(),
            trim_end(rules, path@.skip(from as int)) == trim_end(
                rules,
                path@.subrange(from as int, i as int),
            ),
        decreases i,
    {
        let start: usize = find_last_start(rules, path, from, i);
        let ghost part = path@.subrange(from as int, i as int);
        assert(part.skip(start - from) =~= path@.subrange(start as int, i as int));
        if start > from && void(rules, path, start, i) {
            assert(part.take(start - from - 1) =~= path@.subrange(from as int, start - 1));
            i = start - 1;
        } else if void(rules, path, from, i) {
            assert(path@.subrange(from as int, from as int) =~= Seq::empty());
            return from;
        } else {
            return i;
        }
    }
}

/// Replaces a `~` that is the first component of a path by the home directory.
pub fn expand_tilde(style: PathStyle, path: &str, home: &str) -> (r: String)
    ensures
        r@ == tilde_expanded(style, path@, home@),
{
    let p = chars_of(path);
    let rules = find_rules(style, &p);
    if p.len() >= 1 && p[0] == '~' && (p.len() == 1 || separates(rules, p[1])) {
        let from: usize = find_trimmed_start(rules, &p, 1);
        let to: usize = find_trimmed_end(rules, &p, from);
        if from == to {
            home.to_owned()
        } else {
            push(style, home, path.substring_char(from, to))
        }
    } else {
        path.to_owned()
    }
}

/// A path without void components at its start does not start with a separator.
proof fn lemma_trimmed_not_rooted(rules: Rules, path: Seq<char>)
    ensures
        trim_start(rules, path).len() > 0 ==> !is_separator(rules, trim_start(rules, path)[0]),
    decreases path.len(),
{
    let end = first_end(rules, path);
    if end < path.len() && is_void(rules, path.take(end as int)) {
        lemma_trimmed_not_rooted(rules, path.skip(end as int + 1));
    } else if path.len() > 0 && is_separator(rules, path[0]) {
        assert(path.take(0).len() == 0);
    }
}

/// Void components at the end of a path are not where it starts.
proof fn lemma_trim_end_keeps_start(rules: Rules, path: Seq<char>)
    ensures
        trim_end(rules, path).len() <= path.len(),
        trim_end(rules, path).len() > 0 ==> trim_end(rules, path)[0] == path[0],
    decreases path.len(),
{
    let start = last_start(rules, path);
    if 0 < start <= path.len() && is_void(rules, path.skip(start as int)) {
        lemma_trim_end_keeps_start(rules, path.take(start - 1));
    }
}

/// The last component of a path, where it names something.
pub fn file_name(style: PathStyle, path: &str) -> (r: Option<String>)
    ensures
        opt_view(r) == last_name(style, path@),
{
    let p = chars_of(path);
    let rules = find_rules(style, &p);
    let from: usize = find_prefix_len(style, &p);
    let to: usize = find_trimmed_end(rules, &p, from);
    let start: usize = find_last_start(rules, &p, from, to);
    let ghost body = p@.subrange(from as int, to as int);
    assert(body.skip(start - from) =~= p@.subrange(start as int, to as int));
    if start == to || dots(&p, start, to) {
        None
    } else {
        Some(path.substring_char(start, to).to_owned())
    }
}

/// Finds the last dot of a name, or 0.
fn find_last_dot(name: &Vec<char>) -> (r: usize)
    ensures
        r == last_dot(name@),
        r <= name@.len(),
        r > 0 ==> r < name@.len(),
{
    let mut i: usize = name.len();
    assert(name@.take(name.len() as int) =~= name@);
    while i > 0
        invariant
            0 <= i <= name.len(),
            last_dot(name@) == last_dot(name@.take(i as int)),
        decreases i,
    {
        if name[i - 1] == '.' {
            assert(name@.take(i as int).last() == '.');
            return i - 1;
        }
        assert(name@.take(i as int).drop_last() =~= name@.take(i - 1));
        i = i - 1;
    }
    0
}

/// The extension of the last component of a path.
pub fn extension(style: PathStyle, path: &str) -> (r: Option<String>)
    ensures
        opt_view(r) == extension_of(style, path@),
{
    match file_name(style, path) {
        Some(name) => {
            let n = chars_of(name.as_str());
            let dot: usize = find_last_dot(&n);
            if dot > 0 {
                assert(n@.subrange(dot + 1, n.len() as int) =~= n@.skip(dot + 1));
                Some(name.as_str().substring_char(dot + 1, n.len()).to_owned())
            } else {
                None
            }
        },
        None => None,
    }
}

/// A file name with its extension replaced.
pub fn with_extension(name: &str, extension: &str) -> (r: String)
    ensures
        r@ == stem(name@) + "."@ + extension@,
{
    let n = chars_of(name);
    let dot: usize = find_last_dot(&n);
    if dot > 0 {
        assert(name@.subrange(0, dot as int) =~= name@.take(dot as int));
        join3(name.substring_char(0, dot), ".", extension)
    } else {
        join3(name, ".", extension)
    }
}

/// Whether a text can name a file: it is one component, and neither `.` nor `..`.
pub open spec fn is_name(rules: Rules, name: Seq<char>) -> bool {
    &&& name.len() > 0
    &&& !is_dots(name)
    &&& forall|k: int| 0 <= k < name.len() ==> !is_separator(rules, #[trigger] name[k])
}

/// No separator stands in the last component of a path, and one stands before it.
proof fn lemma_last_component(rules: Rules, path: Seq<char>)
    ensures
        last_start(rules, path) <= path.len(),
        forall|k: int|
            last_start(rules, path) <= k < path.len() ==> !is_separator(rules, #[trigger] path[k]),
        last_start(rules, path) > 0 ==> is_separator(rules, path[last_start(rules, path) - 1]),
    decreases path.len(),
{
    if path.len() > 0 && !is_separator(rules, path.last()) {
        let front = path.drop_last();
        lemma_last_component(rules, front);
        assert forall|k: int| last_start(rules, path) <= k < path.len() implies !is_separator(
            rules,
            #[trigger] path[k],
        ) by {
            if k < front.len() {
                assert(front[k] == path[k]);
            }
        }
    }
}

/// A name after a separator is the last component.
proof fn lemma_last_start_of_name(rules: Rules, front: Seq<char>, name: Seq<char>)
    requires
        front.len() == 0 || is_separator(rules, front.last()),
        forall|k: int| 0 <= k < name.len() ==> !is_separator(rules, #[trigger] name[k]),
    ensures
        last_start(rules, front + name) == front.len(),
    decreases name.len(),
{
    if name.len() == 0 {
        assert(front + name =~= front);
    } else {
        lemma_last_start_of_name(rules, front, name.drop_last());
        assert((front + name).drop_last() =~= front + name.drop_last());
        assert((front + name).last() == name.last());
    }
}

/// A text without a separator is one component.
proof fn lemma_one_component(rules: Rules, name: Seq<char>)
    requires
        forall|k: int| 0 <= k < name.len() ==> !is_separator(rules, #[trigger] name[k]),
    ensures
        first_end(rules, name) == name.len(),
    decreases name.len(),
{
    if name.len() > 0 {
        assert(!is_separator(rules, name[0]));
        assert forall|k: int| 0 <= k < name.drop_first().len() implies !is_separator(
            rules,
            #[trigger] name.drop_first()[k],
        ) by {
            assert(name.drop_first()[k] == name[k + 1]);
        }
        lemma_one_component(rules, name.drop_first());
    }
}

/// What `file_name` returns can name a file.
pub proof fn law_file_name_is_a_name(style: PathStyle, path: Seq<char>)
    ensures
        last_name(style, path) matches Some(name) ==> is_name(rules_of(style, path), name),
{
    let rules = rules_of(style, path);
    let body = trim_end(rules, path.skip(prefix_len(style, path)));
    lemma_last_component(rules, body);
    let start = last_start(rules, body) as int;
    let name = body.skip(start);
    assert forall|k: int| 0 <= k < name.len() implies !is_separator(rules, #[trigger] name[k]) by {
        assert(name[k] == body[start + k]);
    }
}

/// A file that is put in a directory stays in that directory, under its name. The name
/// is found again unless the directory is an unfinished prefix, such as that of a share
/// without the share, which the name completes.
pub proof fn law_file_stays_in_directory(style: PathStyle, directory: Seq<char>, name: Seq<char>)
    requires
        is_name(rules_of(style, Seq::empty()), name),
        !has_drive(style, name),
    ensures
        pushed(style, directory, name) == as_directory(style, directory) + name,
        prefix_len(style, pushed(style, directory, name)) <= as_directory(style, directory).len()
            ==> last_name(style, pushed(style, directory, name)) == Some(name),
{
    let plain = rules_of(style, Seq::empty());
    let front = as_directory(style, directory);
    let whole = front + name;
    assert(!is_separator(plain, name[0]));
    assert(prefix_len(style, name) == 0);
    lemma_one_component(plain, name);
    assert(name.take(name.len() as int) =~= name);
    if name.len() == 1 {
        assert(name =~= seq![name[0]]);
    }
    assert(pushed(style, directory, name) == whole);
    let from = prefix_len(style, whole);
    if from <= front.len() {
        lemma_prefix_len(style, whole);
        let rules = rules_of(style, whole);
        let rest = front.skip(from);
        let body = whole.skip(from);
        assert(body =~= rest + name);
        assert forall|k: int| 0 <= k < name.len() implies !is_separator(
            rules,
            #[trigger] name[k],
        ) by {}
        assert forall|k: int| 0 <= k < front.len() implies whole[k] == #[trigger] front[k] by {}
        assert forall|k: int| 0 <= k < name.len() implies whole[front.len() + k]
            == #[trigger] name[k] by {}
        if rest.len() > 0 {
            assert(rest.last() == front.last());
            if front.len() == 2 && has_drive(style, front) {
                assert(has_drive(style, whole));
            } else if is_verbatim(style, whole) {
                if front.len() < 4 {
                    assert(whole[3] == name[3 - front.len()]);
                }
            }
            assert(is_separator(rules, front.last()));
        }
        lemma_last_start_of_name(rules, rest, name);
        assert(body.skip(rest.len() as int) =~= name);
        if rest.len() == 0 {
            assert(body =~= name);
        }
        assert(trim_end(rules, body) == body);
    }
}

/// A prefix is a part of its path, and that of a verbatim path holds its first four
/// characters.
proof fn lemma_prefix_len(style: PathStyle, path: Seq<char>)
    ensures
        0 <= prefix_len(style, path) <= path.len(),
        is_verbatim(style, path) ==> prefix_len(style, path) >= 4,
{
    lemma_component_end(Rules::Windows, path);
    lemma_component_end(Rules::Verbatim, path);
}

/// A component ends in its path.
proof fn lemma_component_end(rules: Rules, path: Seq<char>)
    ensures
        forall|from: int|
            0 <= from <= path.len() ==> from <= #[trigger] component_end(rules, path, from)
                <= path.len(),
{
    assert forall|from: int| 0 <= from <= path.len() implies from <= #[trigger] component_end(
        rules,
        path,
        from,
    ) <= path.len() by {
        lemma_first_end(rules, path.skip(from));
    }
}

/// The first component of a path is not longer than the path.
proof fn lemma_first_end(rules: Rules, path: Seq<char>)
    ensures
        first_end(rules, path) <= path.len(),
    decreases path.len(),
{
    if path.len() > 0 && !is_separator(rules, path[0]) {
        lemma_first_end(rules, path.drop_first());
    }
}

/// What follows a `~` does not start with a separator.
proof fn lemma_below_tilde_not_rooted(style: PathStyle, path: Seq<char>)
    requires
        below_tilde(style, path) is Some,
    ensures
        !is_rooted(style, below_tilde(style, path)->0),
        !is_share(style, below_tilde(style, path)->0),
{
    let rules = rules_of(style, path);
    lemma_trimmed_not_rooted(rules, path.skip(1));
    lemma_trim_end_keeps_start(rules, trim_start(rules, path.skip(1)));
}

/// `~` is the home directory, and a path below `~` lies below it: what follows the `~` is
/// put behind the home directory. On Windows one with a drive replaces it, and below a
/// verbatim home directory `.` and `..` are resolved.
pub proof fn law_tilde_is_home(style: PathStyle, path: Seq<char>, home: Seq<char>)
    requires
        below_tilde(style, path) is Some,
    ensures
        ({
            let rest = below_tilde(style, path)->0;
            let expanded = tilde_expanded(style, path, home);
            if rest.len() == 0 {
                expanded == home
            } else if has_drive(style, rest) {
                expanded == rest
            } else if is_verbatim(style, home) {
                expanded == verbatim_pushed(home, rest)
            } else {
                expanded == as_directory(style, home) + rest
            }
        }),
{
    lemma_below_tilde_not_rooted(style, path);
}

/// Expanding a path twice is the same as expanding it once, where the home directory is
/// absolute.
pub proof fn law_tilde_expanded_once(style: PathStyle, path: Seq<char>, home: Seq<char>)
    requires
        is_absolute(style, home),
    ensures
        tilde_expanded(style, tilde_expanded(style, path, home), home) == tilde_expanded(
            style,
            path,
            home,
        ),
{
    assert(home.len() > 0 && home[0] != '~');
    match below_tilde(style, path) {
        Some(rest) => {
            law_tilde_is_home(style, path, home);
            let expanded = tilde_expanded(style, path, home);
            lemma_prefix_len(style, home);
            assert(expanded[0] != '~');
        },
        None => {},
    }
}

/// A path whose first component is not `~` is left as it is, even where it starts
/// with that character.
pub proof fn law_other_paths_unchanged(style: PathStyle, path: Seq<char>, home: Seq<char>)
    requires
        path.len() == 0 || path[0] != '~' || (path.len() > 1 && !is_separator(rules_of(style, path), path[1])),
    ensures
        tilde_expanded(style, path, home) == path,
{
}

/// A text without a separator is its own last component.
proof fn lemma_last_start_alone(rules: Rules, name: Seq<char>)
    requires
        forall|k: int| 0 <= k < name.len() ==> !is_separator(rules, #[trigger] name[k]),
    ensures
        last_start(rules, name) == 0,
{
    lemma_last_start_of_name(rules, Seq::empty(), name);
    assert(Seq::<char>::empty() + name =~= name);
}

/// The last dot of a name stands before what follows it.
proof fn lemma_last_dot(base: Seq<char>, extension: Seq<char>)
    requires
        forall|k: int| 0 <= k < extension.len() ==> #[trigger] extension[k] != '.',
    ensures
        last_dot(base + seq!['.'] + extension) == base.len(),
    decreases extension.len(),
{
    let name = base + seq!['.'] + extension;
    if extension.len() == 0 {
        assert(name.last() == '.');
    } else {
        lemma_last_dot(base, extension.drop_last());
        assert(name.drop_last() =~= base + seq!['.'] + extension.drop_last());
        assert(name.last() == extension.last());
    }
}

/// A text without a dot has no last one.
proof fn lemma_no_dot(name: Seq<char>)
    requires
        forall|k: int| 0 <= k < name.len() ==> #[trigger] name[k] != '.',
    ensures
        last_dot(name) == 0,
    decreases name.len(),
{
    if name.len() > 0 {
        assert(name[name.len() - 1] != '.');
        assert forall|k: int| 0 <= k < name.drop_last().len() implies #[trigger] name.drop_last()[k]
            != '.' by {
            assert(name[k] != '.');
        }
        lemma_no_dot(name.drop_last());
    }
}

/// A name that stands alone is its own last component.
proof fn lemma_name_alone(style: PathStyle, name: Seq<char>)
    requires
        name.len() > 0,
        name[0] != '.',
        name.len() > 1 ==> name[1] != ':',
        forall|k: int| 0 <= k < name.len() ==> (#[trigger] name[k]) != '/' && name[k] != '\\',
    ensures
        last_name(style, name) == Some(name),
{
    let rules = rules_of(style, name);
    assert(name[0] != '/' && name[0] != '\\');
    assert(prefix_len(style, name) == 0);
    assert(name.skip(0) =~= name);
    assert forall|k: int| 0 <= k < name.len() implies !is_separator(rules, #[trigger] name[k]) by {}
    lemma_last_start_alone(rules, name);
    assert(trim_end(rules, name) == name);
    let one = seq!['.'];
    let two = seq!['.', '.'];
    assert(one[0] == '.' && two[0] == '.');
}

/// The extension of a name is what follows its dot.
pub proof fn lemma_extension(style: PathStyle, base: Seq<char>, extension: Option<Seq<char>>)
    requires
        base.len() > 0,
        forall|k: int|
            0 <= k < base.len() ==> (#[trigger] base[k]) != '/' && base[k] != '\\' && base[k] != ':'
                && base[k] != '.',
        extension matches Some(ext) ==> forall|k: int|
            0 <= k < ext.len() ==> (#[trigger] ext[k]) != '/' && ext[k] != '\\' && ext[k] != '.',
    ensures
        extension matches Some(ext) ==> extension_of(style, base + seq!['.'] + ext) == Some(ext),
        extension is None ==> extension_of(style, base) is None,
{
    match extension {
        Some(ext) => {
            let name = base + seq!['.'] + ext;
            assert forall|k: int| 0 <= k < name.len() implies (#[trigger] name[k]) != '/' && name[k]
                != '\\' by {
                if k < base.len() {
                    assert(name[k] == base[k]);
                } else if k > base.len() {
                    assert(name[k] == ext[k - base.len() - 1]);
                }
            }
            assert(name[0] == base[0]);
            if base.len() > 1 {
                assert(name[1] == base[1]);
            }
            lemma_name_alone(style, name);
            lemma_last_dot(base, ext);
            assert(name.skip(base.len() as int + 1) =~= ext);
        },
        None => {
            assert(base[0] != '.');
            lemma_name_alone(style, base);
            lemma_no_dot(base);
        },
    }
}

/// A name with an extension keeps what stands before its last dot when another extension
/// takes its place; a name without one keeps all.
pub proof fn law_extension_replaced(base: Seq<char>, extension: Seq<char>)
    requires
        base.len() > 0,
        forall|k: int| 0 <= k < extension.len() ==> #[trigger] extension[k] != '.',
    ensures
        stem(base + seq!['.'] + extension) == base,
        (forall|k: int| 0 <= k < base.len() ==> #[trigger] base[k] != '.') ==> stem(base) == base,
{
    lemma_last_dot(base, extension);
    assert((base + seq!['.'] + extension).take(base.len() as int) =~= base);
    if forall|k: int| 0 <= k < base.len() ==> #[trigger] base[k] != '.' {
        lemma_no_dot(base);
    }
}

/// On Unix a path is put below another behind one separator, unless the other is empty or
/// already ends with one; a path that starts with a separator replaces the other.
pub proof fn law_unix_paths_joined(base: Seq<char>, path: Seq<char>)
    ensures
        path.len() > 0 && path[0] == '/' ==> pushed(PathStyle::Unix, base, path) == path,
        base.len() == 0 ==> pushed(PathStyle::Unix, base, path) == path,
        base.len() > 0 && !(path.len() > 0 && path[0] == '/') ==> pushed(
            PathStyle::Unix,
            base,
            path,
        ) == (if base.last() == '/' {
            base + path
        } else {
            base + seq!['/'] + path
        }),
{
    assert(base.take(0) + path =~= path);
    assert(base.push('/') + path =~= base + seq!['/'] + path);
    assert(base.len() == 0 ==> base + path =~= path);
}

/// On Windows a path without a drive that does not start with a separator is put below
/// one without a verbatim prefix behind a backslash, unless the other is empty, a drive
/// alone, or already ends with a separator.
pub proof fn law_windows_paths_joined(base: Seq<char>, path: Seq<char>)
    requires
        path.len() > 0,
        path[0] != '/' && path[0] != '\\',
        path.len() > 1 ==> path[1] != ':',
        !(base.len() >= 3 && base[0] == '\\' && base[1] == '\\' && base[2] == '?'),
        base.len() > 2,
    ensures
        pushed(PathStyle::Windows, base, path) == (if base.last() == '/' || base.last() == '\\' {
            base + path
        } else {
            base + seq!['\\'] + path
        }),
{
    assert(base.push('\\') + path =~= base + seq!['\\'] + path);
}

/// Below a drive alone, such as `C:`, a path on Windows is put without a separator.
pub proof fn law_windows_drive_alone(base: Seq<char>, path: Seq<char>)
    requires
        base.len() == 2,
        'a' <= base[0] <= 'z' || 'A' <= base[0] <= 'Z',
        base[1] == ':',
        path.len() > 0,
        path[0] != '/' && path[0] != '\\',
        path.len() > 1 ==> path[1] != ':',
    ensures
        pushed(PathStyle::Windows, base, path) == base + path,
{
}

/// Below a verbatim path on Windows a name is put behind one backslash, `.` changes
/// nothing, and `..` takes away again what was put there last.
pub proof fn law_verbatim_dots_resolved(body: Seq<char>, name: Seq<char>)
    requires
        body.len() > 0,
        body.last() != '\\',
        name.len() > 0,
        name != seq!['.'] && name != seq!['.', '.'],
        forall|k: int| 0 <= k < name.len() ==> (#[trigger] name[k]) != '/' && name[k] != '\\',
    ensures
        extended(body, name) == body + seq!['\\'] + name,
        extended(body, seq!['.']) == body,
        extended(extended(body, name), seq!['.', '.']) == body,
{
    let one = seq!['.'];
    let two = seq!['.', '.'];
    assert(one[0] == '.' && two[0] == '.' && two[1] == '.');
    lemma_one_component(Rules::Windows, name);
    lemma_one_component(Rules::Windows, one);
    lemma_one_component(Rules::Windows, two);
    assert(name.take(name.len() as int) =~= name);
    assert(one.take(1) =~= one);
    assert(two.take(2) =~= two);
    if name.len() == 1 {
        assert(name =~= seq![name[0]]);
    }
    let front = body + seq!['\\'];
    assert(entered(body) =~= front);
    let whole = front + name;
    assert(extended(body, name) == whole);
    assert(front.last() == '\\');
    assert forall|k: int| 0 <= k < name.len() implies !is_separator(
        Rules::Verbatim,
        #[trigger] name[k],
    ) by {}
    lemma_last_start_of_name(Rules::Verbatim, front, name);
    assert(whole.skip(front.len() as int) =~= name);
    assert(whole.take(front.len() - 1) =~= body);
    assert(without_last(whole) == body);
}

/// A path with a drive and a root replaces any other on Windows.
pub proof fn law_windows_drive_replaces(base: Seq<char>, path: Seq<char>)
    requires
        path.len() > 2,
        'a' <= path[0] <= 'z' || 'A' <= path[0] <= 'Z',
        path[1] == ':',
    ensures
        pushed(PathStyle::Windows, base, path) == path,
{
}

/// On Unix a `~` alone is the home directory, and a path below `~` is the same path below
/// the home directory. `names` is the path behind the `~`, which neither starts nor ends
/// with a separator or a component `.`.
pub proof fn law_unix_tilde_expanded(names: Seq<char>, home: Seq<char>)
    requires
        home.len() > 0,
        names.len() > 0,
        names[0] != '/' && names.last() != '/',
        names[0] != '.' && names.last() != '.',
    ensures
        tilde_expanded(PathStyle::Unix, seq!['~'], home) == home,
        tilde_expanded(PathStyle::Unix, seq!['~', '/'] + names, home) == (if home.last() == '/' {
            home + names
        } else {
            home + seq!['/'] + names
        }),
{
    let path = seq!['~', '/'] + names;
    let rest = seq!['/'] + names;
    assert(path.skip(1) =~= rest);
    lemma_trim_start_clean(names);
    assert(rest.take(0) =~= Seq::empty());
    assert(rest.skip(1) =~= names);
    lemma_trim_end_clean(names);
    law_unix_paths_joined(home, names);
    let alone = seq!['~'];
    assert(alone.skip(1) =~= Seq::empty());
    assert(trim_start(Rules::Unix, Seq::empty()) == Seq::<char>::empty());
    assert(trim_end(Rules::Unix, Seq::empty()) == Seq::<char>::empty());
}

/// A path that does not start with a separator or a dot is not trimmed at its start.
proof fn lemma_trim_start_clean(path: Seq<char>)
    requires
        path.len() > 0,
        path[0] != '/' && path[0] != '.',
    ensures
        trim_start(Rules::Unix, path) == path,
{
    let end = first_end(Rules::Unix, path);
    assert(end > 0);
    lemma_first_end(Rules::Unix, path);
    assert(path.take(end as int)[0] == path[0]);
}

/// A path that does not end with a separator or a dot is not trimmed at its end.
proof fn lemma_trim_end_clean(path: Seq<char>)
    requires
        path.len() > 0,
        path.last() != '/' && path.last() != '.',
    ensures
        trim_end(Rules::Unix, path) == path,
{
    let start = last_start(Rules::Unix, path);
    lemma_last_component(Rules::Unix, path);
    assert(start < path.len()) by {
        if start == path.len() && start > 0 {
            assert(is_separator(Rules::Unix, path[start - 1]));
        }
    }
    let last = path.skip(start as int);
    assert(last.last() == path.last());
    if last.len() == 1 {
        assert(last[0] == last.last());
    }
    if path.len() == 1 {
        assert(path[0] == path.last());
    }
}

/// On Unix the file name of a path is what stands behind its last separator, or all of it
/// where there is none.
pub proof fn law_unix_file_name(directory: Seq<char>, name: Seq<char>)
    requires
        name.len() > 0,
        name[0] != '.',
        name.last() != '.',
        forall|k: int| 0 <= k < name.len() ==> #[trigger] name[k] != '/',
    ensures
        last_name(PathStyle::Unix, directory + seq!['/'] + name) == Some(name),
        last_name(PathStyle::Unix, name) == Some(name),
{
    let front = directory + seq!['/'];
    let path = front + name;
    assert(path.skip(0) =~= path);
    assert(name.skip(0) =~= name);
    assert(path.last() == name.last());
    assert(name[name.len() - 1] != '/');
    lemma_trim_end_clean(path);
    lemma_trim_end_clean(name);
    assert forall|k: int| 0 <= k < name.len() implies !is_separator(
        Rules::Unix,
        #[trigger] name[k],
    ) by {}
    assert(front.last() == '/');
    assert(is_separator(Rules::Unix, front.last()));
    lemma_last_start_of_name(Rules::Unix, front, name);
    lemma_last_start_alone(Rules::Unix, name);
    assert(path.skip(front.len() as int) =~= name);
    let one = seq!['.'];
    let two = seq!['.', '.'];
    assert(one[0] == '.' && two[0] == '.');
    assert(name != one && name != two);
    assert(!is_dots(name));
    assert(prefix_len(PathStyle::Unix, path) == 0);
    assert(prefix_len(PathStyle::Unix, name) == 0);
    assert(rules_of(PathStyle::Unix, path) == Rules::Unix);
    assert(rules_of(PathStyle::Unix, name) == Rules::Unix);
    assert(trim_end(Rules::Unix, path.skip(0)) == path);
    assert(trim_end(Rules::Unix, name.skip(0)) == name);
    assert(last_start(Rules::Unix, path) == front.len());
    assert(last_start(Rules::Unix, name) == 0);
}

/// A path that ends with `.` behind a separator, `..`, or nothing at all names no file.
pub proof fn law_unix_dots_name_nothing(directory: Seq<char>)
    ensures
        last_name(PathStyle::Unix, directory + seq!['/', '.', '.']) is None,
        last_name(PathStyle::Unix, seq!['.', '.']) is None,
        last_name(PathStyle::Unix, Seq::empty()) is None,
        last_name(PathStyle::Unix, seq!['/']) is None,
{
    let two = seq!['.', '.'];
    let front = directory + seq!['/'];
    let path = directory + seq!['/', '.', '.'];
    assert(path =~= front + two);
    assert forall|k: int| 0 <= k < two.len() implies !is_separator(Rules::Unix, #[trigger] two[k]) by {}
    lemma_last_start_of_name(Rules::Unix, front, two);
    lemma_last_start_alone(Rules::Unix, two);
    assert(path.skip(0) =~= path);
    assert(two.skip(0) =~= two);
    assert(path.skip(front.len() as int) =~= two);
    assert(trim_end(Rules::Unix, path) == path);
    assert(trim_end(Rules::Unix, two) == two);
    let none = Seq::<char>::empty();
    assert(none.skip(0) =~= none);
    assert(trim_end(Rules::Unix, none) == none);
    let root = seq!['/'];
    assert(root.skip(0) =~= root);
    assert(root.last() == '/');
    assert(root.skip(1) =~= none);
    assert(root.take(0) =~= none);
    assert(last_start(Rules::Unix, root) == 1);
    assert(trim_end(Rules::Unix, root) == trim_end(Rules::Unix, root.take(0)));
}

/// On Windows a path that starts with a separator goes to the root of the drive or the
/// share of the other.
pub proof fn law_windows_rooted_keeps_prefix(
    drive: char,
    server: Seq<char>,
    share: Seq<char>,
    rest: Seq<char>,
    path: Seq<char>,
)
    requires
        'a' <= drive <= 'z' || 'A' <= drive <= 'Z',
        path.len() > 1,
        path[0] == '\\',
        path[1] != '\\' && path[1] != '/',
        rest.len() == 0 || rest[0] == '\\',
        server.len() > 0 && share.len() > 0,
        server[0] != '?' && server[0] != '.',
        forall|k: int| 0 <= k < server.len() ==> #[trigger] server[k] != '\\' && server[k] != '/',
        forall|k: int| 0 <= k < share.len() ==> #[trigger] share[k] != '\\' && share[k] != '/',
    ensures
        pushed(PathStyle::Windows, seq![drive, ':'] + rest, path) == seq![drive, ':'] + path,
        pushed(
            PathStyle::Windows,
            seq!['\\', '\\'] + server + seq!['\\'] + share + rest,
            path,
        ) == seq!['\\', '\\'] + server + seq!['\\'] + share + path,
{
    assert(!starts_with_drive(path));
    assert(prefix_len(PathStyle::Windows, path) == 0);
    let local = seq![drive, ':'] + rest;
    assert(local[0] == drive && local[1] == ':');
    assert(prefix_len(PathStyle::Windows, local) == 2);
    assert(local.take(2) =~= seq![drive, ':']);
    let root = seq!['\\', '\\'] + server + seq!['\\'] + share;
    let remote = root + rest;
    let n = server.len() as int;
    let m = share.len() as int;
    assert(remote[0] == '\\' && remote[1] == '\\');
    assert(remote[2] == server[0]);
    assert(remote[2 + n] == '\\');
    assert(remote[3 + n] == share[0]);
    lemma_component(remote, 2, 2 + n);
    assert forall|k: int| 3 + n <= k < 3 + n + m implies #[trigger] remote[k] != '\\' && remote[k]
        != '/' by {
        assert(remote[k] == share[k - 3 - n]);
    }
    lemma_component(remote, 3 + n, 3 + n + m);
    assert(share[0] != '\\' && share[0] != '/');
    assert(prefix_len(PathStyle::Windows, remote) == 3 + n + m);
    assert(remote.take(3 + n + m) =~= root);
}

/// Where a component of a path on Windows ends.
proof fn lemma_component(path: Seq<char>, from: int, to: int)
    requires
        0 <= from <= to <= path.len(),
        to < path.len() ==> path[to] == '\\',
        forall|k: int| from <= k < to ==> #[trigger] path[k] != '\\' && path[k] != '/',
    ensures
        component_end(Rules::Windows, path, from) == to,
    decreases to - from,
{
    let rest = path.skip(from);
    if from < to {
        assert(path[from] != '\\' && path[from] != '/');
        assert(rest[0] == path[from]);
        lemma_component(path, from + 1, to);
        assert(rest.drop_first() =~= path.skip(from + 1));
    } else if to < path.len() {
        assert(rest[0] == path[to]);
    }
}

/// Below a verbatim path on a drive a name is put behind one backslash, however many
/// follow the directory before it; and a name that starts with a separator goes to the
/// root of the drive.
pub proof fn law_verbatim_drive(drive: char, directory: Seq<char>, name: Seq<char>)
    requires
        'a' <= drive <= 'z' || 'A' <= drive <= 'Z',
        directory.len() > 0,
        forall|k: int| 0 <= k < directory.len() ==> #[trigger] directory[k] != '\\',
        name.len() > 0,
        name[0] != '.',
        name.len() > 1 ==> name[1] != ':',
        forall|k: int| 0 <= k < name.len() ==> (#[trigger] name[k]) != '/' && name[k] != '\\',
    ensures
        ({
            let root = seq!['\\', '\\', '?', '\\', drive, ':'];
            &&& pushed(PathStyle::Windows, root + seq!['\\'] + directory, name) == root + seq!['\\']
                + directory + seq!['\\'] + name
            &&& pushed(
                PathStyle::Windows,
                root + seq!['\\'] + directory + seq!['\\', '\\'],
                name,
            ) == root + seq!['\\'] + directory + seq!['\\'] + name
            &&& pushed(
                PathStyle::Windows,
                root + seq!['\\'] + directory,
                seq!['\\'] + name,
            ) == root + seq!['\\'] + name
        }),
{
    let root = seq!['\\', '\\', '?', '\\', drive, ':'];
    let body = seq!['\\'] + directory;
    let base = root + seq!['\\'] + directory;
    let other = base + seq!['\\', '\\'];
    assert(name[0] != '\\' && name[0] != '/');
    assert(prefix_len(PathStyle::Windows, name) == 0);
    let one = seq!['.'];
    let two = seq!['.', '.'];
    assert(one[0] == '.' && two[0] == '.');
    assert(name != one && name != two);
    lemma_one_component(Rules::Windows, name);
    assert(name.take(name.len() as int) =~= name);
    assert(base[4] == drive && base[5] == ':' && base[6] == '\\');
    assert(other[4] == drive && other[5] == ':' && other[6] == '\\');
    assert(starts_with_drive(base.skip(4)));
    assert(starts_with_drive(other.skip(4)));
    assert(prefix_len(PathStyle::Windows, base) == 6);
    assert(prefix_len(PathStyle::Windows, other) == 6);
    assert(base.take(6) =~= root);
    assert(other.take(6) =~= root);
    assert(base.skip(6) =~= body);
    assert(other.skip(6) =~= body + seq!['\\', '\\']);
    lemma_squeezed(directory, Seq::empty());
    lemma_squeezed(directory, seq!['\\', '\\']);
    let twice = seq!['\\', '\\'];
    assert(twice.drop_first() =~= seq!['\\']);
    assert(seq!['\\'].drop_first() =~= Seq::<char>::empty());
    assert(squeezed(seq!['\\']) == Seq::<char>::empty());
    assert(squeezed(twice) == Seq::<char>::empty());
    assert(directory + Seq::<char>::empty() =~= directory);
    assert(squeezed(directory) =~= directory);
    assert(squeezed(directory + twice) =~= directory);
    assert(body.drop_first() =~= directory);
    assert((body + twice).drop_first() =~= directory + twice);
    assert(body[1] == directory[0] && (body + twice)[1] == directory[0]);
    assert(squeezed(body) =~= body);
    assert(squeezed(body + twice) =~= body);
    assert(body.last() == directory.last());
    assert(directory[directory.len() - 1] != '\\');
    assert(entered(body) =~= body + seq!['\\']);
    assert(extended(body, name) == entered(body) + name);
    assert(root + (entered(body) + name) =~= root + seq!['\\'] + directory + seq!['\\'] + name);
    let rooted = seq!['\\'] + name;
    assert(rooted[0] == '\\' && rooted[1] == name[0]);
    assert(!starts_with_drive(rooted));
    assert(prefix_len(PathStyle::Windows, rooted) == 0);
    assert(rooted.take(0) =~= Seq::empty());
    assert(rooted.skip(1) =~= name);
    assert(first_end(Rules::Windows, rooted) == 0);
    assert(extended(seq!['\\'], rooted) == extended(seq!['\\'], name));
    assert(entered(seq!['\\']) == seq!['\\']);
    assert(root + (seq!['\\'] + name) =~= root + seq!['\\'] + name);
}

/// What holds no separator is left by squeezing what follows it.
proof fn lemma_squeezed(front: Seq<char>, back: Seq<char>)
    requires
        forall|k: int| 0 <= k < front.len() ==> #[trigger] front[k] != '\\',
    ensures
        squeezed(front + back) == front + squeezed(back),
    decreases front.len(),
{
    if front.len() == 0 {
        assert(front + back =~= back);
        assert(front + squeezed(back) =~= squeezed(back));
    } else {
        let rest = front.drop_first();
        assert forall|k: int| 0 <= k < rest.len() implies #[trigger] rest[k] != '\\' by {
            assert(rest[k] == front[k + 1]);
        }
        lemma_squeezed(rest, back);
        assert(front[0] != '\\');
        assert((front + back).drop_first() =~= rest + back);
        assert(seq![front[0]] + (rest + squeezed(back)) =~= front + squeezed(back));
    }
}

/// A name that starts with a separator goes to the root of a verbatim share and of a
/// device.
pub proof fn law_verbatim_share_and_device(
    server: Seq<char>,
    share: Seq<char>,
    device: Seq<char>,
    name: Seq<char>,
)
    requires
        server.len() > 0 && share.len() > 0,
        forall|k: int| 0 <= k < server.len() ==> #[trigger] server[k] != '\\',
        forall|k: int| 0 <= k < share.len() ==> #[trigger] share[k] != '\\',
        forall|k: int| 0 <= k < device.len() ==> #[trigger] device[k] != '\\' && device[k] != '/',
        name.len() > 0,
        name[0] != '.',
        forall|k: int| 0 <= k < name.len() ==> (#[trigger] name[k]) != '/' && name[k] != '\\',
    ensures
        ({
            let base = seq!['\\', '\\', '?', '\\', 'U', 'N', 'C', '\\'] + server + seq!['\\']
                + share;
            pushed(PathStyle::Windows, base, seq!['\\'] + name) == base + seq!['\\'] + name
        }),
        ({
            let base = seq!['\\', '\\', '.', '\\'] + device;
            pushed(PathStyle::Windows, base, seq!['\\'] + name) == base + seq!['\\'] + name
        }),
{
    let one = seq!['.'];
    let two = seq!['.', '.'];
    assert(one[0] == '.' && two[0] == '.');
    assert(name != one && name != two);
    assert(name[0] != '\\' && name[0] != '/');
    lemma_one_component(Rules::Windows, name);
    assert(name.take(name.len() as int) =~= name);
    let rooted = seq!['\\'] + name;
    assert(rooted[0] == '\\' && rooted[1] == name[0]);
    assert(!starts_with_drive(rooted));
    assert(prefix_len(PathStyle::Windows, rooted) == 0);
    assert(rooted.take(0) =~= Seq::empty());
    assert(rooted.skip(1) =~= name);
    assert(first_end(Rules::Windows, rooted) == 0);
    assert(entered(seq!['\\']) == seq!['\\']);
    let start = seq!['\\', '\\', '?', '\\', 'U', 'N', 'C', '\\'];
    let base = start + server + seq!['\\'] + share;
    let n = server.len() as int;
    let m = share.len() as int;
    assert(base[4] == 'U' && base[5] == 'N' && base[6] == 'C' && base[7] == '\\');
    assert forall|k: int| 8 <= k < 8 + n implies #[trigger] base[k] != '\\' by {
        assert(base[k] == server[k - 8]);
    }
    assert(base[8 + n] == '\\');
    lemma_verbatim_component(base, 8, 8 + n);
    assert forall|k: int| 9 + n <= k < 9 + n + m implies #[trigger] base[k] != '\\' by {
        assert(base[k] == share[k - 9 - n]);
    }
    lemma_verbatim_component(base, 9 + n, 9 + n + m);
    assert(prefix_len(PathStyle::Windows, base) == base.len());
    assert(base.take(base.len() as int) =~= base);
    assert(extended(seq!['\\'], rooted) == extended(seq!['\\'], name));
    assert(base + (seq!['\\'] + name) =~= base + seq!['\\'] + name);
    let other = seq!['\\', '\\', '.', '\\'] + device;
    assert(other[2] == '.' && other[3] == '\\');
    assert forall|k: int| 4 <= k < other.len() implies #[trigger] other[k] != '\\' && other[k]
        != '/' by {
        assert(other[k] == device[k - 4]);
    }
    lemma_component(other, 4, other.len() as int);
    assert(prefix_len(PathStyle::Windows, other) == other.len());
    assert(other.take(other.len() as int) =~= other);
    assert(other + (seq!['\\'] + name) =~= other + seq!['\\'] + name);
}

/// Where a component of a verbatim path ends.
proof fn lemma_verbatim_component(path: Seq<char>, from: int, to: int)
    requires
        0 <= from <= to <= path.len(),
        to < path.len() ==> path[to] == '\\',
        forall|k: int| from <= k < to ==> #[trigger] path[k] != '\\',
    ensures
        component_end(Rules::Verbatim, path, from) == to,
    decreases to - from,
{
    let rest = path.skip(from);
    if from < to {
        assert(path[from] != '\\');
        assert(rest[0] == path[from]);
        lemma_verbatim_component(path, from + 1, to);
        assert(rest.drop_first() =~= path.skip(from + 1));
    } else if to < path.len() {
        assert(rest[0] == path[to]);
    }
}

} // verus!
