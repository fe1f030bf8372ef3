//! Repository naming rules and the Git command lines built from them.

use vstd::prelude::*;
use crate::text::{
    append, chars_contain, chars_match_at, chars_of, contains_text, debug_quote, debug_quoted,
    first_index, is_ascii_alnum, is_ascii_digit, is_ascii_lower, is_control,
    is_first_index, lemma_first_index_exists, lemma_split_once_at, occurs_at, opt_str, owned,
    split_once, texts,
};

verus! {

/// The host that serves Git over HTTPS.
pub open spec fn git_host() -> Seq<char> {
    "git.co.codes"@
}

pub open spec fn repo_spec_error() -> Seq<char> {
    "repository must be written as <owner/repo>"@
}

/// An owner (user or organisation) slug: 2-64 lowercase letters, digits or
/// hyphens, not starting with a hyphen.
pub open spec fn is_owner_slug(s: Seq<char>) -> bool {
    &&& 2 <= s.len() <= 64
    &&& forall|i: int|
        0 <= i < s.len() ==> is_ascii_lower(#[trigger] s[i]) || is_ascii_digit(s[i]) || (i > 0
            && s[i] == '-')
}

/// A repository name as `repo view`, `clone` and `link` accept it: 1-128
/// letters, digits, dots, underscores or hyphens, starting with a letter or digit.
pub open spec fn is_repo_name(s: Seq<char>) -> bool {
    &&& 1 <= s.len() <= 128
    &&& s != seq!['.']
    &&& s != seq!['.', '.']
    &&& forall|i: int|
        0 <= i < s.len() ==> is_ascii_alnum(#[trigger] s[i]) || (i > 0 && (s[i] == '.' || s[i]
            == '_' || s[i] == '-'))
}

/// The owner and name of an `<owner/repo>` specification, when it is one.
pub open spec fn repo_spec_parts(spec: Seq<char>) -> Option<(Seq<char>, Seq<char>)> {
    match split_once(spec, '/') {
        Some((owner, name)) => if !name.contains('/') && is_owner_slug(owner) && is_repo_name(
            name,
        ) {
            Some((owner, name))
        } else {
            None
        },
        None => None,
    }
}

pub fn owner_slug_ok(v: &[char], from: usize, to: usize) -> (r: bool)
    requires
        from <= to <= v.len(),
    ensures
        r == is_owner_slug(v@.subrange(from as int, to as int)),
{
    let ghost s = v@.subrange(from as int, to as int);
    if to - from < 2 || to - from > 64 {
        return false;
    }
    let mut i: usize = from;
    while i < to
        invariant
            from <= i <= to <= v.len(),
            s == v@.subrange(from as int, to as int),
            forall|j: int|
                0 <= j < i - from ==> is_ascii_lower(#[trigger] s[j]) || is_ascii_digit(s[j]) || (j
                    > 0 && s[j] == '-'),
        decreases to - i,
    {
        let c = v[i];
        assert(c == s[i - from]);
        if !(('a' <= c && c <= 'z') || ('0' <= c && c <= '9') || (i > from && c == '-')) {
            return false;
        }
        i += 1;
    }
    true
}

pub fn repo_name_ok(v: &[char], from: usize, to: usize) -> (r: bool)
    requires
        from <= to <= v.len(),
    ensures
        r == is_repo_name(v@.subrange(from as int, to as int)),
{
    let ghost s = v@.subrange(from as int, to as int);
    if to - from < 1 || to - from > 128 {
        return false;
    }
    let mut i: usize = from;
    while i < to
        invariant
            from <= i <= to <= v.len(),
            s == v@.subrange(from as int, to as int),
            forall|j: int|
                0 <= j < i - from ==> is_ascii_alnum(#[trigger] s[j]) || (j > 0 && (s[j] == '.'
                    || s[j] == '_' || s[j] == '-')),
        decreases to - i,
    {
        let c = v[i];
        assert(c == s[i - from]);
        if !(('a' <= c && c <= 'z') || ('A' <= c && c <= 'Z') || ('0' <= c && c <= '9') || (i
            > from && (c == '.' || c == '_' || c == '-'))) {
            return false;
        }
        i += 1;
    }
    proof {
        if s == seq!['.'] || s == seq!['.', '.'] {
            assert(!is_ascii_alnum(s[0]));
        }
    }
    true
}

/// Splits `<owner/repo>` into its owner and name, or rejects it.
pub fn repo_spec(spec: &str) -> (r: Result<(&str, &str), String>)
    ensures
        match r {
            Ok((owner, name)) => repo_spec_parts(spec@) == Some((owner@, name@)),
            Err(e) => repo_spec_parts(spec@) is None && e@ == repo_spec_error(),
        },
{
    let v = chars_of(spec);
    let slash = match first_index(&v, '/') {
        Some(i) => i,
        None => {
            return Err(owned("repository must be written as <owner/repo>"));
        },
    };
    proof {
        lemma_split_once_at(spec@, '/', slash as int);
        assert(v@.subrange(0, slash as int) =~= spec@.take(slash as int));
        assert(v@.subrange(slash + 1, v.len() as int) =~= spec@.skip(slash + 1));
    }
    if !owner_slug_ok(&v, 0, slash) || !repo_name_ok(&v, slash + 1, v.len()) {
        return Err(owned("repository must be written as <owner/repo>"));
    }
    proof {
        let name = spec@.skip(slash + 1);
        if name.contains('/') {
            let k = choose|k: int| 0 <= k < name.len() && name[k] == '/';
            assert(is_ascii_alnum(name[k]) || name[k] == '.' || name[k] == '_' || name[k] == '-');
        }
    }
    let owner = spec.substring_char(0, slash);
    let name = spec.substring_char(slash + 1, v.len());
    Ok((owner, name))
}

/// A valid `<owner/repo>` is exactly its owner, a slash and its name.
pub proof fn law_repo_spec_rejoins(spec: Seq<char>)
    requires
        repo_spec_parts(spec) is Some,
    ensures
        ({
            let (owner, name) = repo_spec_parts(spec).unwrap();
            &&& spec == owner + seq!['/'] + name
            &&& !owner.contains('/')
            &&& !name.contains('/')
        }),
{
    lemma_first_index_exists(spec, '/');
    let i = choose|i: int| is_first_index(spec, '/', i);
    lemma_split_once_at(spec, '/', i);
    assert(spec =~= spec.take(i) + seq!['/'] + spec.skip(i + 1));
    let owner = spec.take(i);
    if owner.contains('/') {
        let k = choose|k: int| 0 <= k < owner.len() && owner[k] == '/';
        assert(spec[k] == '/');
    }
}

/// The canonical HTTPS clone URL of a repository.
pub open spec fn git_url_text(spec: Seq<char>) -> Seq<char> {
    "https://"@ + git_host() + seq!['/'] + spec + ".git"@
}

pub fn git_url(spec: &str) -> (r: String)
    ensures
        r@ == git_url_text(spec@),
{
    let mut r = owned("https://");
    append(&mut r, "git.co.codes");
    append(&mut r, "/");
    append(&mut r, spec);
    append(&mut r, ".git");
    proof {
        reveal_strlit("/");
        assert(r@ =~= git_url_text(spec@));
    }
    r
}

/// The body of a single-quoted shell word: each `'` becomes `'\''`.
pub open spec fn quote_escaped(s: Seq<char>) -> Seq<char>
    decreases s.len(),
{
    if s.len() == 0 {
        Seq::empty()
    } else {
        quote_escaped(s.drop_last()) + if s.last() == '\'' {
            seq!['\'', '\\', '\'', '\'']
        } else {
            seq![s.last()]
        }
    }
}

pub open spec fn shell_quoted(s: Seq<char>) -> Seq<char> {
    seq!['\''] + quote_escaped(s) + seq!['\'']
}

/// Quotes a value as one word for a POSIX shell.
pub fn shell_quote(value: &str) -> (r: String)
    ensures
        r@ == shell_quoted(value@),
{
    let v = chars_of(value);
    let mut r = String::new();
    r.push('\'');
    let mut i: usize = 0;
    while i < v.len()
        invariant
            i <= v.len(),
            v@ == value@,
            r@ == seq!['\''] + quote_escaped(v@.take(i as int)),
        decreases v.len() - i,
    {
        let c = v[i];
        if c == '\'' {
            r.push('\'');
            r.push('\\');
            r.push('\'');
            r.push('\'');
        } else {
            r.push(c);
        }
        assert(v@.take(i + 1).drop_last() =~= v@.take(i as int));
        i += 1;
    }
    r.push('\'');
    assert(v@.take(v.len() as int) =~= v@);
    r
}

/// The Git credential helper command that runs this executable.
pub open spec fn helper_text(executable: Seq<char>) -> Seq<char> {
    seq!['!'] + shell_quoted(executable) + " git-credential"@
}

/// The credential helper for the co executable at `executable` (its UTF-8 path).
pub fn credential_helper(executable: &str) -> (r: String)
    ensures
        r@ == helper_text(executable@),
{
    let mut r = String::new();
    r.push('!');
    let q = shell_quote(executable);
    append(&mut r, q.as_str());
    append(&mut r, " git-credential");
    r
}

/// The configuration key of the URL-scoped credential helper.
pub open spec fn helper_key() -> Seq<char> {
    "credential.https://"@ + git_host() + ".helper"@
}

fn helper_key_string() -> (r: String)
    ensures
        r@ == helper_key(),
{
    let mut r = owned("credential.https://");
    append(&mut r, "git.co.codes");
    append(&mut r, ".helper");
    r
}

/// The arguments of `git clone`: no inherited helper, this one scoped to the
/// Git host, and no secret.
pub open spec fn clone_args_text(
    url: Seq<char>,
    directory: Option<Seq<char>>,
    upstream_name: Seq<char>,
    helper: Seq<char>,
) -> Seq<Seq<char>> {
    let base = seq![
        "-c"@,
        "credential.helper="@,
        "-c"@,
        helper_key() + seq!['='] + helper,
        "clone"@,
        "--origin"@,
        upstream_name,
        "--"@,
        url,
    ];
    match directory {
        Some(d) => base.push(d),
        None => base,
    }
}

pub fn clone_command_args(
    url: &str,
    directory: Option<&str>,
    upstream_name: &str,
    helper: &str,
) -> (r: Vec<String>)
    ensures
        texts(r@) == clone_args_text(url@, opt_str(directory), upstream_name@, helper@),
{
    let mut scoped = helper_key_string();
    scoped.push('=');
    append(&mut scoped, helper);
    assert(scoped@ =~= helper_key() + seq!['='] + helper@);
    let mut args: Vec<String> = Vec::new();
    args.push(owned("-c"));
    args.push(owned("credential.helper="));
    args.push(owned("-c"));
    args.push(scoped);
    args.push(owned("clone"));
    args.push(owned("--origin"));
    args.push(owned(upstream_name));
    args.push(owned("--"));
    args.push(owned(url));
    if let Some(d) = directory {
        args.push(owned(d));
    }
    assert(texts(args@) =~= clone_args_text(
        url@,
        opt_str(directory),
        upstream_name@,
        helper@,
    ));
    args
}

/// The key that makes Git send the repository path with each credential
/// request for the Git host.
pub open spec fn use_http_path_key() -> Seq<char> {
    "credential.https://"@ + git_host() + ".useHttpPath"@
}

/// The three `git config` invocations that reset the helpers for the Git host
/// in `directory`, install `helper` alone, and have Git send repository
/// paths to it.
pub open spec fn helper_config_commands(directory: Seq<char>, helper: Seq<char>) -> Seq<
    Seq<Seq<char>>,
> {
    seq![
        seq!["-C"@, directory, "config"@, "--local"@, "--replace-all"@, helper_key(), Seq::empty()],
        seq!["-C"@, directory, "config"@, "--local"@, "--add"@, helper_key(), helper],
        seq!["-C"@, directory, "config"@, "--local"@, use_http_path_key(), "true"@],
    ]
}

pub fn configure_repo_helper(directory: &str, helper: &str) -> (r: Vec<Vec<String>>)
    ensures
        r@.len() == 3,
        forall|i: int| 0 <= i < 3 ==> texts(#[trigger] r@[i]@) == helper_config_commands(
            directory@,
            helper@,
        )[i],
{
    let mut reset: Vec<String> = Vec::new();
    reset.push(owned("-C"));
    reset.push(owned(directory));
    reset.push(owned("config"));
    reset.push(owned("--local"));
    reset.push(owned("--replace-all"));
    reset.push(helper_key_string());
    reset.push(String::new());
    let mut add: Vec<String> = Vec::new();
    add.push(owned("-C"));
    add.push(owned(directory));
    add.push(owned("config"));
    add.push(owned("--local"));
    add.push(owned("--add"));
    add.push(helper_key_string());
    add.push(owned(helper));
    let mut paths: Vec<String> = Vec::new();
    paths.push(owned("-C"));
    paths.push(owned(directory));
    paths.push(owned("config"));
    paths.push(owned("--local"));
    let mut key = owned("credential.https://");
    append(&mut key, "git.co.codes");
    append(&mut key, ".useHttpPath");
    paths.push(key);
    paths.push(owned("true"));
    assert(texts(reset@) =~= helper_config_commands(directory@, helper@)[0]);
    assert(texts(add@) =~= helper_config_commands(directory@, helper@)[1]);
    assert(texts(paths@) =~= helper_config_commands(directory@, helper@)[2]);
    let mut r: Vec<Vec<String>> = Vec::new();
    r.push(reset);
    r.push(add);
    r.push(paths);
    r
}

/// Characters that Git forbids in a remote name.
pub open spec fn forbidden_in_remote_name(c: char) -> bool {
    is_control(c) || c == ' ' || c == '~' || c == '^' || c == ':' || c == '?' || c == '*' || c
        == '[' || c == '\\'
}

/// A `/`-separated component of `n` starts at `i`.
pub open spec fn component_starts(n: Seq<char>, i: int) -> bool {
    i == 0 || (0 < i <= n.len() && n[i - 1] == '/')
}

/// A `/`-separated component of `n` ends at `j`.
pub open spec fn component_ends(n: Seq<char>, j: int) -> bool {
    j == n.len() || (0 <= j < n.len() && n[j] == '/')
}

/// Some component is empty, starts with a dot, or ends with `.lock`.
pub open spec fn has_bad_component(n: Seq<char>) -> bool {
    ||| exists|i: int| 0 <= i <= n.len() && component_starts(n, i) && component_ends(n, i)
    ||| exists|i: int| 0 <= i < n.len() && component_starts(n, i) && n[i] == '.'
    ||| exists|j: int| 5 <= j <= n.len() && component_ends(n, j) && occurs_at(n, ".lock"@, j - 5)
}

/// A name Git accepts for a remote.
pub open spec fn valid_remote_name(n: Seq<char>) -> bool {
    &&& n.len() > 0
    &&& n[0] != '-'
    &&& n.last() != '.'
    &&& n.last() != '/'
    &&& !contains_text(n, ".."@)
    &&& !contains_text(n, "@{"@)
    &&& !contains_text(n, "//"@)
    &&& forall|i: int| 0 <= i < n.len() ==> !forbidden_in_remote_name(#[trigger] n[i])
    &&& !has_bad_component(n)
}

fn bad_component(v: &[char]) -> (r: bool)
    ensures
        r == has_bad_component(v@),
{
    let lock = chars_of(".lock");
    let n = v.len();
    let mut i: usize = 0;
    loop
        invariant
            i <= n,
            n == v.len(),
            lock@ == ".lock"@,
            forall|k: int|
                0 <= k < i ==> !(component_starts(v@, k) && component_ends(v@, k)) && !(k < n
                    && component_starts(v@, k) && v@[k] == '.') && !(5 <= k && component_ends(v@, k)
                    && occurs_at(v@, ".lock"@, k - 5)),
        ensures
            forall|k: int|
                0 <= k <= n ==> !(component_starts(v@, k) && component_ends(v@, k)) && !(k < n
                    && component_starts(v@, k) && v@[k] == '.') && !(5 <= k && component_ends(v@, k)
                    && occurs_at(v@, ".lock"@, k - 5)),
        decreases n - i,
    {
        let starts = i == 0 || v[i - 1] == '/';
        let ends = i == n || v[i] == '/';
        if starts && ends {
            assert(component_starts(v@, i as int) && component_ends(v@, i as int));
            return true;
        }
        if starts && i < n && v[i] == '.' {
            assert(component_starts(v@, i as int) && v@[i as int] == '.');
            return true;
        }
        if ends && i >= 5 && chars_match_at(v, &lock, i - 5) {
            assert(component_ends(v@, i as int) && occurs_at(v@, ".lock"@, i - 5));
            return true;
        }
        if i == n {
            break;
        }
        i += 1;
    }
    false
}

pub open spec fn remote_name_error(name: Seq<char>) -> Seq<char> {
    debug_quoted(name) + " is not a valid Git remote name"@
}

fn remote_name_ok(v: &[char]) -> (r: bool)
    ensures
        r == valid_remote_name(v@),
{
    if v.len() == 0 || v[0] == '-' || v[v.len() - 1] == '.' || v[v.len() - 1] == '/' {
        return false;
    }
    let dots = chars_of("..");
    let brace = chars_of("@{");
    let slashes = chars_of("//");
    if chars_contain(v, &dots) || chars_contain(v, &brace) || chars_contain(v, &slashes) {
        return false;
    }
    let mut i: usize = 0;
    while i < v.len()
        invariant
            i <= v.len(),
            forall|j: int| 0 <= j < i ==> !forbidden_in_remote_name(#[trigger] v@[j]),
        decreases v.len() - i,
    {
        let c = v[i];
        if c <= '\u{1f}' || ('\u{7f}' <= c && c <= '\u{9f}') || c == ' ' || c == '~' || c == '^'
            || c == ':' || c == '?' || c == '*' || c == '[' || c == '\\' {
            assert(forbidden_in_remote_name(v@[i as int]));
            return false;
        }
        i += 1;
    }
    !bad_component(v)
}

/// Accepts a Git remote name, or rejects it with a message quoting it.
pub fn validate_upstream_name(name: &str) -> (r: Result<(), String>)
    ensures
        match r {
            Ok(()) => valid_remote_name(name@),
            Err(e) => !valid_remote_name(name@) && e@ == remote_name_error(name@),
        },
{
    let v = chars_of(name);
    if remote_name_ok(&v) {
        Ok(())
    } else {
        let mut e = debug_quote(name);
        append(&mut e, " is not a valid Git remote name");
        Err(e)
    }
}

/// Where `clone` checks out: the given directory, else the repository name.
pub fn clone_destination(directory: Option<&str>, name: &str) -> (r: String)
    ensures
        r@ == match directory {
            Some(d) => d@,
            None => name@,
        },
{
    match directory {
        Some(d) => owned(d),
        None => owned(name),
    }
}

/// The `git` arguments with which `link` adds the canonical remote.
pub fn link_remote_args(root: &str, upstream_name: &str, spec: &str) -> (r: Vec<String>)
    ensures
        texts(r@) == seq!["-C"@, root@, "remote"@, "add"@, upstream_name@, git_url_text(spec@)],
{
    let mut args: Vec<String> = Vec::new();
    args.push(owned("-C"));
    args.push(owned(root));
    args.push(owned("remote"));
    args.push(owned("add"));
    args.push(owned(upstream_name));
    args.push(git_url(spec));
    assert(texts(args@) =~= seq![
        "-C"@,
        root@,
        "remote"@,
        "add"@,
        upstream_name@,
        git_url_text(spec@),
    ]);
    args
}

/// The `git rev-parse` option that names the repository root: the Git
/// directory of a bare repository, else the top of the working tree.
pub fn root_query(is_bare_output: &[u8]) -> (r: &'static str)
    ensures
        r@ == if is_bare_output@.len() >= 4 && is_bare_output@.take(4) == seq![
            't' as u8,
            'r' as u8,
            'u' as u8,
            'e' as u8,
        ] {
            "--absolute-git-dir"@
        } else {
            "--show-toplevel"@
        },
{
    if is_bare_output.len() >= 4 && is_bare_output[0] == 't' as u8 && is_bare_output[1] == 'r' as u8
        && is_bare_output[2] == 'u' as u8 && is_bare_output[3] == 'e' as u8 {
        assert(is_bare_output@.take(4) =~= seq!['t' as u8, 'r' as u8, 'u' as u8, 'e' as u8]);
        "--absolute-git-dir"
    } else {
        proof {
            if is_bare_output@.len() >= 4 && is_bare_output@.take(4) == seq![
                't' as u8,
                'r' as u8,
                'u' as u8,
                'e' as u8,
            ] {
                assert(is_bare_output@[0] == is_bare_output@.take(4)[0]);
                assert(is_bare_output@[1] == is_bare_output@.take(4)[1]);
                assert(is_bare_output@[2] == is_bare_output@.take(4)[2]);
                assert(is_bare_output@[3] == is_bare_output@.take(4)[3]);
            }
        }
        "--show-toplevel"
    }
}

/// Text without one trailing newline, then without one trailing carriage return.
pub open spec fn strip_line_ending_text(s: Seq<char>) -> Seq<char> {
    let a = if s.len() > 0 && s.last() == '\n' {
        s.drop_last()
    } else {
        s
    };
    if a.len() > 0 && a.last() == '\r' {
        a.drop_last()
    } else {
        a
    }
}

/// The path that `git rev-parse` printed, without its line ending.
pub fn strip_line_ending(text: &str) -> (r: String)
    ensures
        r@ == strip_line_ending_text(text@),
{
    let v = chars_of(text);
    let mut end = v.len();
    if end > 0 && v[end - 1] == '\n' {
        end -= 1;
    }
    if end > 0 && v[end - 1] == '\r' {
        end -= 1;
    }
    let r = crate::text::slice_string(&v, 0, end);
    assert(r@ =~= strip_line_ending_text(text@));
    r
}

/// The summary that `repo create` prints for a created repository.
pub open spec fn created_repo_lines_text(owner: Seq<char>, name: Seq<char>, visibility: Seq<char>) -> Seq<
    Seq<char>,
> {
    seq![
        "Created "@ + owner + seq!['/'] + name + " ("@ + visibility + seq![')'],
        "  web  https://co.codes/"@ + owner + seq!['/'] + name,
        "  git  "@ + git_url_text(owner + seq!['/'] + name),
    ]
}

pub fn created_repo_lines(owner: &str, name: &str, visibility: &str) -> (r: Vec<String>)
    ensures
        texts(r@) == created_repo_lines_text(owner@, name@, visibility@),
{
    let mut spec = owned(owner);
    spec.push('/');
    append(&mut spec, name);
    let mut first = owned("Created ");
    append(&mut first, spec.as_str());
    append(&mut first, " (");
    append(&mut first, visibility);
    first.push(')');
    let mut web = owned("  web  https://co.codes/");
    append(&mut web, spec.as_str());
    let mut git = owned("  git  ");
    let url = git_url(spec.as_str());
    append(&mut git, url.as_str());
    let mut lines: Vec<String> = Vec::new();
    let ghost fv = first@;
    let ghost wv = web@;
    lines.push(first);
    lines.push(web);
    lines.push(git);
    assert(spec@ =~= owner@ + seq!['/'] + name@);
    assert(fv =~= "Created "@ + owner@ + seq!['/'] + name@ + " ("@ + visibility@ + seq![')']);
    assert(wv =~= "  web  https://co.codes/"@ + owner@ + seq!['/'] + name@);
    assert(texts(lines@) =~= created_repo_lines_text(owner@, name@, visibility@));
    lines
}

/// Any owner slug and repository name, written `owner/name`, are read back
/// exactly by `repo_spec`.
pub proof fn law_repo_spec_round_trip(owner: Seq<char>, name: Seq<char>)
    requires
        is_owner_slug(owner),
        is_repo_name(name),
    ensures
        repo_spec_parts(owner + seq!['/'] + name) == Some((owner, name)),
{
    let spec = owner + seq!['/'] + name;
    let i = owner.len() as int;
    assert forall|j: int| 0 <= j < i implies spec[j] != '/' by {
        assert(spec[j] == owner[j]);
        assert(is_ascii_lower(owner[j]) || is_ascii_digit(owner[j]) || owner[j] == '-');
    }
    assert(spec[i] == '/');
    assert(is_first_index(spec, '/', i));
    lemma_split_once_at(spec, '/', i);
    assert(spec.take(i) =~= owner);
    assert(spec.skip(i + 1) =~= name);
    if name.contains('/') {
        let k = choose|k: int| 0 <= k < name.len() && name[k] == '/';
        assert(is_ascii_alnum(name[k]) || name[k] == '.' || name[k] == '_' || name[k] == '-');
    }
}

/// `<owner/repo>` accepts every owner of 2-64 lowercase letters, digits and
/// inner hyphens with every repository name of 1-128 ASCII letters of either
/// case and digits, with dots, underscores and hyphens after the first
/// character (other than `.` and `..`), and reads both back unchanged.
pub proof fn law_repo_spec_accepts_mixed_case_names(owner: Seq<char>, name: Seq<char>)
    requires
        2 <= owner.len() <= 64,
        forall|i: int|
            0 <= i < owner.len() ==> ('a' <= #[trigger] owner[i] && owner[i] <= 'z') || ('0'
                <= owner[i] && owner[i] <= '9') || (i > 0 && owner[i] == '-'),
        1 <= name.len() <= 128,
        name != seq!['.'],
        name != seq!['.', '.'],
        forall|i: int|
            0 <= i < name.len() ==> ('a' <= #[trigger] name[i] && name[i] <= 'z') || ('A'
                <= name[i] && name[i] <= 'Z') || ('0' <= name[i] && name[i] <= '9') || (i > 0 && (
            name[i] == '.' || name[i] == '_' || name[i] == '-')),
    ensures
        repo_spec_parts(owner + seq!['/'] + name) == Some((owner, name)),
{
    law_repo_spec_round_trip(owner, name);
}

/// How a POSIX shell reads a word made of single-quoted parts and
/// backslash-escaped characters (`in_quote`: inside single quotes); `None`
/// for anything else.
pub open spec fn shell_unquote(w: Seq<char>, in_quote: bool) -> Option<Seq<char>>
    decreases w.len(),
{
    if w.len() == 0 {
        if in_quote {
            None
        } else {
            Some(Seq::empty())
        }
    } else if in_quote {
        if w[0] == '\'' {
            shell_unquote(w.drop_first(), false)
        } else {
            match shell_unquote(w.drop_first(), true) {
                Some(r) => Some(seq![w[0]] + r),
                None => None,
            }
        }
    } else if w[0] == '\'' {
        shell_unquote(w.drop_first(), true)
    } else if w[0] == '\\' && w.len() >= 2 {
        match shell_unquote(w.skip(2), false) {
            Some(r) => Some(seq![w[1]] + r),
            None => None,
        }
    } else {
        None
    }
}

proof fn lemma_unquote_escaped(s: Seq<char>, rest: Seq<char>)
    ensures
        shell_unquote(quote_escaped(s) + rest, true) == match shell_unquote(rest, true) {
            Some(r) => Some(s + r),
            None => None::<Seq<char>>,
        },
    decreases s.len(),
{
    if s.len() == 0 {
        assert(quote_escaped(s) + rest =~= rest);
        assert(match shell_unquote(rest, true) {
            Some(r) => Some(s + r),
            None => None::<Seq<char>>,
        } == shell_unquote(rest, true)) by {
            match shell_unquote(rest, true) {
                Some(r) => {
                    assert(s + r =~= r);
                },
                None => {},
            }
        }
    } else {
        let init = s.drop_last();
        let c = s.last();
        let e = if c == '\'' {
            seq!['\'', '\\', '\'', '\'']
        } else {
            seq![c]
        };
        assert(quote_escaped(s) == quote_escaped(init) + e);
        assert(quote_escaped(s) + rest =~= quote_escaped(init) + (e + rest));
        lemma_unquote_escaped(init, e + rest);
        let w = e + rest;
        if c == '\'' {
            let w1 = w.drop_first();
            assert(w1 =~= seq!['\\', '\'', '\''] + rest);
            let w2 = w1.skip(2);
            assert(w2 =~= seq!['\''] + rest);
            assert(w2.drop_first() =~= rest);
            assert(w[0] == '\'');
            assert(w1[0] == '\\' && w1[1] == '\'');
            assert(w2[0] == '\'');
            assert(shell_unquote(w2, false) == shell_unquote(rest, true));
            assert(shell_unquote(w, true) == shell_unquote(w1, false));
            match shell_unquote(rest, true) {
                Some(r) => {
                    assert(shell_unquote(w1, false) == Some(seq!['\''] + r));
                    assert(init + (seq![c] + r) =~= s + r);
                },
                None => {
                    assert(shell_unquote(w1, false) is None);
                },
            }
        } else {
            assert(w.drop_first() =~= rest);
            assert(w[0] == c);
            match shell_unquote(rest, true) {
                Some(r) => {
                    assert(shell_unquote(w, true) == Some(seq![c] + r));
                    assert(init + (seq![c] + r) =~= s + r);
                },
                None => {},
            }
        }
    }
}

/// A quoted value reads back, as one shell word, as exactly the value.
pub proof fn law_shell_quote_round_trip(s: Seq<char>)
    ensures
        shell_unquote(shell_quoted(s), false) == Some(s),
{
    let w = shell_quoted(s);
    assert(w.drop_first() =~= quote_escaped(s) + seq!['\'']);
    lemma_unquote_escaped(s, seq!['\'']);
    let q = seq!['\''];
    assert(q.drop_first() =~= Seq::<char>::empty());
    assert(q[0] == '\'');
    assert(shell_unquote(Seq::<char>::empty(), false) == Some(Seq::<char>::empty()));
    assert(shell_unquote(q, true) == Some(Seq::<char>::empty()));
    assert(w[0] == '\'');
    assert(s + Seq::<char>::empty() =~= s);
}

} // verus!
