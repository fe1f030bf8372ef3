//! Command-line parsing for `clone`, `link`, `repo create` and `access request`.

use vstd::prelude::*;
use crate::config::Config;
use crate::repo::{
    is_owner_slug, owner_slug_ok, remote_name_error, repo_spec, repo_spec_error, repo_spec_parts,
    valid_remote_name, validate_upstream_name,
};
use crate::text::{
    append, chars_contain, chars_of, opt_seq, texts, contains_text, first_index, is_ascii_alnum, lemma_split_once_at,
    parse_u64, parse_u64_text, split_once, chars_start_with, debug_quote, debug_quoted, owned, slice_string,
    occurs_at, starts_with, str_eq,
};

verus! {

/// The argument at `index`, or the usage message when it is missing.
pub fn required_arg<'a>(args: &'a [String], index: usize, usage: &str) -> (r: Result<&'a str, String>)
    ensures
        match r {
            Ok(a) => index < args@.len() && a@ == args@[index as int]@,
            Err(e) => index >= args@.len() && e@ == usage@,
        },
{
    if index < args.len() {
        Ok(args[index].as_str())
    } else {
        Err(owned(usage))
    }
}

/// A parsed `clone` or `link` command.
#[derive(Debug, PartialEq, Eq)]
pub struct RepoCommand {
    pub spec: String,
    pub directory: Option<String>,
    pub upstream_name: String,
    pub jj: bool,
}

pub open spec fn clone_usage() -> Seq<char> {
    "usage: co clone [-u <name>] [--jj] <owner/repo> [directory]"@
}

pub open spec fn link_usage() -> Seq<char> {
    "usage: co link [-u <name>] [--jj] <owner/repo>"@
}

/// The state of a `clone`/`link` argument scan.
pub struct RepoScan {
    pub upstream: Seq<char>,
    pub jj: bool,
    pub positionals: Seq<Seq<char>>,
    pub options: bool,
}

/// Scans `clone`/`link` arguments from position `i`: `--` ends the options,
/// `--jj`/`--no-jj` set jj setup, `-u NAME`, `--set-upstream-name NAME` and
/// `--set-upstream-name=NAME` set the remote name, any other argument that
/// starts with `-` is an error while options are read, and the rest are
/// positional.
pub open spec fn repo_scan(args: Seq<Seq<char>>, i: int, st: RepoScan, allows_directory: bool) -> Result<
    RepoScan,
    Seq<char>,
>
    decreases args.len() - i,
{
    if i < 0 || i >= args.len() {
        Ok(st)
    } else {
        let a = args[i];
        let usage = if allows_directory {
            clone_usage()
        } else {
            link_usage()
        };
        let command = if allows_directory {
            "clone"@
        } else {
            "link"@
        };
        if st.options && a == "--"@ {
            repo_scan(args, i + 1, RepoScan { options: false, ..st }, allows_directory)
        } else if st.options && (a == "--jj"@ || a == "--no-jj"@) {
            repo_scan(args, i + 1, RepoScan { jj: a == "--jj"@, ..st }, allows_directory)
        } else if st.options && (a == "-u"@ || a == "--set-upstream-name"@) {
            if i + 1 >= args.len() {
                Err(a + " requires a remote name\n"@ + usage)
            } else {
                repo_scan(args, i + 2, RepoScan { upstream: args[i + 1], ..st }, allows_directory)
            }
        } else if st.options && starts_with(a, "--set-upstream-name="@) {
            repo_scan(
                args,
                i + 1,
                RepoScan { upstream: a.skip("--set-upstream-name="@.len() as int), ..st },
                allows_directory,
            )
        } else if st.options && a.len() > 0 && a[0] == '-' {
            Err("unknown "@ + command + " option "@ + debug_quoted(a) + seq!['\n'] + usage)
        } else {
            repo_scan(
                args,
                i + 1,
                RepoScan { positionals: st.positionals.push(a), ..st },
                allows_directory,
            )
        }
    }
}

/// The view of a parsed `clone`/`link` command: repository, directory,
/// remote name and jj setup.
pub type RepoCommandView = (Seq<char>, Option<Seq<char>>, Seq<char>, bool);

/// What `co clone` (`allows_directory`) or `co link` makes of its arguments,
/// with the remote name and jj setup defaulting to the configuration.
pub open spec fn repo_command_result(
    args: Seq<Seq<char>>,
    allows_directory: bool,
    config_upstream: Option<Seq<char>>,
    config_jj: bool,
) -> Result<RepoCommandView, Seq<char>> {
    let init = RepoScan {
        upstream: match config_upstream {
            Some(u) => u,
            None => "origin"@,
        },
        jj: config_jj,
        positionals: Seq::empty(),
        options: true,
    };
    let usage = if allows_directory {
        clone_usage()
    } else {
        link_usage()
    };
    let max: nat = if allows_directory {
        2
    } else {
        1
    };
    match repo_scan(args, 0, init, allows_directory) {
        Err(e) => Err(e),
        Ok(st) => if st.positionals.len() == 0 || st.positionals.len() > max {
            Err(usage)
        } else if repo_spec_parts(st.positionals[0]) is None {
            Err(repo_spec_error())
        } else if !valid_remote_name(st.upstream) {
            Err(remote_name_error(st.upstream))
        } else {
            Ok(
                (
                    st.positionals[0],
                    if st.positionals.len() == 2 {
                        Some(st.positionals[1])
                    } else {
                        None
                    },
                    st.upstream,
                    st.jj,
                ),
            )
        },
    }
}

pub open spec fn repo_command_view(r: Result<RepoCommand, String>) -> Result<
    RepoCommandView,
    Seq<char>,
> {
    match r {
        Ok(c) => Ok((c.spec@, opt_seq(c.directory), c.upstream_name@, c.jj)),
        Err(e) => Err(e@),
    }
}

fn usage_for(allows_directory: bool) -> (r: String)
    ensures
        r@ == if allows_directory {
            clone_usage()
        } else {
            link_usage()
        },
{
    if allows_directory {
        owned("usage: co clone [-u <name>] [--jj] <owner/repo> [directory]")
    } else {
        owned("usage: co link [-u <name>] [--jj] <owner/repo>")
    }
}

/// Parses the arguments of `co clone` (`allows_directory`) or `co link`.
pub fn parse_repo_command(args: &[String], allows_directory: bool, config: &Config) -> (r: Result<
    RepoCommand,
    String,
>)
    ensures
        repo_command_view(r) == repo_command_result(
            texts(args@),
            allows_directory,
            opt_seq(config.upstream_name),
            config.jj,
        ),
{
    let ghost av = texts(args@);
    let mut upstream_name = match &config.upstream_name {
        Some(u) => u.clone(),
        None => owned("origin"),
    };
    let mut jj = config.jj;
    let mut positionals: Vec<String> = Vec::new();
    let mut options = true;
    let mut index: usize = 0;
    let ghost init = RepoScan {
        upstream: upstream_name@,
        jj: jj,
        positionals: Seq::empty(),
        options: true,
    };
    let prefix = chars_of("--set-upstream-name=");
    assert(texts(positionals@) =~= Seq::<Seq<char>>::empty());
    while index < args.len()
        invariant
            index <= args.len(),
            av == texts(args@),
            init == (RepoScan {
                upstream: match opt_seq(config.upstream_name) {
                    Some(u) => u,
                    None => "origin"@,
                },
                jj: config.jj,
                positionals: Seq::empty(),
                options: true,
            }),
            prefix@ == "--set-upstream-name="@,
            repo_scan(
                av,
                index as int,
                RepoScan { upstream: upstream_name@, jj, positionals: texts(positionals@), options },
                allows_directory,
            ) == repo_scan(av, 0, init, allows_directory),
        decreases args.len() - index,
    {
        let argument = args[index].as_str();
        let v = chars_of(argument);
        assert(argument@ == av[index as int]);
        if options && str_eq(argument, "--") {
            options = false;
        } else if options && (str_eq(argument, "--jj") || str_eq(argument, "--no-jj")) {
            jj = str_eq(argument, "--jj");
        } else if options && (str_eq(argument, "-u") || str_eq(argument, "--set-upstream-name")) {
            index += 1;
            if index >= args.len() {
                let mut e = owned(argument);
                append(&mut e, " requires a remote name\n");
                let u = usage_for(allows_directory);
                append(&mut e, u.as_str());
                return Err(e);
            }
            upstream_name = args[index].clone();
            assert(upstream_name@ == av[index as int]);
        } else if options && chars_start_with(&v, &prefix) {
            upstream_name = slice_string(&v, prefix.len(), v.len());
            assert(upstream_name@ =~= argument@.skip("--set-upstream-name="@.len() as int));
        } else if options && v.len() > 0 && v[0] == '-' {
            let mut e = owned("unknown ");
            if allows_directory {
                append(&mut e, "clone");
            } else {
                append(&mut e, "link");
            }
            append(&mut e, " option ");
            let q = debug_quote(argument);
            append(&mut e, q.as_str());
            e.push('\n');
            let u = usage_for(allows_directory);
            append(&mut e, u.as_str());
            assert(e@ =~= "unknown "@ + (if allows_directory {
                "clone"@
            } else {
                "link"@
            }) + " option "@ + debug_quoted(argument@) + seq!['\n'] + u@);
            return Err(e);
        } else {
            let ghost before = positionals@;
            positionals.push(owned(argument));
            assert(texts(positionals@) =~= texts(before).push(argument@));
        }
        index += 1;
    }
    let max: usize = if allows_directory {
        2
    } else {
        1
    };
    if positionals.len() == 0 || positionals.len() > max {
        return Err(usage_for(allows_directory));
    }
    assert(texts(positionals@)[0] == positionals@[0]@);
    if repo_spec(positionals[0].as_str()).is_err() {
        return Err(owned("repository must be written as <owner/repo>"));
    }
    match validate_upstream_name(upstream_name.as_str()) {
        Ok(()) => {},
        Err(e) => {
            return Err(e);
        },
    }
    let spec = positionals[0].clone();
    let directory = if positionals.len() == 2 {
        assert(texts(positionals@)[1] == positionals@[1]@);
        Some(positionals[1].clone())
    } else {
        None
    };
    Ok(RepoCommand { spec, directory, upstream_name, jj })
}

/// A parsed `access request` command.
#[derive(Debug, PartialEq, Eq)]
pub struct AccessRequestCommand {
    pub spec: String,
    pub agent: Option<String>,
    pub push: bool,
    pub ttl_seconds: u64,
    pub reason: Option<String>,
}

pub open spec fn access_usage() -> Seq<char> {
    "usage: co access request [--agent <id-or-name>] [--push] [--ttl <seconds>] [--reason <text>] <owner/repo>"@
}

/// The state of an `access request` argument scan.
pub struct AccessScan {
    pub agent: Option<Seq<char>>,
    pub push: bool,
    pub ttl: u64,
    pub reason: Option<Seq<char>>,
    pub spec: Option<Seq<char>>,
}

/// Scans `access request` arguments from position `i`: `--agent ID`,
/// `--push`, `--ttl SECONDS` (300 to 86400) and `--reason TEXT`, then one
/// repository.
pub open spec fn access_scan(args: Seq<Seq<char>>, i: int, st: AccessScan) -> Result<
    AccessScan,
    Seq<char>,
>
    decreases args.len() - i,
{
    if i < 0 || i >= args.len() {
        Ok(st)
    } else {
        let a = args[i];
        if a == "--agent"@ {
            if i + 1 >= args.len() {
                Err(a + " requires a value\n"@ + access_usage())
            } else {
                access_scan(args, i + 2, AccessScan { agent: Some(args[i + 1]), ..st })
            }
        } else if a == "--push"@ {
            access_scan(args, i + 1, AccessScan { push: true, ..st })
        } else if a == "--ttl"@ {
            if i + 1 >= args.len() {
                Err(a + " requires a value\n"@ + access_usage())
            } else {
                match parse_u64_text(args[i + 1]) {
                    Err(_) => Err("--ttl must be a number\n"@ + access_usage()),
                    Ok(ttl) => if ttl < 300 || ttl > 86400 {
                        Err("--ttl must be between 300 and 86400 seconds"@)
                    } else {
                        access_scan(args, i + 2, AccessScan { ttl, ..st })
                    },
                }
            }
        } else if a == "--reason"@ {
            if i + 1 >= args.len() {
                Err(a + " requires a value\n"@ + access_usage())
            } else {
                access_scan(args, i + 2, AccessScan { reason: Some(args[i + 1]), ..st })
            }
        } else if a.len() > 0 && a[0] == '-' {
            Err("unknown access option "@ + debug_quoted(a) + seq!['\n'] + access_usage())
        } else if st.spec is None {
            access_scan(args, i + 1, AccessScan { spec: Some(a), ..st })
        } else {
            Err(access_usage())
        }
    }
}

/// The view of a parsed access request: repository, agent, push, lifetime, reason.
pub type AccessRequestView = (Seq<char>, Option<Seq<char>>, bool, u64, Option<Seq<char>>);

/// What `co access request` makes of its arguments.
pub open spec fn access_request_result(args: Seq<Seq<char>>) -> Result<AccessRequestView, Seq<char>> {
    let init = AccessScan { agent: None, push: false, ttl: 3600, reason: None, spec: None };
    match access_scan(args, 0, init) {
        Err(e) => Err(e),
        Ok(st) => match st.spec {
            None => Err(access_usage()),
            Some(spec) => if repo_spec_parts(spec) is None {
                Err(repo_spec_error())
            } else if st.reason matches Some(reason) && reason.len() > 500 {
                Err("--reason must be 500 characters or fewer"@)
            } else {
                Ok((spec, st.agent, st.push, st.ttl, st.reason))
            },
        },
    }
}

pub open spec fn access_request_view(r: Result<AccessRequestCommand, String>) -> Result<
    AccessRequestView,
    Seq<char>,
> {
    match r {
        Ok(c) => Ok((c.spec@, opt_seq(c.agent), c.push, c.ttl_seconds, opt_seq(c.reason))),
        Err(e) => Err(e@),
    }
}

fn access_usage_string() -> (r: String)
    ensures
        r@ == access_usage(),
{
    owned(
        "usage: co access request [--agent <id-or-name>] [--push] [--ttl <seconds>] [--reason <text>] <owner/repo>",
    )
}

fn missing_value(option: &str) -> (r: String)
    ensures
        r@ == option@ + " requires a value\n"@ + access_usage(),
{
    let mut e = owned(option);
    append(&mut e, " requires a value\n");
    let u = access_usage_string();
    append(&mut e, u.as_str());
    e
}

/// Parses the arguments of `co access request`.
pub fn parse_access_request(args: &[String]) -> (r: Result<AccessRequestCommand, String>)
    ensures
        access_request_view(r) == access_request_result(texts(args@)),
        r matches Ok(c) ==> 300 <= c.ttl_seconds <= 86400,
{
    let ghost av = texts(args@);
    let mut agent: Option<String> = None;
    let mut push = false;
    let mut ttl_seconds: u64 = 3600;
    let mut reason: Option<String> = None;
    let mut spec: Option<String> = None;
    let mut index: usize = 0;
    let ghost init = AccessScan { agent: None, push: false, ttl: 3600, reason: None, spec: None };
    while index < args.len()
        invariant
            index <= args.len(),
            av == texts(args@),
            init == (AccessScan { agent: None, push: false, ttl: 3600, reason: None, spec: None }),
            300 <= ttl_seconds <= 86400,
            access_scan(
                av,
                index as int,
                AccessScan {
                    agent: opt_seq(agent),
                    push,
                    ttl: ttl_seconds,
                    reason: opt_seq(reason),
                    spec: opt_seq(spec),
                },
            ) == access_scan(av, 0, init),
        decreases args.len() - index,
    {
        let argument = args[index].as_str();
        assert(argument@ == av[index as int]);
        if str_eq(argument, "--agent") {
            index += 1;
            if index >= args.len() {
                return Err(missing_value(argument));
            }
            assert(args@[index as int]@ == av[index as int]);
            agent = Some(args[index].clone());
        } else if str_eq(argument, "--push") {
            push = true;
        } else if str_eq(argument, "--ttl") {
            index += 1;
            if index >= args.len() {
                return Err(missing_value(argument));
            }
            assert(args@[index as int]@ == av[index as int]);
            match parse_u64(args[index].as_str()) {
                Err(_) => {
                    let mut e = owned("--ttl must be a number\n");
                    let u = access_usage_string();
                    append(&mut e, u.as_str());
                    return Err(e);
                },
                Ok(ttl) => {
                    if ttl < 300 || ttl > 86400 {
                        return Err(owned("--ttl must be between 300 and 86400 seconds"));
                    }
                    ttl_seconds = ttl;
                },
            }
        } else if str_eq(argument, "--reason") {
            index += 1;
            if index >= args.len() {
                return Err(missing_value(argument));
            }
            assert(args@[index as int]@ == av[index as int]);
            reason = Some(args[index].clone());
        } else if {
            let v = chars_of(argument);
            v.len() > 0 && v[0] == '-'
        } {
            let mut e = owned("unknown access option ");
            let q = debug_quote(argument);
            append(&mut e, q.as_str());
            e.push('\n');
            let u = access_usage_string();
            append(&mut e, u.as_str());
            assert(e@ =~= "unknown access option "@ + debug_quoted(argument@) + seq!['\n']
                + access_usage());
            return Err(e);
        } else if spec.is_none() {
            spec = Some(owned(argument));
        } else {
            return Err(access_usage_string());
        }
        index += 1;
    }
    let spec = match spec {
        Some(s) => s,
        None => {
            return Err(access_usage_string());
        },
    };
    if repo_spec(spec.as_str()).is_err() {
        return Err(owned("repository must be written as <owner/repo>"));
    }
    let too_long = match &reason {
        Some(text) => text.as_str().unicode_len() > 500,
        None => false,
    };
    if too_long {
        return Err(owned("--reason must be 500 characters or fewer"));
    }
    Ok(AccessRequestCommand { spec, agent, push, ttl_seconds, reason })
}

pub open spec fn repo_create_usage() -> Seq<char> {
    "usage: co repo create [--public | --private] [--json] <[owner/]name>"@
}

pub fn repo_create_usage_string() -> (r: String)
    ensures
        r@ == repo_create_usage(),
{
    owned("usage: co repo create [--public | --private] [--json] <[owner/]name>")
}

/// A parsed `repo create` command.
#[derive(Debug, PartialEq, Eq)]
pub struct CreateRepoCommand {
    pub name: String,
    pub owner: Option<String>,
    pub visibility: &'static str,
    pub json: bool,
}

/// The state of a `repo create` argument scan.
pub struct CreateScan {
    pub spec: Option<Seq<char>>,
    pub visibility: Option<Seq<char>>,
    pub json: bool,
}

/// Scans `repo create` arguments from position `i`: `--public`/`--private`
/// (never both), `--json`, then one `[owner/]name`.
pub open spec fn create_scan(args: Seq<Seq<char>>, i: int, st: CreateScan) -> Result<
    CreateScan,
    Seq<char>,
>
    decreases args.len() - i,
{
    if i < 0 || i >= args.len() {
        Ok(st)
    } else {
        let a = args[i];
        if a == "--public"@ || a == "--private"@ {
            let selected = if a == "--public"@ {
                "public"@
            } else {
                "private"@
            };
            if st.visibility matches Some(previous) && previous != selected {
                Err("choose either --public or --private"@)
            } else {
                create_scan(args, i + 1, CreateScan { visibility: Some(selected), ..st })
            }
        } else if a == "--json"@ {
            create_scan(args, i + 1, CreateScan { json: true, ..st })
        } else if a.len() > 0 && a[0] == '-' {
            Err(
                "unknown repository creation option "@ + debug_quoted(a) + seq!['\n']
                    + repo_create_usage(),
            )
        } else if st.spec is None {
            create_scan(args, i + 1, CreateScan { spec: Some(a), ..st })
        } else {
            Err(repo_create_usage())
        }
    }
}

/// A name `POST /repos` accepts: 1-128 ASCII letters, digits, dots,
/// underscores or hyphens, not starting with `_` or `-`, not `.`, and without
/// consecutive dots.
pub open spec fn is_new_repo_name(s: Seq<char>) -> bool {
    &&& 1 <= s.len() <= 128
    &&& s != seq!['.']
    &&& !contains_text(s, ".."@)
    &&& forall|i: int|
        0 <= i < s.len() ==> is_ascii_alnum(#[trigger] s[i]) || s[i] == '.' || (i > 0 && (s[i]
            == '_' || s[i] == '-'))
}

pub open spec fn new_repo_name_error() -> Seq<char> {
    "repository name must contain 1-128 letters, numbers, dots, underscores, or hyphens; it cannot start with _ or -, equal ., or contain consecutive dots"@
}

/// The view of a parsed creation command: name, owner, visibility, JSON output.
pub type CreateRepoView = (Seq<char>, Option<Seq<char>>, Seq<char>, bool);

/// What `co repo create` makes of its arguments.
pub open spec fn repo_create_result(args: Seq<Seq<char>>) -> Result<CreateRepoView, Seq<char>> {
    match create_scan(args, 0, CreateScan { spec: None, visibility: None, json: false }) {
        Err(e) => Err(e),
        Ok(st) => match st.spec {
            None => Err(repo_create_usage()),
            Some(spec) => {
                let (owner, name) = match split_once(spec, '/') {
                    Some((owner, name)) => (Some(owner), name),
                    None => (None, spec),
                };
                if owner matches Some(o) && !is_owner_slug(o) {
                    Err(repo_spec_error())
                } else if !is_new_repo_name(name) {
                    Err(new_repo_name_error())
                } else {
                    Ok(
                        (
                            name,
                            owner,
                            match st.visibility {
                                Some(v) => v,
                                None => "private"@,
                            },
                            st.json,
                        ),
                    )
                }
            },
        },
    }
}

pub open spec fn create_repo_view(r: Result<CreateRepoCommand, String>) -> Result<
    CreateRepoView,
    Seq<char>,
> {
    match r {
        Ok(c) => Ok((c.name@, opt_seq(c.owner), c.visibility@, c.json)),
        Err(e) => Err(e@),
    }
}

fn new_repo_name_ok(v: &[char], from: usize) -> (r: bool)
    requires
        from <= v.len(),
    ensures
        r == is_new_repo_name(v@.skip(from as int)),
{
    let ghost s = v@.skip(from as int);
    let n = v.len() - from;
    if n < 1 || n > 128 {
        return false;
    }
    let dots = chars_of("..");
    let mut i: usize = from;
    while i < v.len()
        invariant
            from <= i <= v.len(),
            s == v@.skip(from as int),
            forall|j: int|
                0 <= j < i - from ==> is_ascii_alnum(#[trigger] s[j]) || s[j] == '.' || (j > 0 && (
                s[j] == '_' || s[j] == '-')),
        decreases v.len() - i,
    {
        let c = v[i];
        assert(c == s[i - from]);
        if !(('a' <= c && c <= 'z') || ('A' <= c && c <= 'Z') || ('0' <= c && c <= '9') || c
            == '.' || (i > from && (c == '_' || c == '-'))) {
            return false;
        }
        i += 1;
    }
    let mut name: Vec<char> = Vec::new();
    let mut k: usize = from;
    while k < v.len()
        invariant
            from <= k <= v.len(),
            name@ == v@.subrange(from as int, k as int),
        decreases v.len() - k,
    {
        name.push(v[k]);
        assert(v@.subrange(from as int, k as int).push(v@[k as int]) =~= v@.subrange(
            from as int,
            k + 1,
        ));
        k += 1;
    }
    assert(name@ =~= s);
    if name.len() == 1 && name[0] == '.' {
        assert(s =~= seq!['.']);
        return false;
    }
    if chars_contain(&name, &dots) {
        return false;
    }
    proof {
        if s == seq!['.'] {
            assert(name@.len() == 1 && name@[0] == '.');
        }
    }
    true
}

/// Parses the arguments of `co repo create`.
pub fn parse_repo_create(args: &[String]) -> (r: Result<CreateRepoCommand, String>)
    ensures
        create_repo_view(r) == repo_create_result(texts(args@)),
{
    let ghost av = texts(args@);
    let mut spec: Option<String> = None;
    let mut visibility: Option<&'static str> = None;
    let mut json = false;
    let mut index: usize = 0;
    let ghost init = CreateScan { spec: None, visibility: None, json: false };
    while index < args.len()
        invariant
            index <= args.len(),
            av == texts(args@),
            init == (CreateScan { spec: None, visibility: None, json: false }),
            visibility matches Some(v) ==> (v@ == "public"@ || v@ == "private"@),
            create_scan(
                av,
                index as int,
                CreateScan {
                    spec: opt_seq(spec),
                    visibility: match visibility {
                        Some(v) => Some(v@),
                        None => None,
                    },
                    json,
                },
            ) == create_scan(av, 0, init),
        decreases args.len() - index,
    {
        let argument = args[index].as_str();
        assert(argument@ == av[index as int]);
        let v = chars_of(argument);
        if str_eq(argument, "--public") || str_eq(argument, "--private") {
            let selected: &'static str = if str_eq(argument, "--public") {
                "public"
            } else {
                "private"
            };
            if let Some(previous) = visibility {
                if !str_eq(previous, selected) {
                    return Err(owned("choose either --public or --private"));
                }
            }
            visibility = Some(selected);
        } else if str_eq(argument, "--json") {
            json = true;
        } else if v.len() > 0 && v[0] == '-' {
            let mut e = owned("unknown repository creation option ");
            let q = debug_quote(argument);
            append(&mut e, q.as_str());
            e.push('\n');
            let u = repo_create_usage_string();
            append(&mut e, u.as_str());
            assert(e@ =~= "unknown repository creation option "@ + debug_quoted(argument@)
                + seq!['\n'] + repo_create_usage());
            return Err(e);
        } else if spec.is_none() {
            spec = Some(owned(argument));
        } else {
            return Err(repo_create_usage_string());
        }
        index += 1;
    }
    let spec = match spec {
        Some(s) => s,
        None => {
            return Err(repo_create_usage_string());
        },
    };
    let v = chars_of(spec.as_str());
    let (owner, name_start): (Option<String>, usize) = match first_index(&v, '/') {
        Some(slash) => {
            proof {
                lemma_split_once_at(spec@, '/', slash as int);
                assert(v@.subrange(0, slash as int) =~= spec@.take(slash as int));
            }
            if !owner_slug_ok(&v, 0, slash) {
                return Err(owned("repository must be written as <owner/repo>"));
            }
            (Some(slice_string(&v, 0, slash)), slash + 1)
        },
        None => (None, 0),
    };
    assert(v@.skip(0) =~= v@);
    if !new_repo_name_ok(&v, name_start) {
        return Err(
            owned(
                "repository name must contain 1-128 letters, numbers, dots, underscores, or hyphens; it cannot start with _ or -, equal ., or contain consecutive dots",
            ),
        );
    }
    let name = slice_string(&v, name_start, v.len());
    assert(name@ =~= v@.skip(name_start as int));
    let visibility: &'static str = match visibility {
        Some(v) => v,
        None => "private",
    };
    Ok(CreateRepoCommand { name, owner, visibility, json })
}

/// What `co` was asked to do.
#[derive(Debug, PartialEq, Eq)]
pub enum Route {
    Version,
    Help,
    Login,
    Logout,
    Whoami,
    Doctor,
    AgentRegister(String),
    AgentList,
    AgentAttest(Vec<String>),
    AccessRequest(Vec<String>),
    AccessWait(Option<String>),
    AccessView(String),
    GitCredential(String),
    RepoView(String),
    RepoCreateHelp,
    RepoCreate(CreateRepoCommand),
    Clone(Vec<String>),
    Link(Vec<String>),
    Machine(Vec<String>),
    Workflow(Vec<String>),
}

/// The view of a route.
pub enum RouteView {
    Version,
    Help,
    Login,
    Logout,
    Whoami,
    Doctor,
    AgentRegister(Seq<char>),
    AgentList,
    AgentAttest(Seq<Seq<char>>),
    AccessRequest(Seq<Seq<char>>),
    AccessWait(Option<Seq<char>>),
    AccessView(Seq<char>),
    GitCredential(Seq<char>),
    RepoView(Seq<char>),
    RepoCreateHelp,
    RepoCreate(CreateRepoView),
    Clone(Seq<Seq<char>>),
    Link(Seq<Seq<char>>),
    Machine(Seq<Seq<char>>),
    Workflow(Seq<Seq<char>>),
}

pub open spec fn route_view(r: Route) -> RouteView {
    match r {
        Route::Version => RouteView::Version,
        Route::Help => RouteView::Help,
        Route::Login => RouteView::Login,
        Route::Logout => RouteView::Logout,
        Route::Whoami => RouteView::Whoami,
        Route::Doctor => RouteView::Doctor,
        Route::AgentRegister(n) => RouteView::AgentRegister(n@),
        Route::AgentList => RouteView::AgentList,
        Route::AgentAttest(a) => RouteView::AgentAttest(texts(a@)),
        Route::AccessRequest(a) => RouteView::AccessRequest(texts(a@)),
        Route::AccessWait(id) => RouteView::AccessWait(opt_seq(id)),
        Route::AccessView(s) => RouteView::AccessView(s@),
        Route::GitCredential(op) => RouteView::GitCredential(op@),
        Route::RepoView(s) => RouteView::RepoView(s@),
        Route::RepoCreateHelp => RouteView::RepoCreateHelp,
        Route::RepoCreate(c) => RouteView::RepoCreate(
            (c.name@, opt_seq(c.owner), c.visibility@, c.json),
        ),
        Route::Clone(a) => RouteView::Clone(texts(a@)),
        Route::Link(a) => RouteView::Link(texts(a@)),
        Route::Machine(a) => RouteView::Machine(texts(a@)),
        Route::Workflow(a) => RouteView::Workflow(texts(a@)),
    }
}

pub open spec fn route_result_view(r: Result<Route, String>) -> Result<RouteView, Seq<char>> {
    match r {
        Ok(route) => Ok(route_view(route)),
        Err(e) => Err(e@),
    }
}

pub open spec fn is_help_flag(a: Seq<char>) -> bool {
    a == "--help"@ || a == "-h"@
}

/// How `co` dispatches its arguments. The first argument names the command
/// (`help` when there is none).
pub open spec fn route_result(args: Seq<Seq<char>>) -> Result<RouteView, Seq<char>> {
    let command = if args.len() == 0 {
        "help"@
    } else {
        args[0]
    };
    let second: Option<Seq<char>> = if args.len() > 1 {
        Some(args[1])
    } else {
        None
    };
    if command == "version"@ || command == "--version"@ || command == "-V"@ {
        Ok(RouteView::Version)
    } else if command == "help"@ || command == "--help"@ || command == "-h"@ {
        Ok(RouteView::Help)
    } else if command == "login"@ {
        Ok(RouteView::Login)
    } else if command == "logout"@ {
        Ok(RouteView::Logout)
    } else if command == "whoami"@ {
        Ok(RouteView::Whoami)
    } else if command == "doctor"@ {
        Ok(RouteView::Doctor)
    } else if command == "agent"@ && second == Some("register"@) && args.len() == 3 {
        Ok(RouteView::AgentRegister(args[2]))
    } else if command == "agent"@ && second == Some("list"@) && args.len() == 2 {
        Ok(RouteView::AgentList)
    } else if command == "agent"@ && second == Some("attest"@) {
        Ok(RouteView::AgentAttest(args.skip(2)))
    } else if command == "access"@ && second == Some("request"@) {
        Ok(RouteView::AccessRequest(args.skip(2)))
    } else if command == "access"@ && second == Some("wait"@) && args.len() <= 3 {
        Ok(
            RouteView::AccessWait(
                if args.len() == 3 {
                    Some(args[2])
                } else {
                    None
                },
            ),
        )
    } else if command == "access"@ && second == Some("view"@) && args.len() == 3 {
        Ok(RouteView::AccessView(args[2]))
    } else if command == "git-credential"@ && args.len() == 2 {
        Ok(RouteView::GitCredential(args[1]))
    } else if command == "git-credential"@ {
        Err("usage: co git-credential get|store|erase"@)
    } else if command == "repo"@ && second == Some("view"@) {
        if args.len() > 2 {
            Ok(RouteView::RepoView(args[2]))
        } else {
            Err("usage: co repo view <owner/repo>"@)
        }
    } else if command == "repo"@ && second == Some("create"@) {
        if exists|i: int| 2 <= i < args.len() && is_help_flag(#[trigger] args[i]) {
            Ok(RouteView::RepoCreateHelp)
        } else {
            match repo_create_result(args.skip(2)) {
                Ok(c) => Ok(RouteView::RepoCreate(c)),
                Err(e) => Err(e),
            }
        }
    } else if command == "clone"@ {
        Ok(RouteView::Clone(args.skip(1)))
    } else if command == "link"@ {
        Ok(RouteView::Link(args.skip(1)))
    } else if command == "machine"@ {
        Ok(RouteView::Machine(args.skip(1)))
    } else if command == "workflow"@ {
        Ok(RouteView::Workflow(args.skip(1)))
    } else if command == "repo"@ {
        Err("usage: co repo view <owner/repo>\n"@ + repo_create_usage())
    } else if command == "agent"@ {
        Err(
            "usage: co agent register <name> | co agent list | co agent attest <owner/repo> <full-commit-id>..."@,
        )
    } else if command == "access"@ {
        Err("usage: co access request|wait|view"@)
    } else {
        Err("unknown command "@ + debug_quoted(command) + " (try: co help)"@)
    }
}

/// The arguments from position `from` on.
pub fn args_from(args: &[String], from: usize) -> (r: Vec<String>)
    requires
        from <= args.len(),
    ensures
        texts(r@) == texts(args@).skip(from as int),
{
    let mut r: Vec<String> = Vec::new();
    let mut i = from;
    while i < args.len()
        invariant
            from <= i <= args.len(),
            texts(r@) == texts(args@).subrange(from as int, i as int),
        decreases args.len() - i,
    {
        let ghost before = r@;
        r.push(args[i].clone());
        assert(texts(r@) =~= texts(before).push(args@[i as int]@));
        assert(texts(args@).subrange(from as int, i as int).push(texts(args@)[i as int])
            =~= texts(args@).subrange(from as int, i + 1));
        i += 1;
    }
    assert(texts(args@).subrange(from as int, args.len() as int) =~= texts(args@).skip(
        from as int,
    ));
    r
}

fn arg_is(args: &[String], i: usize, text: &str) -> (r: bool)
    ensures
        r == (i < args@.len() && args@[i as int]@ == text@),
{
    i < args.len() && str_eq(args[i].as_str(), text)
}

/// Decides which command the arguments ask for.
pub fn route(args: &[String]) -> (r: Result<Route, String>)
    ensures
        route_result_view(r) == route_result(texts(args@)),
{
    let ghost av = texts(args@);
    let command: &str = if args.len() == 0 {
        "help"
    } else {
        args[0].as_str()
    };
    assert(args.len() > 0 ==> command@ == av[0]);
    assert(forall|i: int| 0 <= i < args.len() ==> av[i] == (#[trigger] args@[i])@);
    let n = args.len();
    if str_eq(command, "version") || str_eq(command, "--version") || str_eq(command, "-V") {
        Ok(Route::Version)
    } else if str_eq(command, "help") || str_eq(command, "--help") || str_eq(command, "-h") {
        Ok(Route::Help)
    } else if str_eq(command, "login") {
        Ok(Route::Login)
    } else if str_eq(command, "logout") {
        Ok(Route::Logout)
    } else if str_eq(command, "whoami") {
        Ok(Route::Whoami)
    } else if str_eq(command, "doctor") {
        Ok(Route::Doctor)
    } else if str_eq(command, "agent") && arg_is(args, 1, "register") && n == 3 {
        Ok(Route::AgentRegister(args[2].clone()))
    } else if str_eq(command, "agent") && arg_is(args, 1, "list") && n == 2 {
        Ok(Route::AgentList)
    } else if str_eq(command, "agent") && arg_is(args, 1, "attest") {
        Ok(Route::AgentAttest(args_from(args, 2)))
    } else if str_eq(command, "access") && arg_is(args, 1, "request") {
        Ok(Route::AccessRequest(args_from(args, 2)))
    } else if str_eq(command, "access") && arg_is(args, 1, "wait") && n <= 3 {
        Ok(
            Route::AccessWait(
                if n == 3 {
                    Some(args[2].clone())
                } else {
                    None
                },
            ),
        )
    } else if str_eq(command, "access") && arg_is(args, 1, "view") && n == 3 {
        Ok(Route::AccessView(args[2].clone()))
    } else if str_eq(command, "git-credential") && n == 2 {
        Ok(Route::GitCredential(args[1].clone()))
    } else if str_eq(command, "git-credential") {
        Err(owned("usage: co git-credential get|store|erase"))
    } else if str_eq(command, "repo") && arg_is(args, 1, "view") {
        match required_arg(args, 2, "usage: co repo view <owner/repo>") {
            Ok(spec) => Ok(Route::RepoView(owned(spec))),
            Err(e) => Err(e),
        }
    } else if str_eq(command, "repo") && arg_is(args, 1, "create") {
        let mut i: usize = 2;
        let mut help = false;
        while i < n
            invariant
                2 <= i <= n == args.len(),
                av == texts(args@),
                !help ==> forall|j: int| 2 <= j < i ==> !is_help_flag(#[trigger] av[j]),
                help ==> exists|j: int| 2 <= j < n && is_help_flag(#[trigger] av[j]),
            decreases n - i,
        {
            if str_eq(args[i].as_str(), "--help") || str_eq(args[i].as_str(), "-h") {
                assert(is_help_flag(av[i as int]));
                help = true;
            }
            i += 1;
        }
        if help {
            Ok(Route::RepoCreateHelp)
        } else {
            let rest = args_from(args, 2);
            match parse_repo_create(rest.as_slice()) {
                Ok(c) => Ok(Route::RepoCreate(c)),
                Err(e) => Err(e),
            }
        }
    } else if str_eq(command, "clone") {
        Ok(Route::Clone(args_from(args, 1)))
    } else if str_eq(command, "link") {
        Ok(Route::Link(args_from(args, 1)))
    } else if str_eq(command, "machine") {
        Ok(Route::Machine(args_from(args, 1)))
    } else if str_eq(command, "workflow") {
        Ok(Route::Workflow(args_from(args, 1)))
    } else if str_eq(command, "repo") {
        let mut e = owned("usage: co repo view <owner/repo>\n");
        let u = repo_create_usage_string();
        append(&mut e, u.as_str());
        Err(e)
    } else if str_eq(command, "agent") {
        Err(
            owned(
                "usage: co agent register <name> | co agent list | co agent attest <owner/repo> <full-commit-id>...",
            ),
        )
    } else if str_eq(command, "access") {
        Err(owned("usage: co access request|wait|view"))
    } else {
        let mut e = owned("unknown command ");
        let q = debug_quote(command);
        append(&mut e, q.as_str());
        append(&mut e, " (try: co help)");
        Err(e)
    }
}

/// Whether `a` looks like an option.
pub open spec fn option_like(a: Seq<char>) -> bool {
    a.len() > 0 && a[0] == '-'
}

proof fn lemma_option_literals()
    ensures
        option_like("--"@),
        option_like("--jj"@),
        option_like("--no-jj"@),
        option_like("-u"@),
        option_like("--set-upstream-name"@),
        option_like("--agent"@),
        option_like("--push"@),
        option_like("--ttl"@),
        option_like("--reason"@),
        option_like("--public"@),
        option_like("--private"@),
        option_like("--json"@),
        "--set-upstream-name="@.len() > 0 && "--set-upstream-name="@[0] == '-',
        "--public"@ != "--private"@,
        "public"@ != "private"@,
{
    reveal_strlit("--");
    reveal_strlit("--jj");
    reveal_strlit("--no-jj");
    reveal_strlit("-u");
    reveal_strlit("--set-upstream-name");
    reveal_strlit("--set-upstream-name=");
    reveal_strlit("--agent");
    reveal_strlit("--push");
    reveal_strlit("--ttl");
    reveal_strlit("--reason");
    reveal_strlit("--public");
    reveal_strlit("--private");
    reveal_strlit("--json");
    reveal_strlit("public");
    reveal_strlit("private");
    assert("--public"@[3] != "--private"@[3]);
    assert("public"@[1] != "private"@[1]);
}

proof fn lemma_repo_scan_keeps_settings(
    args: Seq<Seq<char>>,
    i: int,
    st: RepoScan,
    allows_directory: bool,
)
    requires
        0 <= i,
        forall|j: int| 0 <= j < args.len() ==> !option_like(#[trigger] args[j]),
    ensures
        repo_scan(args, i, st, allows_directory) matches Ok(end) ==> end.upstream == st.upstream
            && end.jj == st.jj,
    decreases args.len() - i,
{
    lemma_option_literals();
    if i < args.len() {
        let a = args[i];
        assert(!option_like(a));
        if starts_with(a, "--set-upstream-name="@) {
            assert(a[0] == "--set-upstream-name="@[0]);
        }
        lemma_repo_scan_keeps_settings(
            args,
            i + 1,
            RepoScan { positionals: st.positionals.push(a), ..st },
            allows_directory,
        );
    }
}

/// Without options on the command line, `clone` and `link` take the remote
/// name and jj setup from the configuration (`origin` and no jj by default).
pub proof fn law_repo_command_uses_config_defaults(
    args: Seq<Seq<char>>,
    allows_directory: bool,
    config_upstream: Option<Seq<char>>,
    config_jj: bool,
)
    requires
        forall|j: int| 0 <= j < args.len() ==> !option_like(#[trigger] args[j]),
    ensures
        repo_command_result(args, allows_directory, config_upstream, config_jj) matches Ok(c)
            ==> c.2 == (match config_upstream {
            Some(u) => u,
            None => "origin"@,
        }) && c.3 == config_jj,
{
    let init = RepoScan {
        upstream: match config_upstream {
            Some(u) => u,
            None => "origin"@,
        },
        jj: config_jj,
        positionals: Seq::empty(),
        options: true,
    };
    lemma_repo_scan_keeps_settings(args, 0, init, allows_directory);
}

/// Whether `a` occurs among `args` from position `i` on.
pub open spec fn occurs_from(args: Seq<Seq<char>>, i: int, a: Seq<char>) -> bool {
    exists|j: int| i <= j < args.len() && args[j] == a
}

proof fn lemma_create_scan_conflict(args: Seq<Seq<char>>, i: int, st: CreateScan)
    requires
        0 <= i,
        ({
            ||| occurs_from(args, i, "--public"@) && occurs_from(args, i, "--private"@)
            ||| st.visibility == Some("public"@) && occurs_from(args, i, "--private"@)
            ||| st.visibility == Some("private"@) && occurs_from(args, i, "--public"@)
        }),
    ensures
        create_scan(args, i, st) is Err,
    decreases args.len() - i,
{
    lemma_option_literals();
    let a = args[i];
    if a == "--public"@ || a == "--private"@ {
        let selected = if a == "--public"@ {
            "public"@
        } else {
            "private"@
        };
        if !(st.visibility matches Some(previous) && previous != selected) {
            let next = CreateScan { visibility: Some(selected), ..st };
            if a == "--public"@ {
                let j = choose|j: int|
                    i <= j < args.len() && args[j] == "--private"@;
                assert(j != i);
                assert(occurs_from(args, i + 1, "--private"@));
            } else {
                let j = choose|j: int| i <= j < args.len() && args[j] == "--public"@;
                assert(j != i);
                assert(occurs_from(args, i + 1, "--public"@));
            }
            lemma_create_scan_conflict(args, i + 1, next);
        }
    } else if a == "--json"@ {
        assert(occurs_from(args, i + 1, "--public"@) || !occurs_from(args, i, "--public"@));
        if occurs_from(args, i, "--public"@) {
            let j = choose|j: int| i <= j < args.len() && args[j] == "--public"@;
            assert(j != i);
        }
        if occurs_from(args, i, "--private"@) {
            let j = choose|j: int| i <= j < args.len() && args[j] == "--private"@;
            assert(j != i);
            assert(occurs_from(args, i + 1, "--private"@));
        }
        lemma_create_scan_conflict(args, i + 1, CreateScan { json: true, ..st });
    } else if option_like(a) {
    } else if st.spec is None {
        if occurs_from(args, i, "--public"@) {
            let j = choose|j: int| i <= j < args.len() && args[j] == "--public"@;
            assert(j != i);
            assert(occurs_from(args, i + 1, "--public"@));
        }
        if occurs_from(args, i, "--private"@) {
            let j = choose|j: int| i <= j < args.len() && args[j] == "--private"@;
            assert(j != i);
            assert(occurs_from(args, i + 1, "--private"@));
        }
        lemma_create_scan_conflict(args, i + 1, CreateScan { spec: Some(a), ..st });
    }
}

/// Asking for both `--public` and `--private` is always refused, in either order.
pub proof fn law_repo_create_rejects_both_visibilities(args: Seq<Seq<char>>)
    requires
        args.contains("--public"@),
        args.contains("--private"@),
    ensures
        repo_create_result(args) is Err,
{
    let p = choose|j: int| 0 <= j < args.len() && args[j] == "--public"@;
    let q = choose|j: int| 0 <= j < args.len() && args[j] == "--private"@;
    assert(occurs_from(args, 0, "--public"@));
    assert(occurs_from(args, 0, "--private"@));
    lemma_create_scan_conflict(args, 0, CreateScan { spec: None, visibility: None, json: false });
}

proof fn lemma_create_scan_keeps_visibility(args: Seq<Seq<char>>, i: int, st: CreateScan)
    requires
        0 <= i,
        !args.contains("--public"@),
        !args.contains("--private"@),
    ensures
        create_scan(args, i, st) matches Ok(end) ==> end.visibility == st.visibility,
    decreases args.len() - i,
{
    if 0 <= i < args.len() {
        let a = args[i];
        assert(a != "--public"@ && a != "--private"@) by {
            if a == "--public"@ {
                assert(args.contains("--public"@));
            }
            if a == "--private"@ {
                assert(args.contains("--private"@));
            }
        }
        lemma_create_scan_keeps_visibility(args, i + 1, CreateScan { json: true, ..st });
        lemma_create_scan_keeps_visibility(args, i + 1, CreateScan { spec: Some(a), ..st });
    }
}

/// A repository is created private unless `--public` or `--private` is given.
pub proof fn law_repo_create_defaults_to_private(args: Seq<Seq<char>>)
    requires
        !args.contains("--public"@),
        !args.contains("--private"@),
    ensures
        repo_create_result(args) matches Ok(c) ==> c.2 == "private"@,
{
    lemma_create_scan_keeps_visibility(
        args,
        0,
        CreateScan { spec: None, visibility: None, json: false },
    );
}

proof fn lemma_access_scan_keeps_ttl(args: Seq<Seq<char>>, i: int, st: AccessScan)
    requires
        0 <= i,
        !args.contains("--ttl"@),
    ensures
        access_scan(args, i, st) matches Ok(end) ==> end.ttl == st.ttl,
    decreases args.len() - i,
{
    if 0 <= i < args.len() {
        let a = args[i];
        assert(a != "--ttl"@) by {
            if a == "--ttl"@ {
                assert(args.contains("--ttl"@));
            }
        }
        if i + 1 < args.len() {
            lemma_access_scan_keeps_ttl(args, i + 2, AccessScan { agent: Some(args[i + 1]), ..st });
            lemma_access_scan_keeps_ttl(
                args,
                i + 2,
                AccessScan { reason: Some(args[i + 1]), ..st },
            );
        }
        lemma_access_scan_keeps_ttl(args, i + 1, AccessScan { push: true, ..st });
        lemma_access_scan_keeps_ttl(args, i + 1, AccessScan { spec: Some(a), ..st });
    }
}

/// Without `--ttl`, an access request asks for one hour.
pub proof fn law_access_request_defaults_to_one_hour(args: Seq<Seq<char>>)
    requires
        !args.contains("--ttl"@),
    ensures
        access_request_result(args) matches Ok(c) ==> c.3 == 3600,
{
    lemma_access_scan_keeps_ttl(
        args,
        0,
        AccessScan { agent: None, push: false, ttl: 3600, reason: None, spec: None },
    );
}


/// Position `k` is one that the `access request` scan, started at `i`, reads
/// as an option or the repository: the values that follow `--agent`,
/// `--ttl` and `--reason` are skipped.
pub open spec fn access_reads_at(args: Seq<Seq<char>>, i: int, k: int) -> bool
    decreases args.len() - i,
{
    if i < 0 || i >= args.len() || k < i {
        false
    } else if i == k {
        true
    } else if args[i] == "--agent"@ || args[i] == "--ttl"@ || args[i] == "--reason"@ {
        i + 1 < args.len() && access_reads_at(args, i + 2, k)
    } else {
        access_reads_at(args, i + 1, k)
    }
}

proof fn lemma_access_scan_keeps_push(args: Seq<Seq<char>>, i: int, st: AccessScan, push: bool)
    requires
        0 <= i,
        st.push == push,
        push || !args.contains("--push"@),
    ensures
        access_scan(args, i, st) matches Ok(end) ==> end.push == push,
    decreases args.len() - i,
{
    if 0 <= i < args.len() {
        let a = args[i];
        if !push {
            assert(a != "--push"@) by {
                if a == "--push"@ {
                    assert(args.contains("--push"@));
                }
            }
        }
        if i + 1 < args.len() {
            lemma_access_scan_keeps_push(args, i + 2, AccessScan { agent: Some(args[i + 1]), ..st }, push);
            lemma_access_scan_keeps_push(args, i + 2, AccessScan { reason: Some(args[i + 1]), ..st }, push);
            match parse_u64_text(args[i + 1]) {
                Ok(ttl) => {
                    lemma_access_scan_keeps_push(args, i + 2, AccessScan { ttl, ..st }, push);
                },
                Err(_) => {},
            }
        }
        if push {
            lemma_access_scan_keeps_push(args, i + 1, AccessScan { push: true, ..st }, push);
        }
        lemma_access_scan_keeps_push(args, i + 1, AccessScan { spec: Some(a), ..st }, push);
    }
}

proof fn lemma_access_push_option(args: Seq<Seq<char>>, i: int, k: int, st: AccessScan)
    requires
        access_reads_at(args, i, k),
        0 <= k < args.len(),
        args[k] == "--push"@,
    ensures
        access_scan(args, i, st) matches Ok(end) ==> end.push,
    decreases args.len() - i,
{
    let a = args[i];
    reveal_strlit("--agent");
    reveal_strlit("--push");
    reveal_strlit("--ttl");
    reveal_strlit("--reason");
    if i == k {
        let next = AccessScan { push: true, ..st };
        lemma_access_scan_keeps_push(args, i + 1, next, true);
        assert(access_scan(args, i, st) == access_scan(args, i + 1, next));
    } else if a == "--agent"@ {
        lemma_access_push_option(args, i + 2, k, AccessScan { agent: Some(args[i + 1]), ..st });
    } else if a == "--reason"@ {
        lemma_access_push_option(args, i + 2, k, AccessScan { reason: Some(args[i + 1]), ..st });
    } else if a == "--ttl"@ {
        match parse_u64_text(args[i + 1]) {
            Ok(ttl) => {
                lemma_access_push_option(args, i + 2, k, AccessScan { ttl, ..st });
            },
            Err(_) => {},
        }
    } else if a == "--push"@ {
        let next = AccessScan { push: true, ..st };
        lemma_access_push_option(args, i + 1, k, next);
        assert(access_scan(args, i, st) == access_scan(args, i + 1, next));
    } else if a.len() > 0 && a[0] == '-' {
    } else if st.spec is None {
        let next = AccessScan { spec: Some(a), ..st };
        lemma_access_push_option(args, i + 1, k, next);
        assert(access_scan(args, i, st) == access_scan(args, i + 1, next));
    }
}

/// `--push` asks for pull and push wherever it stands among the options,
/// before or after `--agent`; without `--push`, only pull is asked for.
pub proof fn law_access_request_push_option(args: Seq<Seq<char>>, k: int)
    ensures
        0 <= k < args.len() && access_reads_at(args, 0, k) && args[k] == "--push"@ ==> (access_request_result(args) matches Ok(
            c,
        ) ==> c.2),
        !args.contains("--push"@) ==> (access_request_result(args) matches Ok(c) ==> !c.2),
{
    let init = AccessScan { agent: None, push: false, ttl: 3600, reason: None, spec: None };
    if 0 <= k < args.len() && access_reads_at(args, 0, k) && args[k] == "--push"@ {
        lemma_access_push_option(args, 0, k, init);
    }
    if !args.contains("--push"@) {
        lemma_access_scan_keeps_push(args, 0, init, false);
    }
}


/// `co repo create NAME` accepts every name of 1-128 ASCII letters of either
/// case and digits, with hyphens and underscores after the first character,
/// and creates it private, in the personal namespace, without JSON output.
pub proof fn law_repo_create_accepts_plain_names(name: Seq<char>)
    requires
        1 <= name.len() <= 128,
        forall|i: int|
            0 <= i < name.len() ==> ('a' <= #[trigger] name[i] && name[i] <= 'z') || ('A'
                <= name[i] && name[i] <= 'Z') || ('0' <= name[i] && name[i] <= '9') || (i > 0 && (
            name[i] == '-' || name[i] == '_')),
    ensures
        repo_create_result(seq![name]) == Ok::<CreateRepoView, Seq<char>>(
            (name, None, "private"@, false),
        ),
{
    reveal_strlit("--public");
    reveal_strlit("--private");
    reveal_strlit("--json");
    reveal_strlit("..");
    let args = seq![name];
    let init = CreateScan { spec: None, visibility: None, json: false };
    assert(name[0] != '-');
    assert(name != "--public"@ && name != "--private"@ && name != "--json"@) by {
        assert("--public"@[0] == '-');
        assert("--private"@[0] == '-');
        assert("--json"@[0] == '-');
    }
    let next = CreateScan { spec: Some(name), ..init };
    assert(create_scan(args, 0, init) == create_scan(args, 1, next));
    assert(create_scan(args, 1, next) == Ok::<CreateScan, Seq<char>>(next));
    assert(!name.contains('/')) by {
        if name.contains('/') {
            let k = choose|k: int| 0 <= k < name.len() && name[k] == '/';
            assert(name[k] == '/');
        }
    }
    assert(split_once(name, '/') is None);
    assert(!contains_text(name, ".."@)) by {
        if contains_text(name, ".."@) {
            let k = choose|k: int| occurs_at(name, ".."@, k);
            assert(name.subrange(k, k + 2)[0] == name[k]);
            assert(name[k] == '.');
        }
    }
    assert(name != seq!['.']) by {
        if name == seq!['.'] {
            assert(name[0] == '.');
        }
    }
    assert(is_new_repo_name(name));
}

} // verus!
