use vstd::prelude::*;
use vstd::string::StrSliceExecFns;
use vstd::string::StringExecFns;
use crate::environment::VarEnv;
use crate::errors::SyncError;
use crate::template::parse_path_expr;
use crate::template::eval_expr;
use crate::template::parse_expr;
use crate::template::EvalOutcome;

verus! {

/// The remote half of the destination: `user@host`.
pub open spec fn spec_remote(user: Seq<char>, host: Seq<char>) -> Seq<char> {
    user + seq!['@'] + host
}

/// The directory text with every trailing separator removed.
pub open spec fn strip_trailing_separators(dir: Seq<char>) -> Seq<char>
    decreases dir.len(),
{
    if dir.len() > 0 && dir.last() == '/' {
        strip_trailing_separators(dir.drop_last())
    } else {
        dir
    }
}

/// What remains after stripping never ends in a separator.
pub proof fn lemma_strip_trailing_separators(dir: Seq<char>)
    ensures
        strip_trailing_separators(dir).len() > 0 ==> strip_trailing_separators(dir).last() != '/',
    decreases dir.len(),
{
    if dir.len() > 0 && dir.last() == '/' {
        lemma_strip_trailing_separators(dir.drop_last());
    }
}

/// The destination handed to the external tool: `remote:dir/`, with any
/// trailing separators of the evaluated directory stripped first, so the
/// one appended separator is exactly one. It tells the tool to place
/// contents inside the directory instead of creating a nested copy.
pub open spec fn spec_destination(remote: Seq<char>, dir: Seq<char>) -> Seq<char> {
    remote + seq![':'] + strip_trailing_separators(dir) + seq!['/']
}

/// Renders `user@host`.
pub fn format_remote(user: &String, host: &String) -> (r: String)
    ensures
        r@ == spec_remote(user@, host@),
{
    let mut out = user.clone();
    out.append("@");
    out.append(host.as_str());
    proof {
        reveal_strlit("@");
        assert("@"@ =~= seq!['@']);
    }
    out
}

/// Renders `remote:dir/`, stripping the directory's own trailing
/// separators and appending exactly one.
pub fn format_destination(remote: &String, dir: &String) -> (r: String)
    ensures
        r@ == spec_destination(remote@, dir@),
{
    let m: usize = dir.as_str().unicode_len();
    let mut j: usize = m;
    proof {
        assert(dir@.take(m as int) =~= dir@);
    }
    while j > 0 && dir.as_str().get_char(j - 1) == '/'
        invariant
            m == dir@.len(),
            j <= m,
            strip_trailing_separators(dir@) == strip_trailing_separators(dir@.take(j as int)),
        decreases j,
    {
        proof {
            let t = dir@.take(j as int);
            assert(t.last() == dir@[j as int - 1]);
            assert(t.drop_last() =~= dir@.take(j as int - 1));
        }
        j -= 1;
    }
    proof {
        assert(strip_trailing_separators(dir@.take(j as int)) == dir@.take(j as int));
    }
    let stripped = dir.as_str().substring_char(0, j);
    let mut out = remote.clone();
    out.append(":");
    out.append(stripped);
    out.append("/");
    proof {
        reveal_strlit(":");
        reveal_strlit("/");
        assert(":"@ =~= seq![':']);
        assert("/"@ =~= seq!['/']);
        assert(dir@.subrange(0, j as int) =~= dir@.take(j as int));
    }
    out
}

/// Law: the rendered destination always ends in exactly one trailing
/// separator — `user@host:path/`, never `user@host:path` and never a
/// doubled `user@host:path//` — and dropping that final separator gives
/// back exactly `remote:` and the stripped directory.
pub proof fn lemma_destination_trailing_separator(remote: Seq<char>, dir: Seq<char>)
    ensures
        spec_destination(remote, dir).len() >= 2,
        spec_destination(remote, dir).last() == '/',
        spec_destination(remote, dir)[spec_destination(remote, dir).len() - 2] != '/',
        spec_destination(remote, dir).take(spec_destination(remote, dir).len() - 1) == remote
            + seq![':'] + strip_trailing_separators(dir),
{
    lemma_strip_trailing_separators(dir);
    let d = spec_destination(remote, dir);
    let stripped = strip_trailing_separators(dir);
    assert(d.take(d.len() - 1) =~= remote + seq![':'] + stripped);
    if stripped.len() > 0 {
        assert(d[d.len() - 2] == stripped.last());
    } else {
        assert(d[d.len() - 2] == ':');
    }
}

/// How a source path joins the evaluated base: an absolute path stands
/// alone; otherwise it is appended to the base with a single separator
/// added only where the base does not already end in one.
pub open spec fn spec_join(base: Seq<char>, path: Seq<char>) -> Seq<char> {
    if path.len() > 0 && path[0] == '/' {
        path
    } else if base.len() == 0 {
        path
    } else if base.last() == '/' {
        base + path
    } else {
        base + seq!['/'] + path
    }
}

/// Joins a sync entry's source path onto the evaluated base path, as
/// [`spec_join`] describes.
pub fn resolve_source_path(path: &String, base: &String) -> (r: String)
    ensures
        r@ == spec_join(base@, path@),
{
    let n: usize = path.as_str().unicode_len();
    if n > 0 && path.as_str().get_char(0) == '/' {
        return path.clone();
    }
    let bn: usize = base.as_str().unicode_len();
    if bn == 0 {
        return path.clone();
    }
    let mut out = base.clone();
    if base.as_str().get_char(bn - 1) != '/' {
        out.append("/");
    }
    out.append(path.as_str());
    proof {
        reveal_strlit("/");
        assert("/"@ =~= seq!['/']);
    }
    out
}

/// Resolves one sync entry's source directory. An absolute path stands as
/// it is, and the base expression is not evaluated at all; a relative path
/// is joined onto the evaluated base, failing as the base expression's
/// parse or evaluation fails.
pub fn resolve_source(path: &String, relative_to: &String, env: &VarEnv) -> (r: Result<
    String,
    SyncError,
>)
    ensures
        path@.len() > 0 && path@[0] == '/' ==> (r matches Ok(p) && p@ == path@),
        !(path@.len() > 0 && path@[0] == '/') ==> match parse_expr(relative_to@) {
            None => r matches Err(SyncError::MalformedExpression),
            Some(expr) => match eval_expr(expr, env@) {
                EvalOutcome::Undefined(n) => r matches Err(SyncError::UndefinedVariable(m)) && m@
                    == n,
                EvalOutcome::Done(base) => r matches Ok(p) && p@ == spec_join(base, path@),
            },
        },
{
    let n: usize = path.as_str().unicode_len();
    if n > 0 && path.as_str().get_char(0) == '/' {
        return Ok(path.clone());
    }
    let expr = match parse_path_expr(relative_to.as_str()) {
        Ok(expr) => expr,
        Err(e) => {
            return Err(e);
        },
    };
    let base = match expr.eval(env) {
        Ok(base) => base,
        Err(e) => {
            return Err(e);
        },
    };
    Ok(resolve_source_path(path, &base))
}

/// The argument list of one transfer invocation: the fixed archive,
/// verbose and compress flags, the tool's own dry-run flag when asked
/// for, then the source path and the destination.
pub open spec fn spec_sync_args(
    rsync_dry_run: bool,
    source: Seq<char>,
    destination: Seq<char>,
) -> Seq<Seq<char>> {
    let flags = if rsync_dry_run {
        seq!["--archive"@, "--verbose"@, "--compress"@, "--dry-run"@]
    } else {
        seq!["--archive"@, "--verbose"@, "--compress"@]
    };
    flags + seq![source, destination]
}

/// What the run does for one discovered file: the full argument list for
/// the external tool, and whether the tool is executed at all.
pub struct InvocationPlan {
    pub args: Vec<String>,
    pub execute: bool,
}

/// Plans the handling of one discovered file. In program dry-run mode the
/// command is only rendered, never executed; otherwise it is executed
/// exactly as rendered.
pub fn plan_invocation(
    dry_run: bool,
    rsync_dry_run: bool,
    source: &String,
    destination: &String,
) -> (p: InvocationPlan)
    ensures
        p.execute == !dry_run,
        p.args@.map_values(|s: String| s@) == spec_sync_args(rsync_dry_run, source@, destination@),
{
    let mut args: Vec<String> = Vec::new();
    args.push(String::from_str("--archive"));
    args.push(String::from_str("--verbose"));
    args.push(String::from_str("--compress"));
    if rsync_dry_run {
        args.push(String::from_str("--dry-run"));
    }
    args.push(source.clone());
    args.push(destination.clone());
    proof {
        assert(args@.map_values(|s: String| s@) =~= spec_sync_args(
            rsync_dry_run,
            source@,
            destination@,
        ));
    }
    InvocationPlan { args, execute: !dry_run }
}

/// Reads the external tool's ending: an exit code is reported back as the
/// tool's own outcome, whatever its value; a missing code is a fatal
/// error of the run itself.
pub fn interpret_exit_code(code: Option<i32>) -> (r: Result<i32, SyncError>)
    ensures
        match code {
            Some(c) => r matches Ok(rc) && rc == c,
            None => r matches Err(e) && e matches SyncError::MissingExitCode,
        },
{
    match code {
        Some(c) => Ok(c),
        None => Err(SyncError::MissingExitCode),
    }
}

} // verus!
