//! The variable resolver: expands a path template into a concrete path.
//!
//! Resolution has three steps. First, OS-style `%NAME%` references are
//! expanded from the environment table; a missing variable fails with
//! `DirNotFound`. Second, bracketed logical variables from a fixed set —
//! `<home>`, `<osUserName>`, `<root>`, `<game>`, `<base>` and the platform
//! special folders — are substituted from the resolver context; `<game>`
//! and `<base>` require game context and otherwise fail with
//! `UnimplementedVar`, and a special folder the context lacks fails with
//! `DirNotFound`. Third, if a `<...>` token remains, resolution fails with
//! `UnknownVariable` naming the leftmost unresolved token.
//!
//! The component touches no filesystem: every environment value and special
//! folder is handed in through [`ResolverCtx`].

use vstd::prelude::*;
use vstd::string::StringExecFns;
use crate::backup::Game;
use crate::backup::assoc_lookup;
use crate::backup::sanitize_windows_path_component;
use crate::backup::sanitized_component;
use crate::config::Config;
use crate::strutil::chars_to_string;
use crate::strutil::extend_chars;
use crate::strutil::find_char_from;
use crate::strutil::find_idx;
use crate::strutil::lemma_find_idx;
use crate::strutil::push_range;
use crate::strutil::to_chars;

verus! {

/// Why a path failed to resolve.
#[derive(Debug)]
pub enum ResolveError {
    /// A `<...>` token that names no known variable; carries the token,
    /// brackets included.
    UnknownVariable(String),
    /// A known variable whose value the environment or context lacks;
    /// carries the name of what was missing.
    DirNotFound(String),
    /// `<game>` or `<base>` used without game context; carries the token.
    UnimplementedVar(String),
}

/// The kind of a resolution error, for spec-level statements.
#[derive(Debug, Clone, Copy, PartialEq, Eq, Structural)]
pub enum ErrKind {
    Unknown,
    NotFound,
    Unimplemented,
}

/// Whether the executable error carries the given kind and message.
pub open spec fn err_matches(e: ResolveError, k: ErrKind, m: Seq<char>) -> bool {
    match e {
        ResolveError::UnknownVariable(s) => k is Unknown && s@ == m,
        ResolveError::DirNotFound(s) => k is NotFound && s@ == m,
        ResolveError::UnimplementedVar(s) => k is Unimplemented && s@ == m,
    }
}

/// Everything the resolver may substitute, gathered by the caller: the
/// special folders the platform offers, the OS user name, and the
/// environment table for `%NAME%` references.
#[derive(Debug, Clone)]
pub struct ResolverCtx {
    pub home: Option<String>,
    pub os_user_name: String,
    pub win_app_data: Option<String>,
    pub win_local_app_data: Option<String>,
    pub win_local_app_data_low: Option<String>,
    pub win_documents: Option<String>,
    pub win_public: Option<String>,
    pub win_program_data: Option<String>,
    pub win_dir: Option<String>,
    pub xdg_data: Option<String>,
    pub xdg_config: Option<String>,
    pub env_vars: Vec<(String, String)>,
}

impl ResolverCtx {
    /// A context with nothing available but the environment table given.
    pub fn empty() -> (r: ResolverCtx)
        ensures
            r.home is None,
            r.os_user_name@.len() == 0,
            r.win_app_data is None,
            r.win_local_app_data is None,
            r.win_local_app_data_low is None,
            r.win_documents is None,
            r.win_public is None,
            r.win_program_data is None,
            r.win_dir is None,
            r.xdg_data is None,
            r.xdg_config is None,
            r.env_vars@.len() == 0,
    {
        ResolverCtx {
            home: None,
            os_user_name: String::new(),
            win_app_data: None,
            win_local_app_data: None,
            win_local_app_data_low: None,
            win_documents: None,
            win_public: None,
            win_program_data: None,
            win_dir: None,
            xdg_data: None,
            xdg_config: None,
            env_vars: Vec::new(),
        }
    }
}

/// Step 1, `%NAME%` expansion, as a function of the template and the
/// environment table. `Err` carries the name of the missing variable.
/// An unpaired `%` keeps the rest of the template literally; `%%` is a
/// literal `%`.
pub open spec fn expand_percent(s: Seq<char>, env: Seq<(String, String)>) -> Result<
    Seq<char>,
    Seq<char>,
>
    decreases s.len(),
    via expand_percent_decreases
{
    if s.len() == 0 {
        Ok(Seq::empty())
    } else if s[0] != '%' {
        match expand_percent(s.drop_first(), env) {
            Ok(t) => Ok(seq![s[0]] + t),
            Err(e) => Err(e),
        }
    } else {
        let rest = s.drop_first();
        if !rest.contains('%') {
            Ok(s)
        } else {
            let j = find_idx(rest, '%');
            let name = rest.take(j);
            if name.len() == 0 {
                match expand_percent(rest.skip(1), env) {
                    Ok(t) => Ok(seq!['%'] + t),
                    Err(e) => Err(e),
                }
            } else {
                match assoc_lookup(env, name) {
                    None => Err(name),
                    Some(v) => match expand_percent(rest.skip(j + 1), env) {
                        Ok(t) => Ok(v + t),
                        Err(e) => Err(e),
                    },
                }
            }
        }
    }
}

#[via_fn]
proof fn expand_percent_decreases(s: Seq<char>, env: Seq<(String, String)>) {
    if s.len() > 0 && s[0] == '%' {
        let rest = s.drop_first();
        if rest.contains('%') {
            lemma_find_idx(rest, '%');
        }
    }
}

/// Whether `name` is one of the bracketed variables the resolver knows.
pub open spec fn is_known_var(name: Seq<char>) -> bool {
    ||| name == "home"@
    ||| name == "osUserName"@
    ||| name == "root"@
    ||| name == "game"@
    ||| name == "base"@
    ||| name == "winAppData"@
    ||| name == "winLocalAppData"@
    ||| name == "winLocalAppDataLow"@
    ||| name == "winDocuments"@
    ||| name == "winPublic"@
    ||| name == "winProgramData"@
    ||| name == "winDir"@
    ||| name == "xdgData"@
    ||| name == "xdgConfig"@
}

/// An optional context value, or the `DirNotFound` message naming it.
pub open spec fn folder_or(v: Option<String>, what: Seq<char>) -> Result<
    Seq<char>,
    (ErrKind, Seq<char>),
> {
    match v {
        Some(s) => Ok(s@),
        None => Err((ErrKind::NotFound, what)),
    }
}

/// The value of a known variable, or the error its absence causes.
pub open spec fn known_var_value(
    name: Seq<char>,
    game: Option<Seq<char>>,
    root: Seq<char>,
    ctx: ResolverCtx,
) -> Result<Seq<char>, (ErrKind, Seq<char>)> {
    if name == "home"@ {
        folder_or(ctx.home, "Home directory"@)
    } else if name == "osUserName"@ {
        Ok(ctx.os_user_name@)
    } else if name == "root"@ {
        Ok(root)
    } else if name == "game"@ {
        match game {
            Some(g) => Ok(sanitized_component(g)),
            None => Err((ErrKind::Unimplemented, "<game>"@)),
        }
    } else if name == "base"@ {
        match game {
            Some(g) => Ok(root + seq!['/'] + sanitized_component(g)),
            None => Err((ErrKind::Unimplemented, "<base>"@)),
        }
    } else if name == "winAppData"@ {
        folder_or(ctx.win_app_data, "APPDATA"@)
    } else if name == "winLocalAppData"@ {
        folder_or(ctx.win_local_app_data, "LOCALAPPDATA"@)
    } else if name == "winLocalAppDataLow"@ {
        folder_or(ctx.win_local_app_data_low, "Home directory"@)
    } else if name == "winDocuments"@ {
        folder_or(ctx.win_documents, "Documents"@)
    } else if name == "winPublic"@ {
        folder_or(ctx.win_public, "PUBLIC"@)
    } else if name == "winProgramData"@ {
        folder_or(ctx.win_program_data, "PROGRAMDATA"@)
    } else if name == "winDir"@ {
        folder_or(ctx.win_dir, "WINDIR"@)
    } else if name == "xdgData"@ {
        folder_or(ctx.xdg_data, "XDG_DATA_HOME"@)
    } else {
        folder_or(ctx.xdg_config, "XDG_CONFIG_HOME"@)
    }
}

/// Step 2, substitution of bracketed variables, scanning left to right.
/// Known tokens are replaced or raise their errors; unknown tokens stay in
/// place for step 3; brackets that close no token stay literal.
pub open spec fn subst_vars(
    s: Seq<char>,
    game: Option<Seq<char>>,
    root: Seq<char>,
    ctx: ResolverCtx,
) -> Result<Seq<char>, (ErrKind, Seq<char>)>
    decreases s.len(),
    via subst_vars_decreases
{
    if s.len() == 0 {
        Ok(Seq::empty())
    } else if s[0] != '<' {
        match subst_vars(s.drop_first(), game, root, ctx) {
            Ok(t) => Ok(seq![s[0]] + t),
            Err(e) => Err(e),
        }
    } else {
        let rest = s.drop_first();
        if !rest.contains('>') {
            Ok(s)
        } else {
            let j = find_idx(rest, '>');
            let name = rest.take(j);
            if name.contains('<') {
                let k = find_idx(rest, '<');
                match subst_vars(rest.skip(k), game, root, ctx) {
                    Ok(t) => Ok(seq!['<'] + rest.take(k) + t),
                    Err(e) => Err(e),
                }
            } else if is_known_var(name) {
                match known_var_value(name, game, root, ctx) {
                    Ok(v) => match subst_vars(rest.skip(j + 1), game, root, ctx) {
                        Ok(t) => Ok(v + t),
                        Err(e) => Err(e),
                    },
                    Err(e) => Err(e),
                }
            } else {
                match subst_vars(rest.skip(j + 1), game, root, ctx) {
                    Ok(t) => Ok(seq!['<'] + name + seq!['>'] + t),
                    Err(e) => Err(e),
                }
            }
        }
    }
}

#[via_fn]
proof fn subst_vars_decreases(
    s: Seq<char>,
    game: Option<Seq<char>>,
    root: Seq<char>,
    ctx: ResolverCtx,
) {
    if s.len() > 0 && s[0] == '<' {
        let rest = s.drop_first();
        if rest.contains('>') {
            lemma_find_idx(rest, '>');
            let j = find_idx(rest, '>');
            if rest.take(j).contains('<') {
                let i = choose|i: int| 0 <= i < j && rest.take(j)[i] == '<';
                assert(rest[i] == '<');
                assert(rest.contains('<'));
                lemma_find_idx(rest, '<');
            }
        }
    }
}

/// Step 3: the leftmost unresolved token of a result that still holds both
/// brackets — from its first `<` up to and including the next `>`, or to
/// the end if no `>` follows.
pub open spec fn leftmost_token(s: Seq<char>) -> Seq<char>
    recommends
        s.contains('<'),
{
    let tail = s.skip(find_idx(s, '<'));
    if tail.drop_first().contains('>') {
        tail.take(find_idx(tail.drop_first(), '>') + 2)
    } else {
        tail
    }
}

/// The name of the game handed to the resolver, if any.
pub open spec fn game_name_view(game: Option<&Game>) -> Option<Seq<char>> {
    match game {
        Some(g) => Some(g.name@),
        None => None,
    }
}

/// Full resolution: `%NAME%` expansion, then variable substitution, then
/// the check for leftover tokens.
pub open spec fn resolve_spec(
    raw: Seq<char>,
    game: Option<Seq<char>>,
    root: Seq<char>,
    ctx: ResolverCtx,
) -> Result<Seq<char>, (ErrKind, Seq<char>)> {
    match expand_percent(raw, ctx.env_vars@) {
        Err(name) => Err((ErrKind::NotFound, seq!['E', 'N', 'V', ':'] + name)),
        Ok(e) => match subst_vars(e, game, root, ctx) {
            Err(err) => Err(err),
            Ok(out) => if out.contains('<') && out.contains('>') {
                Err((ErrKind::Unknown, leftmost_token(out)))
            } else {
                Ok(out)
            },
        },
    }
}

/// Prefixes the `Ok` value of a partial result.
pub open spec fn prepend(prefix: Seq<char>, r: Result<Seq<char>, (ErrKind, Seq<char>)>) -> Result<
    Seq<char>,
    (ErrKind, Seq<char>),
> {
    match r {
        Ok(t) => Ok(prefix + t),
        Err(e) => Err(e),
    }
}

/// Prefixes the `Ok` value of a percent-expansion partial result.
pub open spec fn prepend_p(prefix: Seq<char>, r: Result<Seq<char>, Seq<char>>) -> Result<
    Seq<char>,
    Seq<char>,
> {
    match r {
        Ok(t) => Ok(prefix + t),
        Err(e) => Err(e),
    }
}

/// Looks a name up in the environment table; first entry wins.
fn env_get(env: &Vec<(String, String)>, name: &Vec<char>) -> (r: Option<Vec<char>>)
    ensures
        match r {
            Some(v) => assoc_lookup(env@, name@) == Some(v@),
            None => assoc_lookup(env@, name@) is None,
        },
{
    let mut i: usize = 0;
    proof {
        assert(env@.skip(0) =~= env@);
    }
    while i < env.len()
        invariant
            i <= env@.len(),
            assoc_lookup(env@, name@) == assoc_lookup(env@.skip(i as int), name@),
        decreases env@.len() - i,
    {
        proof {
            assert(env@.skip(i as int)[0] == env@[i as int]);
        }
        if crate::strutil::eq_chars_str(name, env[i].0.as_str()) {
            let v = to_chars(env[i].1.as_str());
            return Some(v);
        }
        proof {
            assert(env@.skip(i as int).drop_first() =~= env@.skip(i + 1));
        }
        i = i + 1;
    }
    None
}

/// Expands `%NAME%` references; on a missing variable returns
/// `DirNotFound` naming it as `ENV:<name>`.
fn expand_percent_exec(v: &Vec<char>, env: &Vec<(String, String)>) -> (r: Result<
    Vec<char>,
    ResolveError,
>)
    ensures
        match r {
            Ok(t) => expand_percent(v@, env@) == Ok::<Seq<char>, Seq<char>>(t@),
            Err(e) => {
                &&& expand_percent(v@, env@) matches Err(name)
                &&& e matches ResolveError::DirNotFound(m)
                &&& m@ == seq!['E', 'N', 'V', ':'] + name
            },
        },
{
    let n: usize = v.len();
    let mut out: Vec<char> = Vec::new();
    let mut i: usize = 0;
    proof {
        assert(v@.skip(0) =~= v@);
        assert(prepend_p(Seq::<char>::empty(), expand_percent(v@, env@)) == expand_percent(
            v@,
            env@,
        )) by {
            match expand_percent(v@, env@) {
                Ok(t) => {
                    assert(Seq::<char>::empty() + t =~= t);
                },
                Err(_) => {},
            }
        }
    }
    while i < n
        invariant
            n == v@.len(),
            i <= n,
            expand_percent(v@, env@) == prepend_p(out@, expand_percent(v@.skip(i as int), env@)),
        decreases n - i,
    {
        let ghost rest = v@.skip(i as int);
        let ghost pre = out@;
        if v[i] != '%' {
            out.push(v[i]);
            proof {
                assert(rest.drop_first() =~= v@.skip(i + 1));
                lemma_prepend_p_assoc(pre, seq![v@[i as int]], expand_percent(v@.skip(i + 1), env@));
                assert(pre + seq![v@[i as int]] =~= out@);
            }
            i = i + 1;
        } else {
            let ghost rtail = rest.drop_first();
            proof {
                assert(rtail =~= v@.skip(i + 1));
            }
            match find_char_from(v, '%', i + 1) {
                None => {
                    proof {
                        assert forall|k: int| 0 <= k < rtail.len() implies rtail[k] != '%' by {
                            assert(rtail[k] == v@[i + 1 + k]);
                        }
                        assert(!rtail.contains('%'));
                        assert(expand_percent(rest, env@) == Ok::<Seq<char>, Seq<char>>(rest));
                    }
                    push_range(&mut out, v, i, n);
                    proof {
                        assert(v@.subrange(i as int, n as int) =~= rest);
                        assert(v@.skip(n as int) =~= Seq::<char>::empty());
                        assert(out@ + Seq::<char>::empty() =~= out@);
                    }
                    i = n;
                },
                Some(close) => {
                    proof {
                        assert(rtail[close - (i + 1)] == v@[close as int]);
                        assert(rtail.contains('%'));
                        lemma_find_idx(rtail, '%');
                        assert forall|k: int| 0 <= k < close - (i + 1) implies rtail[k] != '%' by {
                            assert(rtail[k] == v@[i + 1 + k]);
                        }
                        assert(find_idx(rtail, '%') == close - (i + 1));
                    }
                    if close == i + 1 {
                        // literal "%%"
                        out.push('%');
                        proof {
                            assert(rtail.take(0) =~= Seq::<char>::empty());
                            assert(rtail.skip(1) =~= v@.skip(i + 2));
                            lemma_prepend_p_assoc(
                                pre,
                                seq!['%'],
                                expand_percent(v@.skip(i + 2), env@),
                            );
                            assert(pre + seq!['%'] =~= out@);
                        }
                        i = i + 2;
                    } else {
                        let mut name: Vec<char> = Vec::new();
                        push_range(&mut name, v, i + 1, close);
                        proof {
                            assert(name@ =~= rtail.take(close - (i + 1)));
                        }
                        match env_get(env, &name) {
                            Some(val) => {
                                extend_chars(&mut out, &val);
                                proof {
                                    assert(rtail.skip(close - (i + 1) + 1) =~= v@.skip(close + 1));
                                    lemma_prepend_p_assoc(
                                        pre,
                                        val@,
                                        expand_percent(v@.skip(close + 1), env@),
                                    );
                                    assert(pre + val@ =~= out@);
                                }
                                i = close + 1;
                            },
                            None => {
                                let mut msg: Vec<char> = Vec::new();
                                msg.push('E');
                                msg.push('N');
                                msg.push('V');
                                msg.push(':');
                                extend_chars(&mut msg, &name);
                                proof {
                                    assert(msg@ =~= seq!['E', 'N', 'V', ':'] + name@);
                                }
                                return Err(ResolveError::DirNotFound(chars_to_string(&msg)));
                            },
                        }
                    }
                },
            }
        }
    }
    proof {
        assert(v@.skip(n as int) =~= Seq::<char>::empty());
        assert(out@ + Seq::<char>::empty() =~= out@);
    }
    Ok(out)
}

/// `prepend_p` composes over concatenation.
proof fn lemma_prepend_p_assoc(a: Seq<char>, b: Seq<char>, r: Result<Seq<char>, Seq<char>>)
    ensures
        prepend_p(a, prepend_p(b, r)) == prepend_p(a + b, r),
{
    match r {
        Ok(t) => {
            assert(a + (b + t) =~= (a + b) + t);
        },
        Err(_) => {},
    }
}

/// `prepend` composes over concatenation.
proof fn lemma_prepend_assoc(a: Seq<char>, b: Seq<char>, r: Result<Seq<char>, (ErrKind, Seq<char>)>)
    ensures
        prepend(a, prepend(b, r)) == prepend(a + b, r),
{
    match r {
        Ok(t) => {
            assert(a + (b + t) =~= (a + b) + t);
        },
        Err(_) => {},
    }
}

/// The value of a known variable, or `None` for an unknown name.
fn lookup_var(
    name: &Vec<char>,
    game: Option<&Game>,
    config: &Config,
    ctx: &ResolverCtx,
) -> (r: Option<Result<Vec<char>, ResolveError>>)
    ensures
        match r {
            None => !is_known_var(name@),
            Some(inner) => {
                &&& is_known_var(name@)
                &&& match inner {
                    Ok(v) => known_var_value(
                        name@,
                        game_name_view(game),
                        config.backup_path@,
                        *ctx,
                    ) == Ok::<Seq<char>, (ErrKind, Seq<char>)>(v@),
                    Err(e) => {
                        &&& known_var_value(
                            name@,
                            game_name_view(game),
                            config.backup_path@,
                            *ctx,
                        ) matches Err(em)
                        &&& err_matches(e, em.0, em.1)
                    },
                }
            },
        },
{
    if crate::strutil::eq_chars_str(name, "home") {
        match &ctx.home {
            Some(h) => Some(Ok(to_chars(h.as_str()))),
            None => Some(
                Err(ResolveError::DirNotFound(String::from_str("Home directory"))),
            ),
        }
    } else if crate::strutil::eq_chars_str(name, "osUserName") {
        Some(Ok(to_chars(ctx.os_user_name.as_str())))
    } else if crate::strutil::eq_chars_str(name, "root") {
        Some(Ok(to_chars(config.backup_path.as_str())))
    } else if crate::strutil::eq_chars_str(name, "game") {
        match game {
            Some(g) => {
                let safe = sanitize_windows_path_component(g.name.as_str());
                Some(Ok(to_chars(safe.as_str())))
            },
            None => Some(Err(ResolveError::UnimplementedVar(String::from_str("<game>")))),
        }
    } else if crate::strutil::eq_chars_str(name, "base") {
        match game {
            Some(g) => {
                let safe = sanitize_windows_path_component(g.name.as_str());
                let mut out = to_chars(config.backup_path.as_str());
                out.push('/');
                let safe_chars = to_chars(safe.as_str());
                extend_chars(&mut out, &safe_chars);
                proof {
                    assert(out@ =~= config.backup_path@ + seq!['/'] + sanitized_component(
                        g.name@,
                    ));
                }
                Some(Ok(out))
            },
            None => Some(Err(ResolveError::UnimplementedVar(String::from_str("<base>")))),
        }
    } else if crate::strutil::eq_chars_str(name, "winAppData") {
        match &ctx.win_app_data {
            Some(h) => Some(Ok(to_chars(h.as_str()))),
            None => Some(Err(ResolveError::DirNotFound(String::from_str("APPDATA")))),
        }
    } else if crate::strutil::eq_chars_str(name, "winLocalAppData") {
        match &ctx.win_local_app_data {
            Some(h) => Some(Ok(to_chars(h.as_str()))),
            None => Some(Err(ResolveError::DirNotFound(String::from_str("LOCALAPPDATA")))),
        }
    } else if crate::strutil::eq_chars_str(name, "winLocalAppDataLow") {
        match &ctx.win_local_app_data_low {
            Some(h) => Some(Ok(to_chars(h.as_str()))),
            None => Some(
                Err(ResolveError::DirNotFound(String::from_str("Home directory"))),
            ),
        }
    } else if crate::strutil::eq_chars_str(name, "winDocuments") {
        match &ctx.win_documents {
            Some(h) => Some(Ok(to_chars(h.as_str()))),
            None => Some(Err(ResolveError::DirNotFound(String::from_str("Documents")))),
        }
    } else if crate::strutil::eq_chars_str(name, "winPublic") {
        match &ctx.win_public {
            Some(h) => Some(Ok(to_chars(h.as_str()))),
            None => Some(Err(ResolveError::DirNotFound(String::from_str("PUBLIC")))),
        }
    } else if crate::strutil::eq_chars_str(name, "winProgramData") {
        match &ctx.win_program_data {
            Some(h) => Some(Ok(to_chars(h.as_str()))),
            None => Some(Err(ResolveError::DirNotFound(String::from_str("PROGRAMDATA")))),
        }
    } else if crate::strutil::eq_chars_str(name, "winDir") {
        match &ctx.win_dir {
            Some(h) => Some(Ok(to_chars(h.as_str()))),
            None => Some(Err(ResolveError::DirNotFound(String::from_str("WINDIR")))),
        }
    } else if crate::strutil::eq_chars_str(name, "xdgData") {
        match &ctx.xdg_data {
            Some(h) => Some(Ok(to_chars(h.as_str()))),
            None => Some(Err(ResolveError::DirNotFound(String::from_str("XDG_DATA_HOME")))),
        }
    } else if crate::strutil::eq_chars_str(name, "xdgConfig") {
        match &ctx.xdg_config {
            Some(h) => Some(Ok(to_chars(h.as_str()))),
            None => Some(Err(ResolveError::DirNotFound(String::from_str("XDG_CONFIG_HOME")))),
        }
    } else {
        None
    }
}

/// Substitutes bracketed variables, left to right.
fn subst_vars_exec(
    v: &Vec<char>,
    game: Option<&Game>,
    config: &Config,
    ctx: &ResolverCtx,
) -> (r: Result<Vec<char>, ResolveError>)
    ensures
        match r {
            Ok(t) => subst_vars(v@, game_name_view(game), config.backup_path@, *ctx) == Ok::<
                Seq<char>,
                (ErrKind, Seq<char>),
            >(t@),
            Err(e) => {
                &&& subst_vars(v@, game_name_view(game), config.backup_path@, *ctx) matches Err(em)
                &&& err_matches(e, em.0, em.1)
            },
        },
{
    let ghost gn = game_name_view(game);
    let ghost root = config.backup_path@;
    let n: usize = v.len();
    let mut out: Vec<char> = Vec::new();
    let mut i: usize = 0;
    proof {
        assert(v@.skip(0) =~= v@);
        assert(prepend(Seq::<char>::empty(), subst_vars(v@, gn, root, *ctx)) == subst_vars(
            v@,
            gn,
            root,
            *ctx,
        )) by {
            match subst_vars(v@, gn, root, *ctx) {
                Ok(t) => {
                    assert(Seq::<char>::empty() + t =~= t);
                },
                Err(_) => {},
            }
        }
    }
    while i < n
        invariant
            n == v@.len(),
            i <= n,
            subst_vars(v@, gn, root, *ctx) == prepend(
                out@,
                subst_vars(v@.skip(i as int), gn, root, *ctx),
            ),
            gn == game_name_view(game),
            root == config.backup_path@,
        decreases n - i,
    {
        let ghost rest = v@.skip(i as int);
        let ghost pre = out@;
        if v[i] != '<' {
            out.push(v[i]);
            proof {
                assert(rest.drop_first() =~= v@.skip(i + 1));
                lemma_prepend_assoc(pre, seq![v@[i as int]], subst_vars(v@.skip(i + 1), gn, root, *ctx));
                assert(pre + seq![v@[i as int]] =~= out@);
            }
            i = i + 1;
        } else {
            let ghost rtail = rest.drop_first();
            proof {
                assert(rtail =~= v@.skip(i + 1));
            }
            match find_char_from(v, '>', i + 1) {
                None => {
                    proof {
                        assert forall|k: int| 0 <= k < rtail.len() implies rtail[k] != '>' by {
                            assert(rtail[k] == v@[i + 1 + k]);
                        }
                        assert(!rtail.contains('>'));
                        assert(subst_vars(rest, gn, root, *ctx) == Ok::<
                            Seq<char>,
                            (ErrKind, Seq<char>),
                        >(rest));
                    }
                    push_range(&mut out, v, i, n);
                    proof {
                        assert(v@.subrange(i as int, n as int) =~= rest);
                        assert(v@.skip(n as int) =~= Seq::<char>::empty());
                        assert(out@ + Seq::<char>::empty() =~= out@);
                    }
                    i = n;
                },
                Some(close) => {
                    proof {
                        assert(rtail[close - (i + 1)] == v@[close as int]);
                        assert(rtail.contains('>'));
                        lemma_find_idx(rtail, '>');
                        assert forall|k: int| 0 <= k < close - (i + 1) implies rtail[k] != '>' by {
                            assert(rtail[k] == v@[i + 1 + k]);
                        }
                        assert(find_idx(rtail, '>') == close - (i + 1));
                    }
                    let ghost jj = close - (i + 1);
                    let ghost name_spec = rtail.take(jj);
                    let open2 = find_char_from(v, '<', i + 1);
                    let mut inner: Option<usize> = None;
                    match open2 {
                        Some(o) => {
                            if o < close {
                                inner = Some(o);
                            }
                        },
                        None => {},
                    }
                    match inner {
                        Some(o) => {
                            proof {
                                assert(name_spec[o - (i + 1)] == v@[o as int]);
                                assert(name_spec.contains('<'));
                                assert(rtail[o - (i + 1)] == v@[o as int]);
                                assert(rtail.contains('<'));
                                lemma_find_idx(rtail, '<');
                                assert forall|k: int| 0 <= k < o - (i + 1) implies rtail[k]
                                    != '<' by {
                                    assert(rtail[k] == v@[i + 1 + k]);
                                }
                                assert(find_idx(rtail, '<') == o - (i + 1));
                            }
                            push_range(&mut out, v, i, o);
                            proof {
                                let k = o - (i + 1);
                                assert(rtail.skip(k) =~= v@.skip(o as int));
                                assert(v@.subrange(i as int, o as int) =~= seq!['<'] + rtail.take(
                                    k,
                                ));
                                lemma_prepend_assoc(
                                    pre,
                                    seq!['<'] + rtail.take(k),
                                    subst_vars(v@.skip(o as int), gn, root, *ctx),
                                );
                                assert(pre + (seq!['<'] + rtail.take(k)) =~= out@);
                            }
                            i = o;
                        },
                        None => {
                            proof {
                                if name_spec.contains('<') {
                                    let k = choose|k: int|
                                        0 <= k < name_spec.len() && name_spec[k] == '<';
                                    assert(v@[i + 1 + k] == '<');
                                    match open2 {
                                        Some(o) => {
                                            assert(o >= close);
                                            assert(o <= i + 1 + k < close);
                                            assert(false);
                                        },
                                        None => {
                                            assert(v@[i + 1 + k] != '<');
                                            assert(false);
                                        },
                                    }
                                }
                            }
                            let mut name: Vec<char> = Vec::new();
                            push_range(&mut name, v, i + 1, close);
                            proof {
                                assert(name@ =~= name_spec);
                            }
                            match lookup_var(&name, game, config, ctx) {
                                Some(res) => match res {
                                    Ok(val) => {
                                        extend_chars(&mut out, &val);
                                        proof {
                                            assert(rtail.skip(jj + 1) =~= v@.skip(close + 1));
                                            lemma_prepend_assoc(
                                                pre,
                                                val@,
                                                subst_vars(v@.skip(close + 1), gn, root, *ctx),
                                            );
                                            assert(pre + val@ =~= out@);
                                        }
                                        i = close + 1;
                                    },
                                    Err(e) => {
                                        return Err(e);
                                    },
                                },
                                None => {
                                    push_range(&mut out, v, i, close + 1);
                                    proof {
                                        assert(rtail.skip(jj + 1) =~= v@.skip(close + 1));
                                        assert(v@.subrange(i as int, close + 1) =~= seq!['<']
                                            + name_spec + seq!['>']);
                                        lemma_prepend_assoc(
                                            pre,
                                            seq!['<'] + name_spec + seq!['>'],
                                            subst_vars(v@.skip(close + 1), gn, root, *ctx),
                                        );
                                        assert(pre + (seq!['<'] + name_spec + seq!['>']) =~= out@);
                                    }
                                    i = close + 1;
                                },
                            }
                        },
                    }
                },
            }
        }
    }
    proof {
        assert(v@.skip(n as int) =~= Seq::<char>::empty());
        assert(out@ + Seq::<char>::empty() =~= out@);
    }
    Ok(out)
}

/// Resolves a path template to a concrete path.
///
/// The result is exactly `resolve_spec` of the template: `Ok` with every
/// variable substituted, or the first error of the pipeline — a missing
/// `%NAME%` or special folder as `DirNotFound`, `<game>`/`<base>` without
/// game context as `UnimplementedVar`, or a leftover token as
/// `UnknownVariable`.
pub fn resolve_path(
    raw_path: &str,
    game: Option<&Game>,
    config: &Config,
    ctx: &ResolverCtx,
) -> (r: Result<String, ResolveError>)
    ensures
        match r {
            Ok(p) => resolve_spec(raw_path@, game_name_view(game), config.backup_path@, *ctx)
                == Ok::<Seq<char>, (ErrKind, Seq<char>)>(p@),
            Err(e) => {
                &&& resolve_spec(
                    raw_path@,
                    game_name_view(game),
                    config.backup_path@,
                    *ctx,
                ) matches Err(em)
                &&& err_matches(e, em.0, em.1)
            },
        },
{
    let chars = to_chars(raw_path);
    let expanded = match expand_percent_exec(&chars, &ctx.env_vars) {
        Ok(t) => t,
        Err(e) => {
            return Err(e);
        },
    };
    let substituted = match subst_vars_exec(&expanded, game, config, ctx) {
        Ok(t) => t,
        Err(e) => {
            return Err(e);
        },
    };
    let lt = find_char_from(&substituted, '<', 0);
    let gt = find_char_from(&substituted, '>', 0);
    match (lt, gt) {
        (Some(start), Some(_)) => {
            proof {
                let s = substituted@;
                assert(s.contains('<') && s.contains('>'));
                lemma_find_idx(s, '<');
                assert(find_idx(s, '<') == start);
            }
            let tail_close = find_char_from(&substituted, '>', start + 1);
            let mut token: Vec<char> = Vec::new();
            match tail_close {
                Some(c) => {
                    push_range(&mut token, &substituted, start, c + 1);
                    proof {
                        let s = substituted@;
                        let tail = s.skip(start as int);
                        let td = tail.drop_first();
                        assert(td =~= s.skip(start + 1));
                        assert(td[c - (start + 1)] == s[c as int]);
                        assert(td.contains('>'));
                        lemma_find_idx(td, '>');
                        assert forall|k: int| 0 <= k < c - (start + 1) implies td[k] != '>' by {
                            assert(td[k] == s[start + 1 + k]);
                        }
                        assert(find_idx(td, '>') == c - (start + 1));
                        assert(token@ =~= tail.take(c - (start + 1) + 2));
                    }
                },
                None => {
                    push_range(&mut token, &substituted, start, substituted.len());
                    proof {
                        let s = substituted@;
                        let tail = s.skip(start as int);
                        let td = tail.drop_first();
                        assert(td =~= s.skip(start + 1));
                        assert forall|k: int| 0 <= k < td.len() implies td[k] != '>' by {
                            assert(td[k] == s[start + 1 + k]);
                        }
                        assert(!td.contains('>'));
                        assert(token@ =~= tail);
                    }
                },
            }
            Err(ResolveError::UnknownVariable(chars_to_string(&token)))
        },
        _ => Ok(chars_to_string(&substituted)),
    }
}

/// A table of extra template variables, applied before resolution.
#[derive(Debug, Clone)]
pub struct ResolverEnv {
    pub variables: Vec<(String, String)>,
}

/// The template after every `<key>` of the table is replaced by its value,
/// in table order.
pub open spec fn apply_env(s: Seq<char>, vars: Seq<(String, String)>) -> Seq<char>
    decreases vars.len(),
{
    if vars.len() == 0 {
        s
    } else {
        apply_env(
            crate::strutil::replace_all(s, seq!['<'] + vars[0].0@ + seq!['>'], vars[0].1@),
            vars.drop_first(),
        )
    }
}

/// Resolves a template after applying the extra variable table.
pub fn resolve_template(
    template: &str,
    env: &ResolverEnv,
    config: &Config,
    ctx: &ResolverCtx,
) -> (r: Result<String, ResolveError>)
    ensures
        match r {
            Ok(p) => resolve_spec(
                apply_env(template@, env.variables@),
                None,
                config.backup_path@,
                *ctx,
            ) == Ok::<Seq<char>, (ErrKind, Seq<char>)>(p@),
            Err(e) => {
                &&& resolve_spec(
                    apply_env(template@, env.variables@),
                    None,
                    config.backup_path@,
                    *ctx,
                ) matches Err(em)
                &&& err_matches(e, em.0, em.1)
            },
        },
{
    let mut cur: Vec<char> = to_chars(template);
    let mut i: usize = 0;
    proof {
        assert(env.variables@.skip(0) =~= env.variables@);
    }
    while i < env.variables.len()
        invariant
            i <= env.variables@.len(),
            apply_env(template@, env.variables@) == apply_env(
                cur@,
                env.variables@.skip(i as int),
            ),
        decreases env.variables@.len() - i,
    {
        let mut pat: Vec<char> = Vec::new();
        pat.push('<');
        let key_chars = to_chars(env.variables[i].0.as_str());
        extend_chars(&mut pat, &key_chars);
        pat.push('>');
        let val_chars = to_chars(env.variables[i].1.as_str());
        proof {
            assert(pat@ =~= seq!['<'] + env.variables@[i as int].0@ + seq!['>']);
            assert(env.variables@.skip(i as int)[0] == env.variables@[i as int]);
            assert(env.variables@.skip(i as int).drop_first() =~= env.variables@.skip(i + 1));
        }
        let replaced = crate::strutil::replace_chars(&cur, &pat, &val_chars);
        cur = replaced;
        i = i + 1;
    }
    let s = chars_to_string(&cur);
    resolve_path(s.as_str(), None, config, ctx)
}

/// Replaces the characters Windows refuses in file names with
/// underscores, and nothing more: no trimming, no placeholder.
pub fn sanitize_filename(s: &str) -> (r: String)
    ensures
        r@ == s@.map_values(|c: char| crate::backup::sanitize_char(c)),
{
    let chars = to_chars(s);
    let mut out: Vec<char> = Vec::new();
    let mut i: usize = 0;
    while i < chars.len()
        invariant
            i <= chars@.len(),
            out@ == chars@.take(i as int).map_values(|c: char| crate::backup::sanitize_char(c)),
        decreases chars@.len() - i,
    {
        let c = chars[i];
        if c == '<' || c == '>' || c == ':' || c == '"' || c == '/' || c == '\\' || c == '|' || c
            == '?' || c == '*' {
            out.push('_');
        } else {
            out.push(c);
        }
        i = i + 1;
        proof {
            assert(out@ =~= chars@.take(i as int).map_values(
                |c: char| crate::backup::sanitize_char(c),
            ));
        }
    }
    proof {
        assert(chars@.take(chars@.len() as int) =~= chars@);
    }
    chars_to_string(&out)
}

/// Resolves one save rule's template into its candidate paths.
pub fn resolve_save_rule(
    rule: &crate::types::SavePathRule,
    env: &ResolverEnv,
    config: &Config,
    ctx: &ResolverCtx,
) -> (r: Result<Vec<String>, ResolveError>)
    ensures
        match r {
            Ok(paths) => {
                &&& paths@.len() == 1
                &&& resolve_spec(
                    apply_env(rule.path_template@, env.variables@),
                    None,
                    config.backup_path@,
                    *ctx,
                ) == Ok::<Seq<char>, (ErrKind, Seq<char>)>(paths@[0]@)
            },
            Err(e) => {
                &&& resolve_spec(
                    apply_env(rule.path_template@, env.variables@),
                    None,
                    config.backup_path@,
                    *ctx,
                ) matches Err(em)
                &&& err_matches(e, em.0, em.1)
            },
        },
{
    let p = resolve_template(rule.path_template.as_str(), env, config, ctx)?;
    let mut out: Vec<String> = Vec::new();
    out.push(p);
    Ok(out)
}

// ------------------------------------------------------------------
// Laws of the resolver.
// ------------------------------------------------------------------

/// No bracket character occurs in the sequence.
pub open spec fn no_brackets(s: Seq<char>) -> bool {
    forall|i: int| 0 <= i < s.len() ==> s[i] != '<' && s[i] != '>'
}

/// A template that uses only known variables: outside tokens no bracket
/// appears, and each token names a known variable.
pub open spec fn template_wf(s: Seq<char>) -> bool
    decreases s.len(),
    via template_wf_decreases
{
    if s.len() == 0 {
        true
    } else if s[0] == '>' {
        false
    } else if s[0] != '<' {
        template_wf(s.drop_first())
    } else {
        let rest = s.drop_first();
        &&& rest.contains('>')
        &&& !rest.take(find_idx(rest, '>')).contains('<')
        &&& is_known_var(rest.take(find_idx(rest, '>')))
        &&& template_wf(rest.skip(find_idx(rest, '>') + 1))
    }
}

#[via_fn]
proof fn template_wf_decreases(s: Seq<char>) {
    if s.len() > 0 && s[0] != '>' && s[0] == '<' {
        let rest = s.drop_first();
        if rest.contains('>') {
            lemma_find_idx(rest, '>');
        }
    }
}

/// Every value an option may supply is bracket-free.
pub open spec fn opt_clean(o: Option<String>) -> bool {
    match o {
        Some(s) => no_brackets(s@),
        None => true,
    }
}

/// Every value the context may substitute is bracket-free.
pub open spec fn ctx_clean(ctx: ResolverCtx) -> bool {
    &&& opt_clean(ctx.home)
    &&& no_brackets(ctx.os_user_name@)
    &&& opt_clean(ctx.win_app_data)
    &&& opt_clean(ctx.win_local_app_data)
    &&& opt_clean(ctx.win_local_app_data_low)
    &&& opt_clean(ctx.win_documents)
    &&& opt_clean(ctx.win_public)
    &&& opt_clean(ctx.win_program_data)
    &&& opt_clean(ctx.win_dir)
    &&& opt_clean(ctx.xdg_data)
    &&& opt_clean(ctx.xdg_config)
}

/// A sequence without `%` expands to itself.
pub proof fn lemma_expand_nopercent(s: Seq<char>, env: Seq<(String, String)>)
    requires
        !s.contains('%'),
    ensures
        expand_percent(s, env) == Ok::<Seq<char>, Seq<char>>(s),
    decreases s.len(),
{
    if s.len() > 0 {
        assert(s[0] != '%') by {
            if s[0] == '%' {
                assert(s.contains('%'));
            }
        }
        let t = s.drop_first();
        assert(!t.contains('%')) by {
            if t.contains('%') {
                let k = choose|k: int| 0 <= k < t.len() && t[k] == '%';
                assert(s[k + 1] == '%');
                assert(s.contains('%'));
            }
        }
        lemma_expand_nopercent(t, env);
        assert(seq![s[0]] + t =~= s);
    } else {
        assert(s =~= Seq::<char>::empty());
    }
}

/// A sequence without `<` substitutes to itself.
pub proof fn lemma_subst_nobracket(
    s: Seq<char>,
    game: Option<Seq<char>>,
    root: Seq<char>,
    ctx: ResolverCtx,
)
    requires
        !s.contains('<'),
    ensures
        subst_vars(s, game, root, ctx) == Ok::<Seq<char>, (ErrKind, Seq<char>)>(s),
    decreases s.len(),
{
    if s.len() > 0 {
        assert(s[0] != '<') by {
            if s[0] == '<' {
                assert(s.contains('<'));
            }
        }
        let t = s.drop_first();
        assert(!t.contains('<')) by {
            if t.contains('<') {
                let k = choose|k: int| 0 <= k < t.len() && t[k] == '<';
                assert(s[k + 1] == '<');
                assert(s.contains('<'));
            }
        }
        lemma_subst_nobracket(t, game, root, ctx);
        assert(seq![s[0]] + t =~= s);
    } else {
        assert(s =~= Seq::<char>::empty());
    }
}

/// Stripping trailing spaces and dots keeps a bracket-free sequence
/// bracket-free.
proof fn lemma_strip_no_brackets(s: Seq<char>)
    requires
        no_brackets(s),
    ensures
        no_brackets(crate::backup::strip_trailing_space_dot(s)),
    decreases s.len(),
{
    if s.len() > 0 && (s.last() == ' ' || s.last() == '.') {
        assert(no_brackets(s.drop_last())) by {
            assert(forall|i: int| 0 <= i < s.len() - 1 ==> s.drop_last()[i] == s[i]);
        }
        lemma_strip_no_brackets(s.drop_last());
    }
}

/// A sanitized game name never contains a bracket: sanitization replaces
/// them with underscores, and the fallback placeholder has none.
pub proof fn lemma_sanitized_no_brackets(g: Seq<char>)
    ensures
        no_brackets(sanitized_component(g)),
{
    let mapped = g.map_values(|c: char| crate::backup::sanitize_char(c));
    assert(no_brackets(mapped)) by {
        assert(forall|i: int| 0 <= i < mapped.len() ==> mapped[i] == crate::backup::sanitize_char(
            g[i],
        ));
    }
    lemma_strip_no_brackets(mapped);
    reveal_strlit("Game");
    assert(no_brackets("Game"@));
}

/// The value of a known variable is bracket-free whenever the context and
/// the root are.
proof fn lemma_known_value_clean(
    name: Seq<char>,
    game: Option<Seq<char>>,
    root: Seq<char>,
    ctx: ResolverCtx,
)
    requires
        ctx_clean(ctx),
        no_brackets(root),
    ensures
        known_var_value(name, game, root, ctx) matches Ok(v) ==> no_brackets(v),
{
    match known_var_value(name, game, root, ctx) {
        Ok(v) => {
            if name == "game"@ || name == "base"@ {
                match game {
                    Some(g) => {
                        lemma_sanitized_no_brackets(g);
                        if name == "base"@ {
                            let b = root + seq!['/'] + sanitized_component(g);
                            assert(no_brackets(b)) by {
                                assert(forall|i: int|
                                    0 <= i < root.len() ==> b[i] == root[i]);
                                assert(b[root.len() as int] == '/');
                                assert(forall|i: int|
                                    root.len() + 1 <= i < b.len() ==> b[i] == sanitized_component(
                                        g,
                                    )[i - root.len() - 1]);
                            }
                        }
                    },
                    None => {},
                }
            }
        },
        Err(_) => {},
    }
}

/// The core of the bracket-freedom law: substituting a well-formed
/// template with bracket-free context values yields a bracket-free path
/// whenever it succeeds.
pub proof fn lemma_subst_wf_clean(
    s: Seq<char>,
    game: Option<Seq<char>>,
    root: Seq<char>,
    ctx: ResolverCtx,
)
    requires
        template_wf(s),
        ctx_clean(ctx),
        no_brackets(root),
    ensures
        subst_vars(s, game, root, ctx) matches Ok(t) ==> no_brackets(t),
    decreases s.len(),
{
    if s.len() == 0 {
    } else if s[0] != '<' {
        lemma_subst_wf_clean(s.drop_first(), game, root, ctx);
        match subst_vars(s.drop_first(), game, root, ctx) {
            Ok(t) => {
                let whole = seq![s[0]] + t;
                assert(no_brackets(whole)) by {
                    assert(whole[0] == s[0]);
                    assert(s[0] != '<' && s[0] != '>');
                    assert(forall|i: int| 1 <= i < whole.len() ==> whole[i] == t[i - 1]);
                }
            },
            Err(_) => {},
        }
    } else {
        let rest = s.drop_first();
        lemma_find_idx(rest, '>');
        let j = find_idx(rest, '>');
        let name = rest.take(j);
        lemma_subst_wf_clean(rest.skip(j + 1), game, root, ctx);
        lemma_known_value_clean(name, game, root, ctx);
        match known_var_value(name, game, root, ctx) {
            Ok(v) => {
                match subst_vars(rest.skip(j + 1), game, root, ctx) {
                    Ok(t) => {
                        let whole = v + t;
                        assert(no_brackets(whole)) by {
                            assert(forall|i: int| 0 <= i < v.len() ==> whole[i] == v[i]);
                            assert(forall|i: int|
                                v.len() <= i < whole.len() ==> whole[i] == t[i - v.len()]);
                        }
                    },
                    Err(_) => {},
                }
            },
            Err(_) => {},
        }
    }
}

/// The bracket-freedom law: when the template's `%NAME%` expansion
/// succeeds and uses only known variables, and every context value is
/// bracket-free, resolution never yields a path containing `<` or `>`.
pub proof fn lemma_resolve_no_brackets_with_env(
    raw: Seq<char>,
    game: Option<Seq<char>>,
    root: Seq<char>,
    ctx: ResolverCtx,
)
    requires
        ctx_clean(ctx),
        no_brackets(root),
        expand_percent(raw, ctx.env_vars@) is Ok,
        template_wf(expand_percent(raw, ctx.env_vars@)->Ok_0),
    ensures
        resolve_spec(raw, game, root, ctx) matches Ok(p) ==> no_brackets(p),
{
    lemma_subst_wf_clean(expand_percent(raw, ctx.env_vars@)->Ok_0, game, root, ctx);
}

/// The bracket-freedom law for templates without `%NAME%` references.
pub proof fn lemma_resolve_no_brackets(
    raw: Seq<char>,
    game: Option<Seq<char>>,
    root: Seq<char>,
    ctx: ResolverCtx,
)
    requires
        !raw.contains('%'),
        template_wf(raw),
        ctx_clean(ctx),
        no_brackets(root),
    ensures
        resolve_spec(raw, game, root, ctx) matches Ok(p) ==> no_brackets(p),
{
    lemma_expand_nopercent(raw, ctx.env_vars@);
    lemma_resolve_no_brackets_with_env(raw, game, root, ctx);
}

/// The unknown-token law: a template that opens with an unknown token
/// always fails with `UnknownVariable` naming that token, whatever the
/// game, root, and context.
pub proof fn lemma_unknown_token_fails(
    game: Option<Seq<char>>,
    root: Seq<char>,
    ctx: ResolverCtx,
)
    ensures
        resolve_spec("<unknown>/x"@, game, root, ctx) == Err::<Seq<char>, (ErrKind, Seq<char>)>(
            (ErrKind::Unknown, "<unknown>"@),
        ),
{
    reveal_strlit("<unknown>/x");
    reveal_strlit("<unknown>");
    reveal_strlit("home");
    reveal_strlit("osUserName");
    reveal_strlit("root");
    reveal_strlit("game");
    reveal_strlit("base");
    reveal_strlit("winAppData");
    reveal_strlit("winLocalAppData");
    reveal_strlit("winLocalAppDataLow");
    reveal_strlit("winDocuments");
    reveal_strlit("winPublic");
    reveal_strlit("winProgramData");
    reveal_strlit("winDir");
    reveal_strlit("xdgData");
    reveal_strlit("xdgConfig");
    reveal_strlit("unknown");
    let s = "<unknown>/x"@;
    assert(s.len() == 11);
    assert(!s.contains('%')) by {
        if s.contains('%') {
            let k = choose|k: int| 0 <= k < s.len() && s[k] == '%';
            assert(s[k] != '%');
        }
    }
    lemma_expand_nopercent(s, ctx.env_vars@);
    // The first token of the template.
    let rest = s.drop_first();
    assert(rest.len() == 10);
    assert(rest[7] == '>');
    assert(rest.contains('>'));
    lemma_find_idx(rest, '>');
    assert(find_idx(rest, '>') == 7) by {
        assert(forall|k: int| 0 <= k < 7 ==> rest[k] == s[k + 1] && s[k + 1] != '>');
    }
    let name = rest.take(7);
    assert(name =~= "unknown"@);
    assert(!name.contains('<')) by {
        if name.contains('<') {
            let k = choose|k: int| 0 <= k < name.len() && name[k] == '<';
            assert(name[k] != '<');
        }
    }
    assert(!is_known_var(name)) by {
        assert(name.len() == 7);
        assert(name[0] == 'u');
        assert("home"@.len() == 4);
        assert("osUserName"@.len() == 10);
        assert("root"@[0] == 'r');
        assert("game"@.len() == 4);
        assert("base"@.len() == 4);
        assert("winAppData"@[0] == 'w');
        assert("winLocalAppData"@.len() == 15);
        assert("winLocalAppDataLow"@.len() == 18);
        assert("winDocuments"@.len() == 12);
        assert("winPublic"@.len() == 9);
        assert("winProgramData"@.len() == 14);
        assert("winDir"@.len() == 6);
        assert("xdgData"@[0] == 'x');
        assert("xdgConfig"@.len() == 9);
    }
    // The tail after the token substitutes to itself.
    let tail = rest.skip(8);
    assert(tail =~= seq!['/', 'x']);
    assert(!tail.contains('<')) by {
        if tail.contains('<') {
            let k = choose|k: int| 0 <= k < tail.len() && tail[k] == '<';
            assert(tail[k] != '<');
        }
    }
    lemma_subst_nobracket(tail, game, root, ctx);
    let out = seq!['<'] + name + seq!['>'] + tail;
    assert(subst_vars(s, game, root, ctx) == Ok::<Seq<char>, (ErrKind, Seq<char>)>(out));
    assert(out =~= s);
    // The leftover token is found again by the final check.
    assert(s[0] == '<');
    assert(s.contains('<'));
    assert(s.contains('>')) by {
        assert(s[8] == '>');
    }
    lemma_find_idx(s, '<');
    assert(find_idx(s, '<') == 0);
    let tl = s.skip(0);
    assert(tl =~= s);
    let td = tl.drop_first();
    assert(td =~= rest);
    assert(leftmost_token(s) == tl.take(find_idx(td, '>') + 2));
    assert(tl.take(9) =~= "<unknown>"@);
}

} // verus!
