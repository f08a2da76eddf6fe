//! The command dispatcher: builds the external command invocation from a
//! snapshot of changed paths and decides what the process does once an
//! invocation completes.
//!
//! Shell-argument quoting is intentionally partial: a token containing
//! whitespace is wrapped in single quotes, or double quotes if it holds a
//! single quote or a dollar sign; no quote characters inside a token are
//! escaped.  This pins the minimal, best-effort quoting behaviour rather
//! than an idealized fully shell-safe one.
use vstd::prelude::*;

verus! {

/// A token must be quoted when it contains whitespace.
pub open spec fn needs_quoting(s: Seq<char>) -> bool {
    s.contains(' ') || s.contains('\n') || s.contains('\t')
}

/// The quote mark used for a token: double quotes when the token holds a
/// dollar sign or a single quote, single quotes otherwise.
pub open spec fn quote_mark(s: Seq<char>) -> char {
    if s.contains('$') || s.contains('\'') {
        '"'
    } else {
        '\''
    }
}

/// A token as it appears in the built shell string: wrapped in its quote
/// mark when it needs quoting, bare otherwise.
pub open spec fn quote_spec(s: Seq<char>) -> Seq<char> {
    if needs_quoting(s) {
        seq![quote_mark(s)] + s + seq![quote_mark(s)]
    } else {
        s
    }
}

/// One step of joining: append a quoted token, preceded by a space unless
/// nothing has been emitted yet.
pub open spec fn join_step(acc: Seq<char>, tok: Seq<char>) -> Seq<char> {
    if acc.len() == 0 {
        acc + quote_spec(tok)
    } else {
        acc + seq![' '] + quote_spec(tok)
    }
}

/// The single shell string built from a sequence of tokens.
pub open spec fn shell_join(tokens: Seq<Seq<char>>) -> Seq<char>
    decreases tokens.len(),
{
    if tokens.len() == 0 {
        Seq::empty()
    } else {
        join_step(shell_join(tokens.drop_last()), tokens.last())
    }
}

/// The views of a vector of strings.
pub open spec fn views_of(v: Seq<String>) -> Seq<Seq<char>> {
    v.map_values(|s: String| s@)
}

/// Whether the character `c` occurs in `s`.
fn str_contains_char(s: &str, c: char) -> (r: bool)
    ensures
        r == s@.contains(c),
{
    let n = s.unicode_len();
    let mut i: usize = 0;
    while i < n
        invariant
            n == s@.len(),
            0 <= i <= n,
            forall|k: int| 0 <= k < i ==> s@[k] != c,
        decreases n - i,
    {
        if s.get_char(i) == c {
            proof {
                assert(s@[i as int] == c);
            }
            return true;
        }
        i += 1;
    }
    false
}

/// The set of character sequences a sequence holds.
pub open spec fn seq_set(w: Seq<Seq<char>>) -> Set<Seq<char>> {
    Set::new(|p: Seq<char>| exists|i: int| 0 <= i < w.len() && w[i] == p)
}

/// Whether every path lies under the root, as `strip_prefix_spec` decides.
pub open spec fn all_under_root(base: Seq<char>, paths: Seq<Seq<char>>) -> bool {
    forall|i: int| 0 <= i < paths.len() ==> strip_prefix_spec(base, #[trigger] paths[i]) is Some
}

/// Every path rewritten relative to the root.
pub open spec fn relativized(base: Seq<char>, paths: Seq<Seq<char>>) -> Seq<Seq<char>> {
    Seq::new(paths.len(), |i: int| strip_prefix_spec(base, paths[i]).unwrap())
}

/// Whether two string slices hold the same characters.
pub fn str_eq(a: &str, b: &str) -> (r: bool)
    ensures
        r == (a@ == b@),
{
    let n = a.unicode_len();
    if n != b.unicode_len() {
        return false;
    }
    let mut i: usize = 0;
    while i < n
        invariant
            n == a@.len(),
            n == b@.len(),
            0 <= i <= n,
            forall|k: int| 0 <= k < i ==> a@[k] == b@[k],
        decreases n - i,
    {
        if a.get_char(i) != b.get_char(i) {
            return false;
        }
        i += 1;
    }
    proof {
        assert(a@ =~= b@);
    }
    true
}

/// Wrap a token in quotes when it contains whitespace: single quotes, or
/// double quotes if the token itself holds a single quote or a dollar sign;
/// otherwise hand the token back bare.  No quote-character escaping inside
/// the token is performed.
pub fn maybe_quote_or_escape(st: &String) -> (r: String)
    ensures
        r@ == quote_spec(st@),
{
    let needs = str_contains_char(st.as_str(), ' ') || str_contains_char(st.as_str(), '\n')
        || str_contains_char(st.as_str(), '\t');
    if needs {
        let double = str_contains_char(st.as_str(), '$') || str_contains_char(st.as_str(), '\'');
        let mut result = String::new();
        if double {
            result.append("\"");
        } else {
            result.append("'");
        }
        result.append(st.as_str());
        if double {
            result.append("\"");
        } else {
            result.append("'");
        }
        proof {
            reveal_strlit("\"");
            reveal_strlit("'");
            assert(result@ =~= quote_spec(st@));
        }
        result
    } else {
        st.clone()
    }
}

/// Concatenate the given tokens into one shell string, each token quoted as
/// `maybe_quote_or_escape` does, with single spaces in between.
pub fn build_shell_string(tokens: &Vec<String>) -> (r: String)
    ensures
        r@ == shell_join(views_of(tokens@)),
{
    let mut result = String::new();
    let mut i: usize = 0;
    while i < tokens.len()
        invariant
            0 <= i <= tokens@.len(),
            result@ == shell_join(views_of(tokens@).take(i as int)),
        decreases tokens@.len() - i,
    {
        let quoted = maybe_quote_or_escape(&tokens[i]);
        if result.as_str().unicode_len() > 0 {
            result.append(" ");
        }
        result.append(quoted.as_str());
        proof {
            reveal_strlit(" ");
            let vs = views_of(tokens@);
            assert(vs.take(i + 1).drop_last() =~= vs.take(i as int));
            assert(vs.take(i + 1).last() == vs[i as int]);
            assert(result@ =~= join_step(shell_join(vs.take(i as int)), vs[i as int]));
            assert(result@ =~= shell_join(vs.take(i as int + 1)));
        }
        i += 1;
    }
    proof {
        assert(views_of(tokens@).take(tokens@.len() as int) =~= views_of(tokens@));
    }
    result
}

/// A changed path rewritten relative to the watched root: the root, a path
/// separator, and then the remainder — or the empty remainder when the path
/// is the root itself.  `None` when the path is not under the root, which
/// signals a watcher/root mismatch.
pub open spec fn strip_prefix_spec(base: Seq<char>, target: Seq<char>) -> Option<Seq<char>> {
    if target == base {
        Some(Seq::empty())
    } else if base.len() > 0 && base.last() == '/' && target.len() > base.len() && target.take(
        base.len() as int,
    ) == base {
        Some(target.skip(base.len() as int))
    } else if target.len() > base.len() && target.take(base.len() as int) == base && target[
        base.len() as int
    ] == '/' {
        Some(target.skip(base.len() as int + 1))
    } else {
        None
    }
}

/// Whether `target`'s first `base.len()` characters equal `base`.
fn is_char_prefix(base: &str, target: &str) -> (r: bool)
    requires
        base@.len() <= target@.len(),
    ensures
        r == (target@.take(base@.len() as int) == base@),
{
    let n = base.unicode_len();
    let mut i: usize = 0;
    while i < n
        invariant
            n == base@.len(),
            base@.len() <= target@.len(),
            0 <= i <= n,
            forall|k: int| 0 <= k < i ==> target@[k] == base@[k],
        decreases n - i,
    {
        if base.get_char(i) != target.get_char(i) {
            proof {
                assert(target@.take(base@.len() as int)[i as int] != base@[i as int]);
            }
            return false;
        }
        i += 1;
    }
    proof {
        assert(target@.take(base@.len() as int) =~= base@);
    }
    true
}

/// Rewrite `target` relative to the root `base`, as `strip_prefix_spec`
/// says.  `None` means the path is not under the root: the caller treats
/// that as an unrecoverable invariant violation.
pub fn relativize(base: &str, target: &str) -> (r: Option<String>)
    ensures
        match r {
            Some(s) => strip_prefix_spec(base@, target@) == Some(s@),
            None => strip_prefix_spec(base@, target@) is None,
        },
{
    let blen = base.unicode_len();
    let tlen = target.unicode_len();
    if tlen < blen {
        return None;
    }
    if !is_char_prefix(base, target) {
        proof {
            if target@ == base@ {
                assert(target@.take(base@.len() as int) =~= base@);
            }
        }
        return None;
    }
    if tlen == blen {
        proof {
            assert(target@.take(base@.len() as int) =~= target@);
        }
        return Some(String::new());
    }
    if blen > 0 && base.get_char(blen - 1) == '/' {
        let rest = target.substring_char(blen, tlen);
        proof {
            assert(target@.subrange(blen as int, tlen as int) =~= target@.skip(blen as int));
        }
        return Some(rest.to_owned());
    }
    if target.get_char(blen) == '/' {
        let rest = target.substring_char(blen + 1, tlen);
        proof {
            assert(target@.subrange(blen as int + 1, tlen as int) =~= target@.skip(
                blen as int + 1,
            ));
        }
        return Some(rest.to_owned());
    }
    None
}

/// How one command invocation ended: a normal exit (successful or not), a
/// failure while waiting for the child, or a failure to start it at all.
#[derive(Clone, Copy, PartialEq, Eq, Structural, Debug)]
pub enum ExecutionResult {
    Exited { success: bool },
    WaitError,
    SpawnError,
}

/// What the process does once an invocation completes: keep watching, or
/// terminate with the given exit code.
#[derive(Clone, Copy, PartialEq, Eq, Structural, Debug)]
pub enum PostExitAction {
    KeepWatching,
    Terminate { code: i32 },
}

/// The per-invocation exit policy.  A non-zero exit terminates with code 12
/// when exiting on errors; a successful exit terminates with code 0 when
/// running once; a failure while waiting terminates with code 100 and a
/// spawn failure with code 101, both only when exiting on errors; in every
/// other case the process keeps watching.
pub open spec fn policy_spec(exit_on_error: bool, once: bool, r: ExecutionResult) -> PostExitAction {
    match r {
        ExecutionResult::Exited { success } => {
            if exit_on_error && !success {
                PostExitAction::Terminate { code: 12 }
            } else if once && success {
                PostExitAction::Terminate { code: 0 }
            } else {
                PostExitAction::KeepWatching
            }
        },
        ExecutionResult::WaitError => {
            if exit_on_error {
                PostExitAction::Terminate { code: 100 }
            } else {
                PostExitAction::KeepWatching
            }
        },
        ExecutionResult::SpawnError => {
            if exit_on_error {
                PostExitAction::Terminate { code: 101 }
            } else {
                PostExitAction::KeepWatching
            }
        },
    }
}

/// Decide what the process does after one command invocation, from the exit
/// policy flags and how the invocation ended.
pub fn post_exit_policy(exit_on_error: bool, once: bool, r: ExecutionResult) -> (a: PostExitAction)
    ensures
        a == policy_spec(exit_on_error, once, r),
{
    match r {
        ExecutionResult::Exited { success } => {
            if exit_on_error && !success {
                PostExitAction::Terminate { code: 12 }
            } else if once && success {
                PostExitAction::Terminate { code: 0 }
            } else {
                PostExitAction::KeepWatching
            }
        },
        ExecutionResult::WaitError => {
            if exit_on_error {
                PostExitAction::Terminate { code: 100 }
            } else {
                PostExitAction::KeepWatching
            }
        },
        ExecutionResult::SpawnError => {
            if exit_on_error {
                PostExitAction::Terminate { code: 101 }
            } else {
                PostExitAction::KeepWatching
            }
        },
    }
}

/// A fully built invocation: the program to spawn and its argument vector.
/// The caller spawns it and blocks until it exits; that blocking serializes
/// command executions.
pub struct Invocation {
    pub program: String,
    pub argv: Vec<String>,
}

} // verus!
