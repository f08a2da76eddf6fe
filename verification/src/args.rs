//! The configuration: every knob the watcher runs under, and the parser
//! that builds it from a command-line token vector.
//!
//! The parser works on plain strings; reading the process arguments,
//! canonicalizing the watched root and printing help or errors belong to
//! the surrounding program.
use crate::dispatcher::Invocation;
use crate::dispatcher::all_under_root;
use crate::dispatcher::build_shell_string;
use crate::dispatcher::relativize;
use crate::dispatcher::relativized;
use crate::dispatcher::seq_set;
use crate::dispatcher::shell_join;
use crate::dispatcher::str_eq;
use crate::dispatcher::strip_prefix_spec;
use crate::filter::PathFilter;
use crate::filter::filter_accepts;
use crate::filter::regex_compiles;
use crate::dispatcher::views_of;
use crate::RecursionMode;
use vstd::prelude::*;

verus! {

/// Why a command-line token vector was rejected.  Each variant carries the
/// process exit code the program reports for it.
#[derive(Clone, Copy, PartialEq, Eq, Structural, Debug)]
pub enum ParseError {
    /// The delay value is not an unsigned integer in range.
    BadDelay,
    /// The delay flag is not followed by a value.
    MissingDelay,
    /// The delay value is zero; the quiescence interval must be positive.
    ZeroDelay,
    /// Relativized paths were asked for without passing changed paths.
    RelativizeWithoutPass,
    /// The directory flag is not followed by a path.
    MissingDir,
    /// The filter flag is not followed by a pattern.
    MissingFilter,
    /// The filter pattern is not a valid regular expression.
    BadFilter,
}

/// The exit code reported for each rejection.
pub open spec fn spec_exit_code(e: ParseError) -> i32 {
    match e {
        ParseError::BadDelay => 2,
        ParseError::MissingDelay => 3,
        ParseError::ZeroDelay => 7,
        ParseError::RelativizeWithoutPass => 4,
        ParseError::MissingDir => 5,
        ParseError::MissingFilter => 8,
        ParseError::BadFilter => 9,
    }
}

impl ParseError {
    /// The process exit code this rejection is reported with.
    pub fn exit_code(&self) -> (c: i32)
        ensures
            c == spec_exit_code(*self),
    {
        match self {
            ParseError::BadDelay => 2,
            ParseError::MissingDelay => 3,
            ParseError::ZeroDelay => 7,
            ParseError::RelativizeWithoutPass => 4,
            ParseError::MissingDir => 5,
            ParseError::MissingFilter => 8,
            ParseError::BadFilter => 9,
        }
    }
}

/// A configuration at the level of character sequences: what the parser is
/// specified against.
#[verifier::ext_equal]
pub ghost struct ArgsModel {
    pub verbose: bool,
    pub help: bool,
    pub path: Seq<char>,
    pub delay_seconds: int,
    pub pass_changed_paths: bool,
    pub relativize_paths: bool,
    pub shell: bool,
    pub exit_on_error: bool,
    pub once: bool,
    pub command: Seq<Seq<char>>,
    pub non_recursive: bool,
    pub filter: Option<Seq<char>>,
}

/// The defaults: watch the working directory, half a minute of quiescence,
/// pass changed paths, no filter, no command yet.
pub open spec fn default_model() -> ArgsModel {
    ArgsModel {
        verbose: false,
        help: false,
        path: "./"@,
        delay_seconds: 30,
        pass_changed_paths: true,
        relativize_paths: false,
        shell: false,
        exit_on_error: false,
        once: false,
        command: Seq::empty(),
        non_recursive: false,
        filter: None,
    }
}

/// A decimal digit.
pub open spec fn is_dec_digit(c: char) -> bool {
    ('0' as int) <= c as int <= ('9' as int)
}

/// A non-empty, all-digit character sequence.
pub open spec fn all_digits(s: Seq<char>) -> bool {
    s.len() > 0 && forall|i: int| 0 <= i < s.len() ==> is_dec_digit(#[trigger] s[i])
}

/// The value of a digit sequence read as a decimal number.
pub open spec fn dec_value(s: Seq<char>) -> int
    decreases s.len(),
{
    if s.len() == 0 {
        0
    } else {
        dec_value(s.drop_last()) * 10 + (s.last() as int - '0' as int)
    }
}

proof fn lemma_dec_value_nonneg(s: Seq<char>)
    requires
        forall|i: int| 0 <= i < s.len() ==> is_dec_digit(#[trigger] s[i]),
    ensures
        dec_value(s) >= 0,
    decreases s.len(),
{
    if s.len() > 0 {
        lemma_dec_value_nonneg(s.drop_last());
    }
}

proof fn lemma_dec_value_extend(s: Seq<char>, i: int)
    requires
        forall|k: int| 0 <= k < s.len() ==> is_dec_digit(#[trigger] s[k]),
        0 <= i <= s.len(),
    ensures
        dec_value(s) >= dec_value(s.take(i)),
    decreases s.len() - i,
{
    if i == s.len() {
        assert(s.take(i) =~= s);
    } else {
        lemma_dec_value_extend(s, i + 1);
        assert(s.take(i + 1).drop_last() =~= s.take(i));
        lemma_dec_value_nonneg(s.take(i));
    }
}

/// Read a non-empty, all-digit string as a decimal number.  `None` exactly
/// when the string holds a non-digit, is empty, or the value does not fit.
pub fn parse_u64(s: &str) -> (r: Option<u64>)
    ensures
        r is Some <==> all_digits(s@) && dec_value(s@) <= u64::MAX,
        r is Some ==> r.unwrap() == dec_value(s@),
{
    let n = s.unicode_len();
    if n == 0 {
        return None;
    }
    let mut acc: u64 = 0;
    let mut i: usize = 0;
    while i < n
        invariant
            n == s@.len(),
            0 <= i <= n,
            forall|k: int| 0 <= k < i ==> is_dec_digit(#[trigger] s@[k]),
            acc == dec_value(s@.take(i as int)),
        decreases n - i,
    {
        let c = s.get_char(i);
        let cv = c as u32;
        if cv < '0' as u32 || cv > '9' as u32 {
            return None;
        }
        let d: u64 = (cv - '0' as u32) as u64;
        let wide: u128 = acc as u128 * 10 + d as u128;
        proof {
            assert(s@.take(i + 1).drop_last() =~= s@.take(i as int));
            assert(s@.take(i + 1).last() == s@[i as int]);
        }
        if wide > u64::MAX as u128 {
            proof {
                if all_digits(s@) {
                    lemma_dec_value_extend(s@, i + 1);
                }
            }
            return None;
        }
        acc = (acc * 10) + d;
        i += 1;
    }
    proof {
        assert(s@.take(n as int) =~= s@);
    }
    Some(acc)
}

/// One step of flag recognition, from token `i` on, mirroring how the
/// parser walks the vector: simple flags set a field, valued flags consume
/// the next token, and the first unrecognized token starts the command.
pub open spec fn parse_from(m: ArgsModel, argv: Seq<Seq<char>>, i: int) -> Result<
    ArgsModel,
    ParseError,
>
    decreases argv.len() - i,
{
    if i < 0 || i >= argv.len() {
        Ok(m)
    } else {
        let a = argv[i];
        if a == "-v"@ || a == "--verbose"@ {
            parse_from(ArgsModel { verbose: true, ..m }, argv, i + 1)
        } else if a == "-h"@ || a == "--help"@ {
            parse_from(ArgsModel { help: true, ..m }, argv, i + 1)
        } else if a == "-r"@ || a == "--relativize"@ {
            parse_from(ArgsModel { relativize_paths: true, ..m }, argv, i + 1)
        } else if a == "-o"@ || a == "--once"@ {
            parse_from(ArgsModel { once: true, ..m }, argv, i + 1)
        } else if a == "-p"@ || a == "--pass-paths"@ {
            parse_from(ArgsModel { pass_changed_paths: true, ..m }, argv, i + 1)
        } else if a == "-l"@ || a == "--shell"@ {
            parse_from(ArgsModel { shell: true, ..m }, argv, i + 1)
        } else if a == "-n"@ || a == "--non-recursive"@ {
            parse_from(ArgsModel { non_recursive: true, ..m }, argv, i + 1)
        } else if a == "-x"@ || a == "--exit-on-error"@ {
            parse_from(ArgsModel { exit_on_error: true, ..m }, argv, i + 1)
        } else if a == "-f"@ || a == "--filter"@ {
            if i + 1 < argv.len() {
                if regex_compiles(argv[i + 1]) {
                    parse_from(ArgsModel { filter: Some(argv[i + 1]), ..m }, argv, i + 2)
                } else {
                    Err(ParseError::BadFilter)
                }
            } else {
                Err(ParseError::MissingFilter)
            }
        } else if a == "-s"@ || a == "--seconds"@ {
            if i + 1 < argv.len() {
                if all_digits(argv[i + 1]) && dec_value(argv[i + 1]) <= u64::MAX {
                    if dec_value(argv[i + 1]) == 0 {
                        Err(ParseError::ZeroDelay)
                    } else {
                        parse_from(
                            ArgsModel { delay_seconds: dec_value(argv[i + 1]), ..m },
                            argv,
                            i + 2,
                        )
                    }
                } else {
                    Err(ParseError::BadDelay)
                }
            } else {
                Err(ParseError::MissingDelay)
            }
        } else if a == "-d"@ || a == "--dir"@ {
            if i + 1 < argv.len() {
                parse_from(ArgsModel { path: argv[i + 1], ..m }, argv, i + 2)
            } else {
                Err(ParseError::MissingDir)
            }
        } else {
            Ok(ArgsModel { command: argv.skip(i), ..m })
        }
    }
}

/// The validation and defaulting applied after the flags are read: asking
/// for help short-circuits everything; relativized paths require passing
/// changed paths; and with no command given, `echo` in shell mode with
/// passed paths is substituted.
pub open spec fn finish_model(m: ArgsModel) -> Result<ArgsModel, ParseError> {
    if m.help {
        Ok(m)
    } else if m.relativize_paths && !m.pass_changed_paths {
        Err(ParseError::RelativizeWithoutPass)
    } else if m.command.len() == 0 {
        Ok(
            ArgsModel {
                pass_changed_paths: true,
                shell: true,
                command: seq!["echo"@],
                ..m
            },
        )
    } else {
        Ok(m)
    }
}

/// What parsing a whole token vector yields.  Token 0 is the program name
/// and is skipped.
pub open spec fn parse_spec(argv: Seq<Seq<char>>) -> Result<ArgsModel, ParseError> {
    match parse_from(default_model(), argv, 1) {
        Ok(m) => finish_model(m),
        Err(e) => Err(e),
    }
}

/// The configuration the watcher runs under.
#[derive(Debug)]
pub struct Args {
    /// Log what is happening straight to the console.
    pub verbose: bool,
    /// Print help and exit immediately.
    pub help: bool,
    /// The watched root; the surrounding program canonicalizes it.
    pub path: String,
    /// Seconds of quiescence needed before the command runs.
    pub delay_seconds: u64,
    /// Pass the set of changed paths as arguments to the command.
    pub pass_changed_paths: bool,
    /// Rewrite passed paths relative to the watched root.
    pub relativize_paths: bool,
    /// Run the command through a shell rather than spawning it directly.
    pub shell: bool,
    /// Exit on any encountered error, including non-zero command exits.
    pub exit_on_error: bool,
    /// Exit after the first successful command invocation.
    pub once: bool,
    /// The command and its fixed arguments.
    pub command: Vec<String>,
    /// Watch only the root directory itself, not its subdirectories.
    pub non_recursive: bool,
    /// Drops changed paths the configured pattern matches.
    pub filter: PathFilter,
}

impl Args {
    /// The configuration at the level of character sequences.
    pub open spec fn model(&self) -> ArgsModel {
        ArgsModel {
            verbose: self.verbose,
            help: self.help,
            path: self.path@,
            delay_seconds: self.delay_seconds as int,
            pass_changed_paths: self.pass_changed_paths,
            relativize_paths: self.relativize_paths,
            shell: self.shell,
            exit_on_error: self.exit_on_error,
            once: self.once,
            command: views_of(self.command@),
            non_recursive: self.non_recursive,
            filter: self.filter.spec_pattern(),
        }
    }

    /// A usable configuration: a positive delay, and a command to run
    /// unless help was asked for.
    pub open spec fn wf(&self) -> bool {
        &&& self.delay_seconds >= 1
        &&& (self.help || self.command@.len() > 0)
    }

    /// The watched root directory.
    pub fn dir(&self) -> (d: String)
        ensures
            d@ == self.path@,
    {
        self.path.clone()
    }

    /// The quiescence interval, in seconds.
    pub fn delay(&self) -> (d: u64)
        ensures
            d == self.delay_seconds,
    {
        self.delay_seconds
    }

    /// Whether the filter accepts this fully-qualified path.
    pub fn accepts(&self, path: &str) -> (r: bool)
        ensures
            r == filter_accepts(self.filter.spec_pattern(), path@),
    {
        self.filter.accepts(path)
    }

    /// How deep the watch on the root reaches.
    pub fn recursion_mode(&self) -> (m: RecursionMode)
        ensures
            m == (if self.non_recursive {
                RecursionMode::NonRecursive
            } else {
                RecursionMode::Recursive
            }),
    {
        if self.non_recursive {
            RecursionMode::NonRecursive
        } else {
            RecursionMode::Recursive
        }
    }

    /// Read a configuration from a command-line token vector, token 0 being
    /// the program name.  Returns exactly what `parse_spec` says: the
    /// defaults overridden by the recognized flags, the first unrecognized
    /// token starting the command, validated and defaulted — or the first
    /// rejection encountered.
    #[verifier::rlimit(80)]
    pub fn new(argv: &Vec<String>) -> (r: Result<Args, ParseError>)
        ensures
            match r {
                Ok(a) => parse_spec(views_of(argv@)) == Ok::<ArgsModel, ParseError>(a.model())
                    && a.wf(),
                Err(e) => parse_spec(views_of(argv@)) == Err::<ArgsModel, ParseError>(e),
            },
    {
        let ghost gargv = views_of(argv@);
        let mut a = Args::default();
        proof {
            assert(a.model() =~= default_model());
        }
        let mut i: usize = 1;
        while i < argv.len()
            invariant
                1 <= i,
                gargv == views_of(argv@),
                gargv.len() == argv@.len(),
                a.delay_seconds >= 1,
                parse_from(a.model(), gargv, i as int) == parse_from(default_model(), gargv, 1),
            decreases argv@.len() - i,
        {
            let ghost m_pre = a.model();
            proof {
                assert(gargv[i as int] == argv@[i as int]@);
            }
            let arg = &argv[i];
            if str_eq(arg.as_str(), "-v") || str_eq(arg.as_str(), "--verbose") {
                a.verbose = true;
                proof {
                    assert(a.model() =~= ArgsModel { verbose: true, ..m_pre });
                    assert(parse_from(m_pre, gargv, i as int) == parse_from(
                        a.model(),
                        gargv,
                        i + 1,
                    ));
                }
                i = i + 1;
            } else if str_eq(arg.as_str(), "-h") || str_eq(arg.as_str(), "--help") {
                a.help = true;
                proof {
                    assert(a.model() =~= ArgsModel { help: true, ..m_pre });
                    assert(parse_from(m_pre, gargv, i as int) == parse_from(
                        a.model(),
                        gargv,
                        i + 1,
                    ));
                }
                i = i + 1;
            } else if str_eq(arg.as_str(), "-r") || str_eq(arg.as_str(), "--relativize") {
                a.relativize_paths = true;
                proof {
                    assert(a.model() =~= ArgsModel { relativize_paths: true, ..m_pre });
                    assert(parse_from(m_pre, gargv, i as int) == parse_from(
                        a.model(),
                        gargv,
                        i + 1,
                    ));
                }
                i = i + 1;
            } else if str_eq(arg.as_str(), "-o") || str_eq(arg.as_str(), "--once") {
                a.once = true;
                proof {
                    assert(a.model() =~= ArgsModel { once: true, ..m_pre });
                    assert(parse_from(m_pre, gargv, i as int) == parse_from(
                        a.model(),
                        gargv,
                        i + 1,
                    ));
                }
                i = i + 1;
            } else if str_eq(arg.as_str(), "-p") || str_eq(arg.as_str(), "--pass-paths") {
                a.pass_changed_paths = true;
                proof {
                    assert(a.model() =~= ArgsModel { pass_changed_paths: true, ..m_pre });
                    assert(parse_from(m_pre, gargv, i as int) == parse_from(
                        a.model(),
                        gargv,
                        i + 1,
                    ));
                }
                i = i + 1;
            } else if str_eq(arg.as_str(), "-l") || str_eq(arg.as_str(), "--shell") {
                a.shell = true;
                proof {
                    assert(a.model() =~= ArgsModel { shell: true, ..m_pre });
                    assert(parse_from(m_pre, gargv, i as int) == parse_from(
                        a.model(),
                        gargv,
                        i + 1,
                    ));
                }
                i = i + 1;
            } else if str_eq(arg.as_str(), "-n") || str_eq(arg.as_str(), "--non-recursive") {
                a.non_recursive = true;
                proof {
                    assert(a.model() =~= ArgsModel { non_recursive: true, ..m_pre });
                    assert(parse_from(m_pre, gargv, i as int) == parse_from(
                        a.model(),
                        gargv,
                        i + 1,
                    ));
                }
                i = i + 1;
            } else if str_eq(arg.as_str(), "-x") || str_eq(arg.as_str(), "--exit-on-error") {
                a.exit_on_error = true;
                proof {
                    assert(a.model() =~= ArgsModel { exit_on_error: true, ..m_pre });
                    assert(parse_from(m_pre, gargv, i as int) == parse_from(
                        a.model(),
                        gargv,
                        i + 1,
                    ));
                }
                i = i + 1;
            } else if str_eq(arg.as_str(), "-f") || str_eq(arg.as_str(), "--filter") {
                if i + 1 < argv.len() {
                    proof {
                        assert(gargv[i + 1] == argv@[i + 1]@);
                    }
                    match PathFilter::new(Some(argv[i + 1].clone())) {
                        Some(f) => {
                            a.filter = f;
                            proof {
                                assert(a.model() =~= ArgsModel {
                                    filter: Some(gargv[i + 1]),
                                    ..m_pre
                                });
                                assert(parse_from(m_pre, gargv, i as int) == parse_from(
                                    a.model(),
                                    gargv,
                                    i + 2,
                                ));
                            }
                            i = i + 2;
                        },
                        None => {
                            return Err(ParseError::BadFilter);
                        },
                    }
                } else {
                    return Err(ParseError::MissingFilter);
                }
            } else if str_eq(arg.as_str(), "-s") || str_eq(arg.as_str(), "--seconds") {
                if i + 1 < argv.len() {
                    proof {
                        assert(gargv[i + 1] == argv@[i + 1]@);
                    }
                    match parse_u64(argv[i + 1].as_str()) {
                        Some(v) => {
                            if v == 0 {
                                return Err(ParseError::ZeroDelay);
                            }
                            a.delay_seconds = v;
                            proof {
                                assert(a.model() =~= ArgsModel {
                                    delay_seconds: dec_value(gargv[i + 1]),
                                    ..m_pre
                                });
                                assert(parse_from(m_pre, gargv, i as int) == parse_from(
                                    a.model(),
                                    gargv,
                                    i + 2,
                                ));
                            }
                            i = i + 2;
                        },
                        None => {
                            return Err(ParseError::BadDelay);
                        },
                    }
                } else {
                    return Err(ParseError::MissingDelay);
                }
            } else if str_eq(arg.as_str(), "-d") || str_eq(arg.as_str(), "--dir") {
                if i + 1 < argv.len() {
                    proof {
                        assert(gargv[i + 1] == argv@[i + 1]@);
                    }
                    a.path = argv[i + 1].clone();
                    proof {
                        assert(a.model() =~= ArgsModel { path: gargv[i + 1], ..m_pre });
                        assert(parse_from(m_pre, gargv, i as int) == parse_from(
                            a.model(),
                            gargv,
                            i + 2,
                        ));
                    }
                    i = i + 2;
                } else {
                    return Err(ParseError::MissingDir);
                }
            } else {
                let mut cmd: Vec<String> = Vec::new();
                let mut j: usize = i;
                while j < argv.len()
                    invariant
                        i <= j <= argv@.len(),
                        cmd@.len() == j - i,
                        forall|k: int| 0 <= k < cmd@.len() ==> cmd@[k]@ == argv@[i + k]@,
                    decreases argv@.len() - j,
                {
                    cmd.push(argv[j].clone());
                    j = j + 1;
                }
                a.command = cmd;
                proof {
                    assert forall|k: int| 0 <= k < a.model().command.len() implies a
                        .model().command[k] == gargv.skip(i as int)[k] by {
                        assert(a.model().command[k] == a.command@[k]@);
                    };
                    assert(a.model().command =~= gargv.skip(i as int));
                    assert(a.model() =~= ArgsModel { command: gargv.skip(i as int), ..m_pre });
                    assert(parse_from(m_pre, gargv, i as int) == Ok::<ArgsModel, ParseError>(
                        a.model(),
                    ));
                }
                i = argv.len();
            }
        }
        if a.help {
            return Ok(a);
        }
        if a.relativize_paths && !a.pass_changed_paths {
            return Err(ParseError::RelativizeWithoutPass);
        }
        if a.command.len() == 0 {
            let ghost m_pre = a.model();
            a.pass_changed_paths = true;
            a.shell = true;
            let mut cmd: Vec<String> = Vec::new();
            cmd.push("echo".to_owned());
            a.command = cmd;
            proof {
                assert(a.model().command =~= seq!["echo"@]);
                assert(a.model() =~= ArgsModel {
                    pass_changed_paths: true,
                    shell: true,
                    command: seq!["echo"@],
                    ..m_pre
                });
            }
        }
        Ok(a)
    }
}

/// The paths handed to the command: the changed paths when passing them is
/// configured, nothing otherwise.
pub open spec fn passed_paths(m: ArgsModel, paths: Seq<Seq<char>>) -> Seq<Seq<char>> {
    if m.pass_changed_paths {
        paths
    } else {
        Seq::empty()
    }
}

/// The program an invocation spawns: the shell in shell mode, the
/// configured command otherwise.
pub open spec fn planned_program(m: ArgsModel) -> Seq<char> {
    if m.shell {
        "sh"@
    } else {
        m.command[0]
    }
}

/// The argument vector of an invocation: in shell mode, `-c` and the one
/// concatenated, quoted string; otherwise the command's fixed arguments
/// followed by the passed paths.
pub open spec fn planned_argv(m: ArgsModel, paths: Seq<Seq<char>>) -> Seq<Seq<char>> {
    if m.shell {
        seq!["-c"@] + seq![shell_join(m.command + passed_paths(m, paths))]
    } else {
        m.command.skip(1) + passed_paths(m, paths)
    }
}

impl Args {
    /// Build the external command invocation for a snapshot of changed
    /// paths: a direct spawn of the configured command, or `sh -c` on the
    /// single quoted string, exactly as `planned_program` and
    /// `planned_argv` say.
    pub fn plan_invocation(&self, paths: &Vec<String>) -> (inv: Invocation)
        requires
            self.command@.len() > 0,
        ensures
            inv.program@ == planned_program(self.model()),
            views_of(inv.argv@) == planned_argv(self.model(), views_of(paths@)),
    {
        if self.shell {
            let mut tokens: Vec<String> = Vec::new();
            let mut i: usize = 0;
            while i < self.command.len()
                invariant
                    0 <= i <= self.command@.len(),
                    tokens@.len() == i,
                    forall|k: int| 0 <= k < i ==> tokens@[k]@ == self.command@[k]@,
                decreases self.command@.len() - i,
            {
                tokens.push(self.command[i].clone());
                i = i + 1;
            }
            if self.pass_changed_paths {
                let mut j: usize = 0;
                while j < paths.len()
                    invariant
                        0 <= j <= paths@.len(),
                        tokens@.len() == self.command@.len() + j,
                        forall|k: int| 0 <= k < self.command@.len() ==> tokens@[k]@ == self
                            .command@[k]@,
                        forall|k: int| 0 <= k < j ==> tokens@[self.command@.len() + k]@ == paths@[
                            k
                        ]@,
                    decreases paths@.len() - j,
                {
                    tokens.push(paths[j].clone());
                    j = j + 1;
                }
            }
            proof {
                assert(views_of(tokens@) =~= self.model().command + passed_paths(
                    self.model(),
                    views_of(paths@),
                ));
            }
            let joined = build_shell_string(&tokens);
            let mut argv: Vec<String> = Vec::new();
            argv.push("-c".to_owned());
            argv.push(joined);
            let inv = Invocation { program: "sh".to_owned(), argv };
            proof {
                assert(views_of(inv.argv@) =~= planned_argv(self.model(), views_of(paths@)));
            }
            inv
        } else {
            let program = self.command[0].clone();
            let mut argv: Vec<String> = Vec::new();
            let mut i: usize = 1;
            while i < self.command.len()
                invariant
                    1 <= i <= self.command@.len(),
                    self.command@.len() >= 1,
                    argv@.len() == i - 1,
                    forall|k: int| 0 <= k < i - 1 ==> argv@[k]@ == self.command@[k + 1]@,
                decreases self.command@.len() - i,
            {
                argv.push(self.command[i].clone());
                i = i + 1;
            }
            if self.pass_changed_paths {
                let ghost fixed = self.command@.len() - 1;
                let mut j: usize = 0;
                while j < paths.len()
                    invariant
                        0 <= j <= paths@.len(),
                        fixed == self.command@.len() - 1,
                        self.command@.len() >= 1,
                        argv@.len() == fixed + j,
                        forall|k: int| 0 <= k < fixed ==> argv@[k]@ == self.command@[k + 1]@,
                        forall|k: int| 0 <= k < j ==> argv@[fixed + k]@ == paths@[k]@,
                    decreases paths@.len() - j,
                {
                    argv.push(paths[j].clone());
                    j = j + 1;
                }
            }
            let inv = Invocation { program, argv };
            proof {
                assert(views_of(inv.argv@) =~= planned_argv(self.model(), views_of(paths@)));
            }
            inv
        }
    }

    /// Rewrite every path in the snapshot relative to the watched root.  A
    /// path not under the root is handed back as the error: it signals a
    /// watcher/root mismatch, which the caller treats as unrecoverable.
    pub fn relativize_all(&self, paths: &Vec<String>) -> (r: Result<Vec<String>, String>)
        ensures
            match r {
                Ok(v) => all_under_root(self.path@, views_of(paths@)) && views_of(v@)
                    == relativized(self.path@, views_of(paths@)),
                Err(p) => seq_set(views_of(paths@)).contains(p@) && strip_prefix_spec(
                    self.path@,
                    p@,
                ) is None,
            },
    {
        let mut out: Vec<String> = Vec::new();
        let mut i: usize = 0;
        while i < paths.len()
            invariant
                0 <= i <= paths@.len(),
                out@.len() == i,
                forall|k: int|
                    0 <= k < i ==> strip_prefix_spec(self.path@, #[trigger] paths@[k]@) is Some,
                forall|k: int|
                    0 <= k < i ==> out@[k]@ == strip_prefix_spec(
                        self.path@,
                        #[trigger] paths@[k]@,
                    ).unwrap(),
            decreases paths@.len() - i,
        {
            match relativize(self.path.as_str(), paths[i].as_str()) {
                Some(s) => {
                    out.push(s);
                    i = i + 1;
                },
                None => {
                    proof {
                        assert(views_of(paths@)[i as int] == paths@[i as int]@);
                    }
                    return Err(paths[i].clone());
                },
            }
        }
        proof {
            assert forall|k: int| 0 <= k < paths@.len() implies strip_prefix_spec(
                self.path@,
                #[trigger] views_of(paths@)[k],
            ) is Some by {
                assert(views_of(paths@)[k] == paths@[k]@);
            };
            assert(views_of(out@) =~= relativized(self.path@, views_of(paths@)));
        }
        Ok(out)
    }
}

/// The default configuration, as `default_model` says.
impl Default for Args {
    fn default() -> (a: Args)
        ensures
            a.model() == default_model(),
    {
        let a = Args {
            verbose: false,
            help: false,
            path: "./".to_owned(),
            delay_seconds: 30,
            pass_changed_paths: true,
            relativize_paths: false,
            shell: false,
            exit_on_error: false,
            once: false,
            command: Vec::new(),
            non_recursive: false,
            filter: PathFilter::new(None).unwrap(),
        };
        proof {
            assert(a.model() =~= default_model());
        }
        a
    }
}

} // verus!
