//! The help text: built here as a plain string; the surrounding program
//! decides whether it goes to stdout or stderr.
use vstd::prelude::*;

verus! {

/// The whole help text, line by line.
pub open spec fn help_text() -> Seq<char> {
    "watchfs\n"@
        + "Generic file-watching with de-bouncing - runs a command on changes once quiescent.\n\n"@
        + "Usage: watchfs [-v|--verbose] [-h|--help] [-s|--seconds n] [-f|--filter regex]\n"@
        + "               [-p|--pass-paths] [-l|--shell] [-r|--relativize]\n"@
        + "               [-o|--once] [-n|--non-recursive] [-d|--dir d] [-x|--exit-on-error] command args...\n\n"@
        + "Watch a folder for file changes, and run some command after any change,\n"@
        + "once a timeout has elapsed with no further changes.\n\n"@
        + "The trailing portion of the command-line is the command that should be run.  If\n"@
        + "none is supplied, `echo` will be substituted and paths will be printed to the\n"@
        + "console.\n\n"@
        + "Arguments:\n----------\n"@
        + " -d --dir d\t\tThe directory to watch (default ./)\n"@
        + " -s --seconds n\t\tThe number of seconds to wait for changes to cease before running the\n\t\t\tcommand (default 30)\n"@
        + " -l --shell\t\tExecute the command in a shell (`sh -c`)\n"@
        + " -p --pass-paths\tPass paths to files that changed as arguments to the command\n"@
        + " -r --relativize\tMake paths to changed files relative to the directory being watched\n"@
        + " -f --filter regexp\tDrop file paths that match this regular expression\n\t\t\t(matches against the fully qualified path, regardless of -r)\n"@
        + " -x --exit-on-error\tExit if the command returns non-zero\n"@
        + " -o --once\t\tExit after running the command *successfully* (zero exit) once\n"@
        + " -n --non-recursive\tDo not listen to subdirectories of the target directory, only\n\t\t\tthe target.\n"@
        + " -v --verbose\t\tDescribe what the application is doing as it does it\n"@
        + " -h --help\t\tPrint this help\n\n"@
        + "The argument interpreter will assume that all arguments including and subsequent\n"@
        + "to the first argument which is not one of the above starts the command to run on changes.\n"@
}

/// Build the help text.
pub fn print_help() -> (r: String)
    ensures
        r@ == help_text(),
{
    let mut s = String::new();
    s.append("watchfs\n");
    s.append(
        "Generic file-watching with de-bouncing - runs a command on changes once quiescent.\n\n",
    );
    s.append("Usage: watchfs [-v|--verbose] [-h|--help] [-s|--seconds n] [-f|--filter regex]\n");
    s.append("               [-p|--pass-paths] [-l|--shell] [-r|--relativize]\n");
    s.append(
        "               [-o|--once] [-n|--non-recursive] [-d|--dir d] [-x|--exit-on-error] command args...\n\n",
    );
    s.append("Watch a folder for file changes, and run some command after any change,\n");
    s.append("once a timeout has elapsed with no further changes.\n\n");
    s.append(
        "The trailing portion of the command-line is the command that should be run.  If\n",
    );
    s.append("none is supplied, `echo` will be substituted and paths will be printed to the\n");
    s.append("console.\n\n");
    s.append("Arguments:\n----------\n");
    s.append(" -d --dir d\t\tThe directory to watch (default ./)\n");
    s.append(
        " -s --seconds n\t\tThe number of seconds to wait for changes to cease before running the\n\t\t\tcommand (default 30)\n",
    );
    s.append(" -l --shell\t\tExecute the command in a shell (`sh -c`)\n");
    s.append(" -p --pass-paths\tPass paths to files that changed as arguments to the command\n");
    s.append(
        " -r --relativize\tMake paths to changed files relative to the directory being watched\n",
    );
    s.append(
        " -f --filter regexp\tDrop file paths that match this regular expression\n\t\t\t(matches against the fully qualified path, regardless of -r)\n",
    );
    s.append(" -x --exit-on-error\tExit if the command returns non-zero\n");
    s.append(" -o --once\t\tExit after running the command *successfully* (zero exit) once\n");
    s.append(
        " -n --non-recursive\tDo not listen to subdirectories of the target directory, only\n\t\t\tthe target.\n",
    );
    s.append(" -v --verbose\t\tDescribe what the application is doing as it does it\n");
    s.append(" -h --help\t\tPrint this help\n\n");
    s.append(
        "The argument interpreter will assume that all arguments including and subsequent\n",
    );
    s.append(
        "to the first argument which is not one of the above starts the command to run on changes.\n",
    );
    proof {
        assert(s@ =~= help_text());
    }
    s
}

} // verus!
