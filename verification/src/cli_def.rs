//! The commands of the command line, and what each asks of a release run.

use crate::conventional::{option_view, string_views};
use crate::eco::texts_from;
use crate::pipeline::{ExitCode, ReleaseOptions, ReleaseOptionsView};
use crate::shells::Shell;
use crate::text::{decimal, push_decimal, push_text, string_of};
use crate::version::{semver_parse, written, Version, VersionView};
use vstd::prelude::*;

verus! {

/// The command line as a whole.
#[derive(Debug)]
pub struct Cli {
    pub command: Commands,
    /// Working directory to use; the current directory where it is not given.
    pub cwd: Option<String>,
    /// How often `-v` was given.
    pub verbose: u8,
}

/// The shell to generate completions for.
#[derive(Debug)]
pub struct Completions {
    pub shell: Shell,
}

/// The subcommands.
#[derive(Debug)]
pub enum Commands {
    /// Generate shell completions.
    Completions(Completions),
    /// Show the next inferred version.
    Show { from: Option<String>, to: Option<String>, new_version: Option<String> },
    /// Generate a release block for a range of commits.
    Generate {
        write: bool,
        output: Option<String>,
        from: Option<String>,
        to: Option<String>,
        new_version: Option<String>,
        no_authors: bool,
        exclude_author: Vec<String>,
        hide_author_email: bool,
        clean: bool,
        sign: bool,
        yes: bool,
        no_github_alias: bool,
        github_token: Option<String>,
    },
    /// Run a full release.
    Release {
        dry_run: bool,
        from: Option<String>,
        to: Option<String>,
        new_version: Option<String>,
        no_authors: bool,
        exclude_author: Vec<String>,
        hide_author_email: bool,
        clean: bool,
        sign: bool,
        yes: bool,
        no_github_alias: bool,
        github_token: Option<String>,
    },
    /// Synchronize a GitHub release with the changelog.
    Github { tag: String, body_path: Option<String> },
}

/// The version that an optional text writes, if it writes one.
pub open spec fn wanted_version(text: Option<Seq<char>>) -> Option<VersionView> {
    match text {
        Some(t) => match semver_parse(t) {
            Ok(v) => Some(v),
            Err(_) => None,
        },
        None => None,
    }
}

/// The first of the two that is given.
pub open spec fn first_of(a: Option<Seq<char>>, b: Option<Seq<char>>) -> Option<Seq<char>> {
    match a {
        Some(_) => a,
        None => b,
    }
}

/// What a command asks of a release run in the directory `cwd`, with the
/// token `env_token` from the environment for where the command line gives
/// none. Showing the version is a dry run without authors that asks no
/// questions. Generating is a dry run unless it is to write. The commands
/// that run no release ask nothing.
pub open spec fn requested(command: &Commands, cwd: Seq<char>, env_token: Option<Seq<char>>)
    -> Option<ReleaseOptionsView> {
    match command {
        Commands::Show { from, to, new_version } => Some(
            ReleaseOptionsView {
                cwd,
                from: option_view(*from),
                to: option_view(*to),
                dry_run: true,
                new_version: wanted_version(option_view(*new_version)),
                no_authors: true,
                exclude_authors: Seq::empty(),
                hide_author_email: false,
                clean: false,
                sign: false,
                yes: true,
                github_alias: false,
                github_token: None,
            },
        ),
        Commands::Generate {
            write,
            output,
            from,
            to,
            new_version,
            no_authors,
            exclude_author,
            hide_author_email,
            clean,
            sign,
            yes,
            no_github_alias,
            github_token,
        } => Some(
            ReleaseOptionsView {
                cwd,
                from: option_view(*from),
                to: option_view(*to),
                dry_run: !*write,
                new_version: wanted_version(option_view(*new_version)),
                no_authors: *no_authors,
                exclude_authors: string_views(exclude_author@),
                hide_author_email: *hide_author_email,
                clean: *clean,
                sign: *sign,
                yes: *yes,
                github_alias: !*no_github_alias,
                github_token: first_of(option_view(*github_token), env_token),
            },
        ),
        Commands::Release {
            dry_run,
            from,
            to,
            new_version,
            no_authors,
            exclude_author,
            hide_author_email,
            clean,
            sign,
            yes,
            no_github_alias,
            github_token,
        } => Some(
            ReleaseOptionsView {
                cwd,
                from: option_view(*from),
                to: option_view(*to),
                dry_run: *dry_run,
                new_version: wanted_version(option_view(*new_version)),
                no_authors: *no_authors,
                exclude_authors: string_views(exclude_author@),
                hide_author_email: *hide_author_email,
                clean: *clean,
                sign: *sign,
                yes: *yes,
                github_alias: !*no_github_alias,
                github_token: first_of(option_view(*github_token), env_token),
            },
        ),
        _ => None,
    }
}

/// The version that an optional text writes, if it writes one.
fn read_wanted_version(text: &Option<String>) -> (r: Option<Version>)
    ensures
        crate::infer::version_option_view(r) == wanted_version(option_view(*text)),
{
    match text {
        Some(t) => match Version::parse(t.as_str()) {
            Ok(v) => Some(v),
            Err(_) => None,
        },
        None => None,
    }
}

/// A copy of an optional text.
fn copy_option(text: &Option<String>) -> (r: Option<String>)
    ensures
        r == *text,
{
    match text {
        Some(t) => Some(t.clone()),
        None => None,
    }
}

/// A copy of a list of texts.
fn copy_texts(texts: &Vec<String>) -> (r: Vec<String>)
    ensures
        string_views(r@) == string_views(texts@),
{
    let mut out: Vec<String> = Vec::new();
    let mut i: usize = 0;
    while i < texts.len()
        invariant
            i <= texts@.len(),
            out@.len() == i,
            forall|j: int| 0 <= j < i ==> (#[trigger] out@[j])@ == texts@[j]@,
        decreases texts@.len() - i,
    {
        out.push(texts[i].clone());
        i += 1;
    }
    assert(string_views(out@) =~= string_views(texts@));
    out
}

/// The token of the command line, or that of the environment.
fn pick_token(given: &Option<String>, env_token: &Option<String>) -> (r: Option<String>)
    ensures
        option_view(r) == first_of(option_view(*given), option_view(*env_token)),
{
    match given {
        Some(t) => Some(t.clone()),
        None => copy_option(env_token),
    }
}

/// What `command` asks of a release run in the directory `cwd`.
pub fn release_options(command: &Commands, cwd: &str, env_token: &Option<String>) -> (r: Option<
    ReleaseOptions,
>)
    ensures
        match r {
            Some(opts) => requested(command, cwd@, option_view(*env_token)) == Some(opts@),
            None => requested(command, cwd@, option_view(*env_token)) is None,
        },
{
    match command {
        Commands::Show { from, to, new_version } => {
            let none: Vec<String> = Vec::new();
            assert(string_views(none@) =~= Seq::<Seq<char>>::empty());
            let exclude_authors = texts_from(none);
            Some(
                ReleaseOptions {
                    cwd: cwd.to_owned(),
                    from: copy_option(from),
                    to: copy_option(to),
                    dry_run: true,
                    new_version: read_wanted_version(new_version),
                    no_authors: true,
                    exclude_authors,
                    hide_author_email: false,
                    clean: false,
                    sign: false,
                    yes: true,
                    github_alias: false,
                    github_token: None,
                },
            )
        },
        Commands::Generate {
            write,
            output,
            from,
            to,
            new_version,
            no_authors,
            exclude_author,
            hide_author_email,
            clean,
            sign,
            yes,
            no_github_alias,
            github_token,
        } => Some(
            ReleaseOptions {
                cwd: cwd.to_owned(),
                from: copy_option(from),
                to: copy_option(to),
                dry_run: !*write,
                new_version: read_wanted_version(new_version),
                no_authors: *no_authors,
                exclude_authors: texts_from(copy_texts(exclude_author)),
                hide_author_email: *hide_author_email,
                clean: *clean,
                sign: *sign,
                yes: *yes,
                github_alias: !*no_github_alias,
                github_token: pick_token(github_token, env_token),
            },
        ),
        Commands::Release {
            dry_run,
            from,
            to,
            new_version,
            no_authors,
            exclude_author,
            hide_author_email,
            clean,
            sign,
            yes,
            no_github_alias,
            github_token,
        } => Some(
            ReleaseOptions {
                cwd: cwd.to_owned(),
                from: copy_option(from),
                to: copy_option(to),
                dry_run: *dry_run,
                new_version: read_wanted_version(new_version),
                no_authors: *no_authors,
                exclude_authors: texts_from(copy_texts(exclude_author)),
                hide_author_email: *hide_author_email,
                clean: *clean,
                sign: *sign,
                yes: *yes,
                github_alias: !*no_github_alias,
                github_token: pick_token(github_token, env_token),
            },
        ),
        _ => None,
    }
}

/// How a command ends after its release run: showing the version always
/// well; generating well unless it was to write and wrote nothing; a release
/// well only where it wrote.
pub open spec fn exit_after(command: &Commands, wrote: bool) -> ExitCode {
    match command {
        Commands::Generate { write, .. } => if *write && !wrote {
            ExitCode::NoChange
        } else {
            ExitCode::Success
        },
        Commands::Release { .. } => if wrote {
            ExitCode::Success
        } else {
            ExitCode::NoChange
        },
        _ => ExitCode::Success,
    }
}

/// How `command` ends after a release run that did or did not write.
pub fn exit_code_after(command: &Commands, wrote: bool) -> (r: ExitCode)
    ensures
        r == exit_after(command, wrote),
{
    match command {
        Commands::Generate { write, .. } => if *write && !wrote {
            ExitCode::NoChange
        } else {
            ExitCode::Success
        },
        Commands::Release { .. } => if wrote {
            ExitCode::Success
        } else {
            ExitCode::NoChange
        },
        _ => ExitCode::Success,
    }
}

/// The line that reports what generating came to.
pub open spec fn generated_line(version: VersionView, commits: usize, write: bool, wrote: bool)
    -> Seq<char> {
    "Generated v"@ + written(version) + " ("@ + decimal(commits as nat) + " commits)"@ + (
    if write {
        if wrote {
            " and updated CHANGELOG.md"@
        } else {
            " (no change)"@
        }
    } else {
        Seq::<char>::empty()
    })
}

/// The line that reports what a release came to.
pub open spec fn released_line(version: VersionView, wrote: bool) -> Seq<char> {
    if wrote {
        "Released v"@ + written(version)
    } else {
        "No change for v"@ + written(version)
    }
}

/// The line that reports what generating came to.
pub fn report_generated(version: &Version, commits: usize, write: bool, wrote: bool) -> (r:
    String)
    ensures
        r@ == generated_line(version@, commits, write, wrote),
{
    let mut out: Vec<char> = Vec::new();
    push_text(&mut out, "Generated v");
    version.write_to(&mut out);
    push_text(&mut out, " (");
    push_decimal(&mut out, commits as u64);
    push_text(&mut out, " commits)");
    if write {
        if wrote {
            push_text(&mut out, " and updated CHANGELOG.md");
        } else {
            push_text(&mut out, " (no change)");
        }
    }
    assert(out@ =~= generated_line(version@, commits, write, wrote));
    string_of(out.as_slice())
}

/// The line that reports what a release came to.
pub fn report_released(version: &Version, wrote: bool) -> (r: String)
    ensures
        r@ == released_line(version@, wrote),
{
    let mut out: Vec<char> = Vec::new();
    if wrote {
        push_text(&mut out, "Released v");
    } else {
        push_text(&mut out, "No change for v");
    }
    version.write_to(&mut out);
    string_of(out.as_slice())
}

/// How an argument is given on the command line.
#[derive(Debug, Clone, Copy, PartialEq, Eq, Structural)]
pub enum ArgKind {
    /// A switch that is on where it is given.
    Flag,
    /// A switch that counts how often it is given.
    Count,
    /// An option with one value.
    Value,
    /// An option with a value that may be given more than once.
    Values,
    /// A value without a name before it, which must be given.
    Positional,
}

/// One argument of a command.
#[derive(Debug, Clone, Copy)]
pub struct ArgSpec {
    /// The name after the two hyphens, and the name under which the value is
    /// found again.
    pub long: &'static str,
    /// The letter after the single hyphen, if the argument has one.
    pub short: Option<char>,
    pub kind: ArgKind,
    /// How the value is called in the help text; empty for none.
    pub value_name: &'static str,
    pub help: &'static str,
}

/// One command with its arguments.
#[derive(Debug)]
pub struct CommandSpec {
    pub name: &'static str,
    pub about: &'static str,
    pub args: Vec<ArgSpec>,
}

/// No two of the arguments have the same short letter.
pub open spec fn distinct_shorts(args: Seq<ArgSpec>) -> bool {
    forall|i: int, j: int|
        0 <= i < j < args.len() && (#[trigger] args[i]).short is Some && (#[trigger] args[j]).short
            is Some ==> args[i].short != args[j].short
}

/// No two of the arguments have the same long name.
pub open spec fn distinct_longs(args: Seq<ArgSpec>) -> bool {
    forall|i: int, j: int|
        0 <= i < j < args.len() ==> (#[trigger] args[i]).long@ != (#[trigger] args[j]).long@
}

/// No two of the commands have the same name.
pub open spec fn distinct_names(commands: Seq<CommandSpec>) -> bool {
    forall|i: int, j: int|
        0 <= i < j < commands.len() ==> (#[trigger] commands[i]).name@ != (
        #[trigger] commands[j]).name@
}

/// A switch with the given names and help text.
pub open spec fn switch(long: &'static str, short: Option<char>, help: &'static str) -> ArgSpec {
    ArgSpec { long, short, kind: ArgKind::Flag, value_name: "", help }
}

/// An option with one value, with the given names and help text.
pub open spec fn option(
    long: &'static str,
    short: Option<char>,
    value_name: &'static str,
    help: &'static str,
) -> ArgSpec {
    ArgSpec { long, short, kind: ArgKind::Value, value_name, help }
}

/// An argument that is a switch.
fn flag(long: &'static str, short: Option<char>, help: &'static str) -> (r: ArgSpec)
    ensures
        r == switch(long, short, help),
{
    ArgSpec { long, short, kind: ArgKind::Flag, value_name: "", help }
}

/// An argument that takes one value.
fn value(
    long: &'static str,
    short: Option<char>,
    value_name: &'static str,
    help: &'static str,
) -> (r: ArgSpec)
    ensures
        r == option(long, short, value_name, help),
{
    ArgSpec { long, short, kind: ArgKind::Value, value_name, help }
}

/// The arguments that stand before the command.
pub fn global_args() -> (r: Vec<ArgSpec>)
    ensures
        r@.len() == 2,
        distinct_shorts(r@),
        distinct_longs(r@),
{
    let mut args: Vec<ArgSpec> = Vec::new();
    args.push(
        value("cwd", Some('c'), "", "Working directory to use (defaults to current directory)"),
    );
    args.push(
        ArgSpec {
            long: "verbose",
            short: Some('v'),
            kind: ArgKind::Count,
            value_name: "",
            help: "Increase verbosity (-v, -vv, -vvv)",
        },
    );
    proof {
        reveal_strlit("cwd");
        reveal_strlit("verbose");
        assert("cwd"@.len() != "verbose"@.len());
    }
    args
}

/// The arguments that name a range of commits and a version: `from`, `to`
/// and `new-version`, the last with the short letter that is given.
pub open spec fn range_table(version_short: Option<char>) -> Seq<ArgSpec> {
    seq![
        option("from", Some('f'), "", "From tag version range"),
        option("to", Some('t'), "", "To tag version range"),
        option(
            "new-version",
            version_short,
            "SEMVER",
            "Override the inferred next version (e.g. \"1.2.3\")",
        ),
    ]
}

/// The arguments that generating and releasing have in common, without
/// those on authors: the switches on addresses, the working tree, signing,
/// questions and handles, and the token.
pub open spec fn tail_table() -> Seq<ArgSpec> {
    seq![
        switch("hide-author-email", Some('E'), "Hide authors emails"),
        switch("clean", Some('c'), "Require a clean working tree"),
        switch("sign", Some('s'), "Sign release"),
        switch("yes", Some('y'), "Automatically confirm all prompts (non-interactive mode)"),
        switch(
            "no-github-alias",
            Some('G'),
            "Disable GitHub aliasing (enabled by default, converts email addresses to @handles)",
        ),
        option(
            "github-token",
            Some('g'),
            "",
            "GitHub token for API access (reads from GITHUB_TOKEN or GH_TOKEN env vars)",
        ),
    ]
}

/// The argument that names authors to leave out, which may be given more
/// than once.
pub open spec fn exclude_author_arg(short: Option<char>) -> ArgSpec {
    ArgSpec {
        long: "exclude-author",
        short,
        kind: ArgKind::Values,
        value_name: "NAME_OR_EMAIL",
        help: "Exclude specific authors by name or email (repeatable)",
    }
}

/// The arguments of `show`: the range of commits and the version.
pub open spec fn show_table() -> Seq<ArgSpec> {
    range_table(Some('n'))
}

/// The arguments of `generate`, in the order in which the help shows them.
pub open spec fn generate_table() -> Seq<ArgSpec> {
    seq![
        switch(
            "write",
            Some('w'),
            "Write the changelog to CHANGELOG.md (default: print to stdout)",
        ),
        option(
            "output",
            Some('o'),
            "PATH",
            "Output path for changelog file (implies --write if path is CHANGELOG.md)",
        ),
    ] + range_table(Some('n')) + seq![
        switch("no-authors", Some('N'), "Exclude contributors section from changelog"),
        exclude_author_arg(Some('e')),
    ] + tail_table()
}

/// The arguments of `release`, in the order in which the help shows them.
/// The version and the authors to leave out have no short letter here.
pub open spec fn release_table() -> Seq<ArgSpec> {
    seq![
        switch(
            "dry-run",
            Some('d'),
            "Simulate the release process without making changes (preview only)",
        ),
    ] + range_table(None) + seq![
        switch("no-authors", Some('n'), "Exclude contributors section from changelog"),
        exclude_author_arg(None),
    ] + tail_table()
}

/// The arguments of `github`: the tag, and the file with the text of the
/// release.
pub open spec fn github_table() -> Seq<ArgSpec> {
    seq![
        option("tag", Some('t'), "", "The git tag to sync as a GitHub release"),
        option(
            "body-path",
            Some('b'),
            "",
            "Path to file containing release body (defaults to changelog block)",
        ),
    ]
}

/// The one argument of `completions`: the shell, without a name before it.
pub open spec fn completions_table() -> Seq<ArgSpec> {
    seq![
        ArgSpec {
            long: "shell",
            short: None,
            kind: ArgKind::Positional,
            value_name: "",
            help: "The shell to generate completions for (e.g. bash, zsh, fish, powershell).",
        },
    ]
}

/// The arguments that name a range of commits and a version.
fn range_args(args: &mut Vec<ArgSpec>, version_short: Option<char>)
    requires
        old(args)@.len() <= 10,
    ensures
        final(args)@ == old(args)@ + range_table(version_short),
        final(args)@.len() == old(args)@.len() + 3,
        forall|i: int| 0 <= i < old(args)@.len() ==> final(args)@[i] == old(args)@[i],
        final(args)@[old(args)@.len() as int].long == "from",
        final(args)@[old(args)@.len() as int].short == Some('f'),
        final(args)@[old(args)@.len() as int + 1].long == "to",
        final(args)@[old(args)@.len() as int + 1].short == Some('t'),
        final(args)@[old(args)@.len() as int + 2].long == "new-version",
        final(args)@[old(args)@.len() as int + 2].short == version_short,
{
    args.push(value("from", Some('f'), "", "From tag version range"));
    args.push(value("to", Some('t'), "", "To tag version range"));
    args.push(
        value(
            "new-version",
            version_short,
            "SEMVER",
            "Override the inferred next version (e.g. \"1.2.3\")",
        ),
    );
    assert(args@ =~= old(args)@ + range_table(version_short));
}

/// The arguments that generating and releasing have in common, without
/// those on authors.
fn release_tail(args: &mut Vec<ArgSpec>)
    requires
        old(args)@.len() <= 10,
    ensures
        final(args)@ == old(args)@ + tail_table(),
        final(args)@.len() == old(args)@.len() + 6,
        forall|i: int| 0 <= i < old(args)@.len() ==> final(args)@[i] == old(args)@[i],
        final(args)@[old(args)@.len() as int].long == "hide-author-email",
        final(args)@[old(args)@.len() as int].short == Some('E'),
        final(args)@[old(args)@.len() as int + 1].long == "clean",
        final(args)@[old(args)@.len() as int + 1].short == Some('c'),
        final(args)@[old(args)@.len() as int + 2].long == "sign",
        final(args)@[old(args)@.len() as int + 2].short == Some('s'),
        final(args)@[old(args)@.len() as int + 3].long == "yes",
        final(args)@[old(args)@.len() as int + 3].short == Some('y'),
        final(args)@[old(args)@.len() as int + 4].long == "no-github-alias",
        final(args)@[old(args)@.len() as int + 4].short == Some('G'),
        final(args)@[old(args)@.len() as int + 5].long == "github-token",
        final(args)@[old(args)@.len() as int + 5].short == Some('g'),
{
    args.push(flag("hide-author-email", Some('E'), "Hide authors emails"));
    args.push(flag("clean", Some('c'), "Require a clean working tree"));
    args.push(flag("sign", Some('s'), "Sign release"));
    args.push(flag("yes", Some('y'), "Automatically confirm all prompts (non-interactive mode)"));
    args.push(
        flag(
            "no-github-alias",
            Some('G'),
            "Disable GitHub aliasing (enabled by default, converts email addresses to @handles)",
        ),
    );
    args.push(
        value(
            "github-token",
            Some('g'),
            "",
            "GitHub token for API access (reads from GITHUB_TOKEN or GH_TOKEN env vars)",
        ),
    );
    assert(args@ =~= old(args)@ + tail_table());
}

/// Makes the texts of the argument names known.
proof fn reveal_names()
    ensures
        "from"@.len() == 4,
        "to"@.len() == 2,
        "new-version"@.len() == 11,
        "hide-author-email"@.len() == 17,
        "clean"@.len() == 5,
        "clean"@[0] == 'c',
        "sign"@.len() == 4,
        "sign"@[0] == 's',
        "yes"@.len() == 3,
        "no-github-alias"@.len() == 15,
        "github-token"@.len() == 12,
        "write"@.len() == 5,
        "write"@[0] == 'w',
        "output"@.len() == 6,
        "no-authors"@.len() == 10,
        "exclude-author"@.len() == 14,
        "dry-run"@.len() == 7,
        "from"@[0] == 'f',
        "tag"@.len() == 3,
        "body-path"@.len() == 9,
        "shell"@.len() == 5,
        "completions"@.len() == 11,
        "show"@.len() == 4,
        "show"@[0] == 's',
        "generate"@.len() == 8,
        "release"@.len() == 7,
        "github"@.len() == 6,
{
    reveal_strlit("from");
    reveal_strlit("to");
    reveal_strlit("new-version");
    reveal_strlit("hide-author-email");
    reveal_strlit("clean");
    reveal_strlit("sign");
    reveal_strlit("yes");
    reveal_strlit("no-github-alias");
    reveal_strlit("github-token");
    reveal_strlit("write");
    reveal_strlit("output");
    reveal_strlit("no-authors");
    reveal_strlit("exclude-author");
    reveal_strlit("dry-run");
    reveal_strlit("tag");
    reveal_strlit("body-path");
    reveal_strlit("shell");
    reveal_strlit("completions");
    reveal_strlit("show");
    reveal_strlit("generate");
    reveal_strlit("release");
    reveal_strlit("github");
}

/// The arguments of `show`.
fn show_args() -> (r: Vec<ArgSpec>)
    ensures
        r@ == show_table(),
        distinct_shorts(r@),
        distinct_longs(r@),
{
    let mut args: Vec<ArgSpec> = Vec::new();
    range_args(&mut args, Some('n'));
    proof {
        reveal_names();
        assert(args@ =~= show_table());
    }
    args
}

/// The arguments of `generate`.
fn generate_args() -> (r: Vec<ArgSpec>)
    ensures
        r@ == generate_table(),
        distinct_shorts(r@),
        distinct_longs(r@),
{
    let mut args: Vec<ArgSpec> = Vec::new();
    args.push(
        flag("write", Some('w'), "Write the changelog to CHANGELOG.md (default: print to stdout)"),
    );
    args.push(
        value(
            "output",
            Some('o'),
            "PATH",
            "Output path for changelog file (implies --write if path is CHANGELOG.md)",
        ),
    );
    let ghost head = args@;
    range_args(&mut args, Some('n'));
    args.push(flag("no-authors", Some('N'), "Exclude contributors section from changelog"));
    args.push(
        ArgSpec {
            long: "exclude-author",
            short: Some('e'),
            kind: ArgKind::Values,
            value_name: "NAME_OR_EMAIL",
            help: "Exclude specific authors by name or email (repeatable)",
        },
    );
    let ghost middle = args@;
    release_tail(&mut args);
    proof {
        reveal_names();
        assert(middle =~= head + range_table(Some('n')) + seq![
            switch("no-authors", Some('N'), "Exclude contributors section from changelog"),
            exclude_author_arg(Some('e')),
        ]);
        assert(args@ =~= generate_table());
    }
    args
}

/// The arguments of `release`.
fn release_args() -> (r: Vec<ArgSpec>)
    ensures
        r@ == release_table(),
        distinct_shorts(r@),
        distinct_longs(r@),
{
    let mut args: Vec<ArgSpec> = Vec::new();
    args.push(
        flag(
            "dry-run",
            Some('d'),
            "Simulate the release process without making changes (preview only)",
        ),
    );
    let ghost head = args@;
    range_args(&mut args, None);
    args.push(flag("no-authors", Some('n'), "Exclude contributors section from changelog"));
    args.push(
        ArgSpec {
            long: "exclude-author",
            short: None,
            kind: ArgKind::Values,
            value_name: "NAME_OR_EMAIL",
            help: "Exclude specific authors by name or email (repeatable)",
        },
    );
    let ghost middle = args@;
    release_tail(&mut args);
    proof {
        reveal_names();
        assert(middle =~= head + range_table(None) + seq![
            switch("no-authors", Some('n'), "Exclude contributors section from changelog"),
            exclude_author_arg(None),
        ]);
        assert(args@ =~= release_table());
    }
    args
}

/// The arguments of `github`.
fn github_args() -> (r: Vec<ArgSpec>)
    ensures
        r@ == github_table(),
        distinct_shorts(r@),
        distinct_longs(r@),
{
    let mut args: Vec<ArgSpec> = Vec::new();
    args.push(
        ArgSpec {
            long: "tag",
            short: Some('t'),
            kind: ArgKind::Value,
            value_name: "",
            help: "The git tag to sync as a GitHub release",
        },
    );
    args.push(
        value(
            "body-path",
            Some('b'),
            "",
            "Path to file containing release body (defaults to changelog block)",
        ),
    );
    proof {
        reveal_names();
        assert(args@ =~= github_table());
    }
    args
}

/// The arguments of `completions`.
fn completions_args() -> (r: Vec<ArgSpec>)
    ensures
        r@ == completions_table(),
        distinct_shorts(r@),
        distinct_longs(r@),
{
    let mut args: Vec<ArgSpec> = Vec::new();
    args.push(
        ArgSpec {
            long: "shell",
            short: None,
            kind: ArgKind::Positional,
            value_name: "",
            help: "The shell to generate completions for (e.g. bash, zsh, fish, powershell).",
        },
    );
    assert(args@ =~= completions_table());
    args
}

/// The commands of the command line with their arguments. No two commands
/// share a name, and within a command no two arguments share a long name or
/// a short letter.
pub fn command_table() -> (r: Vec<CommandSpec>)
    ensures
        r@.len() == 5,
        distinct_names(r@),
        forall|i: int|
            0 <= i < r@.len() ==> distinct_shorts((#[trigger] r@[i]).args@) && distinct_longs(
                r@[i].args@,
            ),
{
    let mut out: Vec<CommandSpec> = Vec::new();
    out.push(
        CommandSpec {
            name: "completions",
            about: "Generate shell completions",
            args: completions_args(),
        },
    );
    out.push(
        CommandSpec {
            name: "show",
            about: "Show the next inferred version based on commit history and semver rules.",
            args: show_args(),
        },
    );
    out.push(
        CommandSpec {
            name: "generate",
            about: "Generate a changelog release block for the specified commit range.",
            args: generate_args(),
        },
    );
    out.push(
        CommandSpec {
            name: "release",
            about: "Run a full release: bump version, generate changelog, create git tag, and optionally sign/tag.",
            args: release_args(),
        },
    );
    out.push(
        CommandSpec {
            name: "github",
            about: "Synchronize GitHub releases with local changelog data.",
            args: github_args(),
        },
    );
    proof {
        reveal_names();
    }
    out
}

} // verus!
