//! The command-line model of `pact`: global options, subcommands and their
//! arguments, and the decisions the subcommand handlers make.

use vstd::prelude::*;
use crate::name::{first_broken_rule, is_valid_project_name, validate_name, NameError};
use crate::order::{distinct_views, lemma_distinct_views_perm, sort_paths, sorted_paths};
use crate::project::{join_path, joined};
use crate::template::{
    substitute, substitute_name, template_entries, template_files, template_name, Template,
    TemplateFile,
};
use crate::text::{before_first, cut_at, find_last_char, last_pos};

verus! {

/// Controls when terminal colour codes are emitted.
#[derive(Clone, Copy, Debug, PartialEq, Eq, Structural)]
pub enum ColorChoice {
    /// Always emit ANSI colour codes.
    Always,
    /// Emit colour codes only when the output is an interactive terminal.
    Auto,
    /// Never emit ANSI colour codes.
    Never,
}

impl Default for ColorChoice {
    fn default() -> (r: ColorChoice)
        ensures
            r == ColorChoice::Auto,
    {
        ColorChoice::Auto
    }
}

/// Options that apply to every subcommand.
#[derive(Clone, Debug)]
pub struct GlobalOpts {
    /// How many times `-v` was passed (0 = default, 1 = debug, 2+ = trace).
    pub verbosity: u8,
    /// Whether the output is silenced.
    pub quiet: bool,
    /// When to emit ANSI colour codes.
    pub color: ColorChoice,
    /// Where build output goes, when given.
    pub target_dir: Option<String>,
}

/// The Pact language toolchain: the parsed command line.
#[derive(Debug)]
pub struct Cli {
    /// Increase logging verbosity (`-v` for debug, `-vv` or more for trace).
    pub verbose: u8,
    /// Suppress all non-error output.
    pub quiet: bool,
    /// Control ANSI colour output (`always`, `auto`, `never`; `auto` by default).
    pub color: ColorChoice,
    /// Directory for build output.
    pub target_dir: Option<String>,
    /// The subcommand to run.
    pub command: Commands,
}

/// Available `pact` subcommands.
#[derive(Debug)]
pub enum Commands {
    /// Compile the current project.
    Build(BuildCmd),
    /// Build and run the project binary.
    Run(RunCmd),
    /// Type-check and effect-check without producing object code.
    Check(CheckCmd),
    /// Start an interactive REPL session.
    Repl(ReplCmd),
    /// Format Pact source files.
    Fmt(FmtCmd),
    /// Run the project's tests.
    Test(TestCmd),
    /// Scaffold a new Pact project.
    New(NewCmd),
}

/// Arguments for `pact build`.
#[derive(Clone, Debug)]
pub struct BuildCmd {
    /// Build in release mode with optimisations.
    pub release: bool,
}

/// Arguments for `pact run`.
#[derive(Clone, Debug)]
pub struct RunCmd {
    /// Build in release mode with optimisations before running.
    pub release: bool,
    /// Arguments forwarded verbatim to the program being run.
    pub passthrough: Vec<String>,
}

/// Arguments for `pact check`.
#[derive(Clone, Debug)]
pub struct CheckCmd {}

/// Arguments for `pact repl`.
#[derive(Clone, Debug)]
pub struct ReplCmd {}

/// Arguments for `pact fmt`.
#[derive(Clone, Debug)]
pub struct FmtCmd {
    /// Check formatting without writing changes.
    pub check: bool,
    /// Source files to format; when empty, every Pact source file of the project.
    pub paths: Vec<String>,
}

/// Arguments for `pact test`.
#[derive(Clone, Debug)]
pub struct TestCmd {
    /// Only run tests whose name contains this filter string.
    pub filter: Option<String>,
}

/// Arguments for `pact new`.
#[derive(Clone, Debug)]
pub struct NewCmd {
    /// The name of the new project (also used as the directory name).
    pub name: String,
    /// Project template to use (`bin` by default).
    pub template: Template,
    /// Overwrite files in an existing non-empty directory.
    pub force: bool,
}

impl Cli {
    /// The options shared by every subcommand.
    pub fn global_opts(&self) -> (r: GlobalOpts)
        ensures
            r.verbosity == self.verbose,
            r.quiet == self.quiet,
            r.color == self.color,
            r.target_dir == self.target_dir,
    {
        let target_dir = match &self.target_dir {
            Some(d) => Some(d.clone()),
            None => None,
        };
        GlobalOpts { verbosity: self.verbose, quiet: self.quiet, color: self.color, target_dir }
    }
}

/// The logging level that the options ask for: `error` when quiet, else
/// `warn`, `debug` or `trace` for zero, one, or more `-v`.
pub open spec fn log_level_of(opts: GlobalOpts) -> Seq<char> {
    if opts.quiet {
        "error"@
    } else if opts.verbosity == 0 {
        "warn"@
    } else if opts.verbosity == 1 {
        "debug"@
    } else {
        "trace"@
    }
}

/// The default logging filter for the options (an environment setting may
/// override it).
pub fn log_filter(opts: &GlobalOpts) -> (r: &'static str)
    ensures
        r@ == log_level_of(*opts),
{
    if opts.quiet {
        return "error";
    }
    match opts.verbosity {
        0 => "warn",
        1 => "debug",
        _ => "trace",
    }
}

/// Quiet means errors only; otherwise no `-v` gives warnings, one gives debug
/// output, and two or more give trace output.
pub proof fn lemma_log_levels(opts: GlobalOpts)
    ensures
        opts.quiet ==> log_level_of(opts) == seq!['e', 'r', 'r', 'o', 'r'],
        !opts.quiet && opts.verbosity == 0 ==> log_level_of(opts) == seq!['w', 'a', 'r', 'n'],
        !opts.quiet && opts.verbosity == 1 ==> log_level_of(opts) == seq!['d', 'e', 'b', 'u', 'g'],
        !opts.quiet && opts.verbosity >= 2 ==> log_level_of(opts) == seq!['t', 'r', 'a', 'c', 'e'],
{
    reveal_strlit("error");
    reveal_strlit("warn");
    reveal_strlit("debug");
    reveal_strlit("trace");
    assert("error"@ =~= seq!['e', 'r', 'r', 'o', 'r']);
    assert("warn"@ =~= seq!['w', 'a', 'r', 'n']);
    assert("debug"@ =~= seq!['d', 'e', 'b', 'u', 'g']);
    assert("trace"@ =~= seq!['t', 'r', 'a', 'c', 'e']);
}

/// Whether log output may carry ANSI colour codes: always for `always`,
/// never for `never`, and for `auto` only when the output is an interactive
/// terminal (`is_tty`).
pub fn use_ansi(opts: &GlobalOpts, is_tty: bool) -> (r: bool)
    ensures
        r == match opts.color {
            ColorChoice::Always => true,
            ColorChoice::Never => false,
            ColorChoice::Auto => is_tty,
        },
{
    match opts.color {
        ColorChoice::Always => true,
        ColorChoice::Never => false,
        ColorChoice::Auto => is_tty,
    }
}

/// What a subcommand handler achieved.
#[derive(Clone, Copy, Debug, PartialEq, Eq, Structural)]
pub enum Status {
    /// The work was done.
    Done,
    /// The subcommand is not implemented yet; nothing was done.
    NotImplemented,
}

/// Execute `pact build` (not implemented yet).
pub fn run_build(cmd: &BuildCmd, global: &GlobalOpts) -> (r: Status)
    ensures
        r == Status::NotImplemented,
{
    Status::NotImplemented
}

/// Execute `pact run` (not implemented yet).
pub fn run_run(cmd: &RunCmd, global: &GlobalOpts) -> (r: Status)
    ensures
        r == Status::NotImplemented,
{
    Status::NotImplemented
}

/// Execute `pact check` (not implemented yet).
pub fn run_check(cmd: &CheckCmd, global: &GlobalOpts) -> (r: Status)
    ensures
        r == Status::NotImplemented,
{
    Status::NotImplemented
}

/// Execute `pact repl` (not implemented yet).
pub fn run_repl(cmd: &ReplCmd, global: &GlobalOpts) -> (r: Status)
    ensures
        r == Status::NotImplemented,
{
    Status::NotImplemented
}

/// Execute `pact fmt` (not implemented yet).
pub fn run_fmt(cmd: &FmtCmd, global: &GlobalOpts) -> (r: Status)
    ensures
        r == Status::NotImplemented,
{
    Status::NotImplemented
}

/// Execute `pact test` (not implemented yet).
pub fn run_test(cmd: &TestCmd, global: &GlobalOpts) -> (r: Status)
    ensures
        r == Status::NotImplemented,
{
    Status::NotImplemented
}

impl Commands {
    /// The subcommand's name as typed on the command line.
    pub fn name(&self) -> (r: &'static str)
        ensures
            r@ == match self {
                Commands::Build(_) => "build"@,
                Commands::Run(_) => "run"@,
                Commands::Check(_) => "check"@,
                Commands::Repl(_) => "repl"@,
                Commands::Fmt(_) => "fmt"@,
                Commands::Test(_) => "test"@,
                Commands::New(_) => "new"@,
            },
    {
        match self {
            Commands::Build(_) => "build",
            Commands::Run(_) => "run",
            Commands::Check(_) => "check",
            Commands::Repl(_) => "repl",
            Commands::Fmt(_) => "fmt",
            Commands::Test(_) => "test",
            Commands::New(_) => "new",
        }
    }
}

/// A file that `pact new` writes: where, and what.
#[derive(Clone, Debug)]
pub struct PlannedFile {
    pub path: String,
    pub content: String,
}

/// Everything `pact new` does to the file system, decided up front.
#[derive(Clone, Debug)]
pub struct NewPlan {
    /// The project directory (the project name).
    pub project_dir: String,
    /// Existing entries of the directory that the template does not write;
    /// each gets a warning and is left in place.
    pub strays: Vec<String>,
    /// Directories to create, in path order.
    pub dirs: Vec<String>,
    /// Files to write, in template order.
    pub files: Vec<PlannedFile>,
    /// A status line for standard error once done (standard output stays
    /// empty); none when quiet.
    pub notice: Option<String>,
}

/// Why `pact new` refused to start.
#[derive(Clone, Debug)]
pub enum NewError {
    /// The project name is not legal.
    InvalidName(NameError),
    /// The target directory exists, is non-empty, and `--force` was not given.
    NotEmpty { dir: String },
}

impl NewError {
    /// The text shown to the user for this error.
    pub fn message(&self) -> (r: String)
        ensures
            match self {
                NewError::InvalidName(e) => e.message_spec() == r@,
                NewError::NotEmpty { dir } => r@ == "directory `"@ + dir@
                    + "` already exists and is non-empty; pass --force to overwrite"@,
            },
    {
        match self {
            NewError::InvalidName(e) => e.message(),
            NewError::NotEmpty { dir } => {
                let mut r = String::from_str("directory `");
                r.append(dir.as_str());
                r.append("` already exists and is non-empty; pass --force to overwrite");
                r
            },
        }
    }
}

/// The directory part of a relative path: what stands before its last `/`
/// (empty where there is none).
pub open spec fn rel_parent(p: Seq<char>) -> Seq<char> {
    if last_pos(p, '/') >= 0 {
        p.take(last_pos(p, '/'))
    } else {
        Seq::empty()
    }
}

/// `e` is the first component of one of the template's paths.
pub open spec fn is_template_top(e: Seq<char>, t: Template) -> bool {
    exists|i: int|
        0 <= i < template_entries(t).len() && cut_at(#[trigger] template_entries(t)[i].path@, '/')
            == e
}

/// `d` is a directory that generating `t` into `name` creates.
pub open spec fn is_planned_dir(d: Seq<char>, name: Seq<char>, t: Template) -> bool {
    exists|i: int|
        0 <= i < template_entries(t).len() && rel_parent(#[trigger] template_entries(t)[i].path@).len()
            > 0 && d == joined(name, rel_parent(template_entries(t)[i].path@))
}

/// The existing entries that the template does not account for, in their
/// order.
pub open spec fn stray_names(existing: Seq<String>, t: Template) -> Seq<String>
    decreases existing.len(),
{
    if existing.len() == 0 {
        Seq::empty()
    } else {
        let rest = stray_names(existing.drop_last(), t);
        if is_template_top(existing.last()@, t) {
            rest
        } else {
            rest.push(existing.last())
        }
    }
}

/// The status line reported after a project was created.
pub open spec fn notice_of(t: Template, name: Seq<char>) -> Seq<char> {
    "Created "@ + template_name(t) + " project '"@ + name + "'"@
}

/// The strays are exactly the existing entries, in their order and with their
/// repeats, that are not the first component of any template path: every stray
/// is such an entry, and every such entry is a stray.
pub proof fn lemma_strays(existing: Seq<String>, t: Template)
    ensures
        stray_names(existing, t).len() <= existing.len(),
        forall|k: int|
            0 <= k < stray_names(existing, t).len() ==> existing.contains(
                #[trigger] stray_names(existing, t)[k],
            ) && !is_template_top(stray_names(existing, t)[k]@, t),
        forall|k: int|
            0 <= k < existing.len() && !is_template_top(#[trigger] existing[k]@, t) ==> stray_names(
                existing,
                t,
            ).contains(existing[k]),
    decreases existing.len(),
{
    if existing.len() > 0 {
        let init = existing.drop_last();
        lemma_strays(init, t);
        let rest = stray_names(init, t);
        assert forall|k: int|
            0 <= k < stray_names(existing, t).len() implies existing.contains(
            #[trigger] stray_names(existing, t)[k],
        ) && !is_template_top(stray_names(existing, t)[k]@, t) by {
            if k < rest.len() {
                assert(stray_names(existing, t)[k] == rest[k]);
                let j = choose|j: int| 0 <= j < init.len() && init[j] == rest[k];
                assert(existing[j] == init[j]);
            } else {
                assert(existing[existing.len() - 1] == existing.last());
            }
        }
        assert forall|k: int|
            0 <= k < existing.len() && !is_template_top(#[trigger] existing[k]@, t) implies stray_names(
            existing,
            t,
        ).contains(existing[k]) by {
            if k < existing.len() - 1 {
                assert(init[k] == existing[k]);
                assert(rest.contains(init[k]));
                let j = choose|j: int| 0 <= j < rest.len() && rest[j] == init[k];
                assert(stray_names(existing, t)[j] == rest[j]);
            } else {
                assert(existing.last() == existing[k]);
                assert(stray_names(existing, t)[rest.len() as int] == existing[k]);
            }
        }
    }
}

/// The status line reads `Created <template> project '<name>'`.
pub proof fn lemma_notice_text(t: Template, name: Seq<char>)
    ensures
        notice_of(t, name) == seq!['C', 'r', 'e', 'a', 't', 'e', 'd', ' '] + template_name(t) + seq![
            ' ',
            'p',
            'r',
            'o',
            'j',
            'e',
            'c',
            't',
            ' ',
            '\'',
        ] + name + seq!['\''],
{
    reveal_strlit("Created ");
    reveal_strlit(" project '");
    reveal_strlit("'");
    assert("Created "@ =~= seq!['C', 'r', 'e', 'a', 't', 'e', 'd', ' ']);
    assert(" project '"@ =~= seq![' ', 'p', 'r', 'o', 'j', 'e', 'c', 't', ' ', '\'']);
    assert("'"@ =~= seq!['\'']);
}

/// Whether some element of `v` reads as `s`.
fn holds_view(v: &Vec<String>, s: &String) -> (r: bool)
    ensures
        r == exists|k: int| 0 <= k < v@.len() && #[trigger] v@[k]@ == s@,
{
    let mut i: usize = 0;
    while i < v.len()
        invariant
            i <= v@.len(),
            forall|k: int| 0 <= k < i ==> #[trigger] v@[k]@ != s@,
        decreases v@.len() - i,
    {
        if v[i] == *s {
            return true;
        }
        i = i + 1;
    }
    false
}

/// Whether `e` is the first component of one of the template's paths.
fn is_top_entry(files: &Vec<TemplateFile>, e: &String, Ghost(t): Ghost<Template>) -> (r: bool)
    requires
        files@ == template_entries(t),
    ensures
        r == is_template_top(e@, t),
{
    let mut i: usize = 0;
    while i < files.len()
        invariant
            files@ == template_entries(t),
            i <= files@.len(),
            forall|k: int| 0 <= k < i ==> cut_at(#[trigger] template_entries(t)[k].path@, '/') != e@,
        decreases files@.len() - i,
    {
        let top = before_first(files[i].path, '/');
        if top == *e {
            return true;
        }
        i = i + 1;
    }
    false
}

/// The existing entries that the template does not account for.
fn strays_of(existing: &Vec<String>, files: &Vec<TemplateFile>, Ghost(t): Ghost<Template>) -> (r:
    Vec<String>)
    requires
        files@ == template_entries(t),
    ensures
        r@ == stray_names(existing@, t),
{
    let mut out: Vec<String> = Vec::new();
    let mut i: usize = 0;
    assert(existing@.take(0) =~= Seq::<String>::empty());
    while i < existing.len()
        invariant
            files@ == template_entries(t),
            i <= existing@.len(),
            out@ == stray_names(existing@.take(i as int), t),
        decreases existing@.len() - i,
    {
        let ghost before = out@;
        let ghost x = existing@[i as int];
        assert(existing@.take(i + 1).drop_last() =~= existing@.take(i as int));
        assert(existing@.take(i + 1).last() == x);
        let top = is_top_entry(files, &existing[i], Ghost(t));
        if !top {
            out.push(existing[i].clone());
            assert(out@ =~= before.push(x));
        }
        i = i + 1;
    }
    assert(existing@.take(existing@.len() as int) =~= existing@);
    out
}

/// The directories that generating the template into `name` creates, each
/// once, in path order.
fn planned_dirs(name: &str, files: &Vec<TemplateFile>, Ghost(t): Ghost<Template>) -> (r: Vec<
    String,
>)
    requires
        files@ == template_entries(t),
    ensures
        sorted_paths(r@),
        distinct_views(r@),
        forall|k: int| 0 <= k < r@.len() ==> is_planned_dir(#[trigger] r@[k]@, name@, t),
        forall|d: Seq<char>|
            is_planned_dir(d, name@, t) ==> exists|k: int| 0 <= k < r@.len() && #[trigger] r@[k]@ == d,
{
    let mut dirs: Vec<String> = Vec::new();
    let mut i: usize = 0;
    while i < files.len()
        invariant
            files@ == template_entries(t),
            i <= files@.len(),
            distinct_views(dirs@),
            forall|k: int| 0 <= k < dirs@.len() ==> is_planned_dir(#[trigger] dirs@[k]@, name@, t),
            forall|j: int|
                0 <= j < i && rel_parent(#[trigger] template_entries(t)[j].path@).len() > 0 ==> exists|
                    k: int,
                | 0 <= k < dirs@.len() && #[trigger] dirs@[k]@ == joined(
                    name@,
                    rel_parent(template_entries(t)[j].path@),
                ),
        decreases files@.len() - i,
    {
        let path = files[i].path;
        match find_last_char(path, '/') {
            Some(p) => {
                if p > 0 {
                    let parent = path.substring_char(0, p);
                    assert(parent@ == rel_parent(template_entries(t)[i as int].path@));
                    let d = join_path(name, parent);
                    if !holds_view(&dirs, &d) {
                        let ghost before = dirs@;
                        dirs.push(d);
                        proof {
                            assert forall|k: int| 0 <= k < dirs@.len() implies is_planned_dir(
                                #[trigger] dirs@[k]@,
                                name@,
                                t,
                            ) by {
                                if k == dirs@.len() - 1 {
                                    assert(rel_parent(template_entries(t)[i as int].path@).len() > 0);
                                } else {
                                    assert(dirs@[k] == before[k]);
                                }
                            }
                            assert forall|a: int, b: int|
                                0 <= a < dirs@.len() && 0 <= b < dirs@.len() && a != b implies #[trigger] dirs@[a]@
                                != #[trigger] dirs@[b]@ by {
                                if a < before.len() && b < before.len() {
                                    assert(dirs@[a] == before[a] && dirs@[b] == before[b]);
                                } else if a < before.len() {
                                    assert(dirs@[a] == before[a]);
                                } else {
                                    assert(dirs@[b] == before[b]);
                                }
                            }
                            assert forall|j: int|
                                0 <= j <= i && rel_parent(#[trigger] template_entries(t)[j].path@).len()
                                    > 0 implies exists|k: int|
                                0 <= k < dirs@.len() && #[trigger] dirs@[k]@ == joined(
                                    name@,
                                    rel_parent(template_entries(t)[j].path@),
                                ) by {
                                if j < i {
                                    let k = choose|k: int|
                                        0 <= k < before.len() && #[trigger] before[k]@ == joined(
                                            name@,
                                            rel_parent(template_entries(t)[j].path@),
                                        );
                                    assert(dirs@[k] == before[k]);
                                } else {
                                    assert(dirs@[dirs@.len() - 1] == d);
                                }
                            }
                        }
                    }
                } else {
                    assert(rel_parent(template_entries(t)[i as int].path@).len() == 0);
                }
            },
            None => {
                assert(rel_parent(template_entries(t)[i as int].path@).len() == 0);
            },
        }
        i = i + 1;
    }
    let ghost unsorted = dirs@;
    let sorted = sort_paths(dirs);
    proof {
        lemma_distinct_views_perm(unsorted, sorted@);
        assert forall|k: int| 0 <= k < sorted@.len() implies is_planned_dir(
            #[trigger] sorted@[k]@,
            name@,
            t,
        ) by {
            assert(unsorted.contains(sorted@[k]));
        }
        assert forall|d: Seq<char>| is_planned_dir(d, name@, t) implies exists|k: int|
            0 <= k < sorted@.len() && #[trigger] sorted@[k]@ == d by {
            let j = choose|j: int|
                0 <= j < template_entries(t).len() && rel_parent(
                    #[trigger] template_entries(t)[j].path@,
                ).len() > 0 && d == joined(name@, rel_parent(template_entries(t)[j].path@));
            let k = choose|k: int| 0 <= k < unsorted.len() && #[trigger] unsorted[k]@ == d;
            assert(sorted@.contains(unsorted[k]));
        }
    }
    sorted
}

/// The template's paths are relative: none begins with `/`.
proof fn lemma_template_paths_relative(t: Template, i: int)
    requires
        0 <= i < template_entries(t).len(),
    ensures
        template_entries(t)[i].path@.len() > 0,
        template_entries(t)[i].path@[0] != '/',
{
    reveal_strlit("pact.toml");
    reveal_strlit("src/main.pact");
    reveal_strlit("test/main_test.pact");
    reveal_strlit(".gitignore");
    reveal_strlit("src/lib.pact");
    reveal_strlit("test/lib_test.pact");
}

/// `pact new` stays inside the project directory: for a legal name, every
/// file it writes and every directory it creates is `<name>/` followed by a
/// non-empty relative path.
pub proof fn lemma_new_stays_inside(name: Seq<char>, t: Template)
    requires
        is_valid_project_name(name),
    ensures
        forall|i: int|
            0 <= i < template_entries(t).len() ==> joined(name, #[trigger] template_entries(t)[i].path@)
                == name + seq!['/'] + template_entries(t)[i].path@,
        forall|d: Seq<char>|
            is_planned_dir(d, name, t) ==> exists|rel: Seq<char>|
                rel.len() > 0 && rel[0] != '/' && d == name + seq!['/'] + rel,
{
    assert(name.last() != '/');
    assert forall|i: int|
        0 <= i < template_entries(t).len() implies joined(name, #[trigger] template_entries(t)[i].path@)
        == name + seq!['/'] + template_entries(t)[i].path@ by {
        lemma_template_paths_relative(t, i);
    }
    assert forall|d: Seq<char>| is_planned_dir(d, name, t) implies exists|rel: Seq<char>|
        rel.len() > 0 && rel[0] != '/' && d == name + seq!['/'] + rel by {
        let i = choose|i: int|
            0 <= i < template_entries(t).len() && rel_parent(
                #[trigger] template_entries(t)[i].path@,
            ).len() > 0 && d == joined(name, rel_parent(template_entries(t)[i].path@));
        lemma_template_paths_relative(t, i);
        let p = template_entries(t)[i].path@;
        let rel = rel_parent(p);
        assert(rel[0] == p[0]);
    }
}

/// Decide what `pact new` does. `existing` lists the entries of the target
/// directory when it exists (`None` when it does not).
///
/// The name is checked first; a non-empty directory is refused unless
/// `--force` is given; otherwise the plan creates the template's directories
/// and writes its files with `{{name}}` replaced by the project name.
pub fn plan_new(cmd: &NewCmd, global: &GlobalOpts, existing: Option<Vec<String>>) -> (r: Result<
    NewPlan,
    NewError,
>)
    ensures
        !is_valid_project_name(cmd.name@) ==> (r matches Err(NewError::InvalidName(e)) && (e
            == NameError::Empty <==> cmd.name@.len() == 0) && (e matches NameError::Invalid {
            name: n,
            rule,
        } ==> n@ == cmd.name@ && first_broken_rule(cmd.name@) == Some(rule))),
        is_valid_project_name(cmd.name@) && existing is Some && existing.unwrap().len() > 0
            && !cmd.force ==> (r matches Err(NewError::NotEmpty { dir }) && dir@ == cmd.name@),
        is_valid_project_name(cmd.name@) && (existing is None || existing.unwrap().len() == 0
            || cmd.force) ==> r is Ok,
        r matches Ok(plan) ==> is_valid_project_name(cmd.name@) && plan.project_dir@ == cmd.name@,
        r matches Ok(plan) ==> plan.strays@ == (if cmd.force && existing is Some
            && existing.unwrap().len() > 0 && !global.quiet {
            stray_names(existing.unwrap()@, cmd.template)
        } else {
            Seq::empty()
        }),
        r matches Ok(plan) ==> sorted_paths(plan.dirs@) && distinct_views(plan.dirs@),
        r matches Ok(plan) ==> forall|k: int|
            0 <= k < plan.dirs@.len() ==> is_planned_dir(
                #[trigger] plan.dirs@[k]@,
                cmd.name@,
                cmd.template,
            ),
        r matches Ok(plan) ==> forall|d: Seq<char>|
            is_planned_dir(d, cmd.name@, cmd.template) ==> exists|k: int|
                0 <= k < plan.dirs@.len() && #[trigger] plan.dirs@[k]@ == d,
        r matches Ok(plan) ==> plan.files@.len() == template_entries(cmd.template).len(),
        r matches Ok(plan) ==> forall|i: int|
            0 <= i < template_entries(cmd.template).len() ==> (#[trigger] plan.files@[i]).path@
                == joined(cmd.name@, template_entries(cmd.template)[i].path@)
                && plan.files@[i].content@ == substitute(
                template_entries(cmd.template)[i].content@,
                cmd.name@,
            ),
        r matches Ok(plan) ==> (global.quiet ==> plan.notice is None),
        r matches Ok(plan) ==> (!global.quiet ==> (plan.notice matches Some(m) && m@
            == notice_of(cmd.template, cmd.name@))),
{
    if let Err(e) = validate_name(cmd.name.as_str()) {
        return Err(NewError::InvalidName(e));
    }
    let files = template_files(cmd.template);
    let ghost t = cmd.template;
    let non_empty = match &existing {
        Some(v) => v.len() > 0,
        None => false,
    };
    if non_empty && !cmd.force {
        return Err(NewError::NotEmpty { dir: cmd.name.clone() });
    }
    let strays = if cmd.force && non_empty && !global.quiet {
        match &existing {
            Some(v) => strays_of(v, &files, Ghost(t)),
            None => Vec::new(),
        }
    } else {
        let v: Vec<String> = Vec::new();
        assert(v@ =~= Seq::<String>::empty());
        v
    };
    let name_str = cmd.name.as_str();
    let dirs = planned_dirs(name_str, &files, Ghost(cmd.template));
    assert forall|d: Seq<char>| is_planned_dir(d, cmd.name@, cmd.template) implies exists|k: int|
        0 <= k < dirs@.len() && #[trigger] dirs@[k]@ == d by {
        assert(is_planned_dir(d, name_str@, cmd.template));
    }
    let mut out: Vec<PlannedFile> = Vec::new();
    let mut i: usize = 0;
    while i < files.len()
        invariant
            files@ == template_entries(t),
            t == cmd.template,
            i <= files@.len(),
            out@.len() == i,
            forall|k: int|
                0 <= k < i ==> (#[trigger] out@[k]).path@ == joined(
                    cmd.name@,
                    template_entries(t)[k].path@,
                ) && out@[k].content@ == substitute(template_entries(t)[k].content@, cmd.name@),
        decreases files@.len() - i,
    {
        let f = files[i];
        let path = join_path(cmd.name.as_str(), f.path);
        let content = substitute_name(f.content, cmd.name.as_str());
        out.push(PlannedFile { path, content });
        i = i + 1;
    }
    let notice = if global.quiet {
        None
    } else {
        let mut m = String::from_str("Created ");
        let tn = cmd.template.to_string();
        m.append(tn.as_str());
        m.append(" project '");
        m.append(cmd.name.as_str());
        m.append("'");
        Some(m)
    };
    Ok(
        NewPlan {
            project_dir: cmd.name.clone(),
            strays,
            dirs,
            files: out,
            notice,
        },
    )
}

} // verus!
