//! The decisions of the developer task runner: which steps a command line
//! asks for, where the database listens, how its pid file reads, and when to
//! stop waiting for a freshly started database.
use crate::numbers::{int_error_message, parse_u16, parse_u32, parse_unsigned};
use crate::text::{chars_of, same_text, starts_with, str_trim, string_of, string_of_range, trimmed};
use vstd::prelude::*;
use vstd::string::*;

verus! {

// ---------------------------------------------------------------------------
// Command lines
// ---------------------------------------------------------------------------
/// One thing the task runner does. Steps run in order; the first that fails
/// ends the run with its error.
pub enum DevStep {
    /// Print the top-level usage text.
    PrintUsage,
    /// Print the usage text of the `db` commands.
    PrintDbUsage,
    /// Print the usage text of the `client` commands.
    PrintClientUsage,
    /// Find the repository root; fails when it cannot be found.
    LocateRepoRoot,
    /// Make sure a database is listening, starting one in the background if not.
    EnsureDbRunning,
    /// Run the database in the foreground.
    DbStart,
    /// Publish the server module.
    DbPublish,
    /// Generate the client bindings.
    DbGenerate,
    /// Print the configuration in use.
    DbConfig,
    /// Stop the database started in the background.
    DevDown,
    /// Run the game client as the given guest, or under a default guest name.
    ClientRun(Option<String>),
    /// Fail with this message.
    Fail(String),
}

/// A [`DevStep`] with its strings taken by their characters.
pub enum DevStepView {
    PrintUsage,
    PrintDbUsage,
    PrintClientUsage,
    LocateRepoRoot,
    EnsureDbRunning,
    DbStart,
    DbPublish,
    DbGenerate,
    DbConfig,
    DevDown,
    ClientRun(Option<Seq<char>>),
    Fail(Seq<char>),
}

impl View for DevStep {
    type V = DevStepView;

    open spec fn view(&self) -> DevStepView {
        match self {
            DevStep::PrintUsage => DevStepView::PrintUsage,
            DevStep::PrintDbUsage => DevStepView::PrintDbUsage,
            DevStep::PrintClientUsage => DevStepView::PrintClientUsage,
            DevStep::LocateRepoRoot => DevStepView::LocateRepoRoot,
            DevStep::EnsureDbRunning => DevStepView::EnsureDbRunning,
            DevStep::DbStart => DevStepView::DbStart,
            DevStep::DbPublish => DevStepView::DbPublish,
            DevStep::DbGenerate => DevStepView::DbGenerate,
            DevStep::DbConfig => DevStepView::DbConfig,
            DevStep::DevDown => DevStepView::DevDown,
            DevStep::ClientRun(g) => DevStepView::ClientRun(
                match g {
                    Some(s) => Some(s@),
                    None => None,
                },
            ),
            DevStep::Fail(m) => DevStepView::Fail(m@),
        }
    }
}

/// The steps as their views.
pub open spec fn steps_view(steps: Seq<DevStep>) -> Seq<DevStepView> {
    steps.map_values(|s: DevStep| s@)
}

/// The subcommand that `args` starts with, `help` when there is none.
pub open spec fn subcommand(args: Seq<String>) -> Seq<char> {
    if args.len() == 0 {
        "help"@
    } else {
        args[0]@
    }
}

/// The optional guest name that follows a command at `args[i]`.
pub open spec fn guest_arg(args: Seq<String>, i: int) -> Option<Seq<char>> {
    if i < args.len() {
        Some(args[i]@)
    } else {
        None
    }
}

pub open spec fn is_help(s: Seq<char>) -> bool {
    s == "help"@ || s == "-h"@ || s == "--help"@
}

/// The steps of `db <args>`.
pub open spec fn db_plan(args: Seq<String>) -> Seq<DevStepView> {
    let sub = subcommand(args);
    if sub == "start"@ {
        seq![DevStepView::DbStart]
    } else if sub == "publish"@ {
        seq![DevStepView::DbPublish]
    } else if sub == "generate"@ {
        seq![DevStepView::DbGenerate]
    } else if sub == "sync"@ {
        seq![DevStepView::DbPublish, DevStepView::DbGenerate]
    } else if sub == "config"@ {
        seq![DevStepView::DbConfig]
    } else if is_help(sub) {
        seq![DevStepView::PrintDbUsage]
    } else {
        seq![DevStepView::Fail("unknown db command: "@ + sub)]
    }
}

/// The steps of `client <args>`.
pub open spec fn client_plan(args: Seq<String>) -> Seq<DevStepView> {
    let sub = subcommand(args);
    if sub == "run"@ {
        seq![DevStepView::ClientRun(guest_arg(args, 1))]
    } else if is_help(sub) {
        seq![DevStepView::PrintClientUsage]
    } else {
        seq![DevStepView::Fail("unknown client command: "@ + sub)]
    }
}

/// The steps of `dev-up`: a database that listens, the module published on
/// it, and the client bindings generated from it.
pub open spec fn dev_up_plan() -> Seq<DevStepView> {
    seq![DevStepView::EnsureDbRunning, DevStepView::DbPublish, DevStepView::DbGenerate]
}

/// The steps of a whole command line (without the program name). With no
/// arguments it only prints the usage; otherwise it finds the repository root
/// first, then does what the first argument names.
pub open spec fn run_plan(args: Seq<String>) -> Seq<DevStepView> {
    if args.len() == 0 {
        seq![DevStepView::PrintUsage]
    } else {
        let cmd = args[0]@;
        seq![DevStepView::LocateRepoRoot] + if cmd == "dev-up"@ {
            dev_up_plan()
        } else if cmd == "dev-client"@ {
            seq![DevStepView::ClientRun(guest_arg(args, 1))]
        } else if cmd == "dev-down"@ {
            seq![DevStepView::DevDown]
        } else if cmd == "db"@ {
            db_plan(args.drop_first())
        } else if cmd == "client"@ {
            client_plan(args.drop_first())
        } else if is_help(cmd) {
            seq![DevStepView::PrintUsage]
        } else {
            seq![DevStepView::Fail("unknown command: "@ + cmd)]
        }
    }
}

/// A string holding `prefix` followed by `rest`.
fn joined(prefix: &str, rest: &str) -> (r: String)
    ensures
        r@ == prefix@ + rest@,
{
    let mut r = string_of(prefix);
    r.append(rest);
    r
}

/// Whether `s` asks for help.
fn help_word(s: &str) -> (r: bool)
    ensures
        r == is_help(s@),
{
    same_text(s, "help") || same_text(s, "-h") || same_text(s, "--help")
}

/// The first argument, or `help` when there is none.
fn subcommand_of(args: &[String]) -> (r: &str)
    ensures
        r@ == subcommand(args@),
{
    if args.len() == 0 {
        "help"
    } else {
        args[0].as_str()
    }
}

/// The argument at `i`, copied, when there is one.
fn guest_of(args: &[String], i: usize) -> (r: Option<String>)
    ensures
        match r {
            Some(s) => guest_arg(args@, i as int) == Some(s@),
            None => guest_arg(args@, i as int) is None,
        },
{
    if i < args.len() {
        Some(args[i].clone())
    } else {
        None
    }
}

/// The steps of `db <args>`: `start`, `publish`, `generate`, `sync` (publish,
/// then generate), `config`, or the usage text.
pub fn run_db(args: &[String]) -> (r: Vec<DevStep>)
    ensures
        steps_view(r@) == db_plan(args@),
{
    let sub = subcommand_of(args);
    let step = if same_text(sub, "start") {
        vec![DevStep::DbStart]
    } else if same_text(sub, "publish") {
        vec![DevStep::DbPublish]
    } else if same_text(sub, "generate") {
        vec![DevStep::DbGenerate]
    } else if same_text(sub, "sync") {
        vec![DevStep::DbPublish, DevStep::DbGenerate]
    } else if same_text(sub, "config") {
        vec![DevStep::DbConfig]
    } else if help_word(sub) {
        vec![DevStep::PrintDbUsage]
    } else {
        vec![DevStep::Fail(joined("unknown db command: ", sub))]
    };
    assert(steps_view(step@) == db_plan(args@));
    step
}

/// The steps of `client <args>`: `run [GuestName]`, or the usage text.
pub fn run_client(args: &[String]) -> (r: Vec<DevStep>)
    ensures
        steps_view(r@) == client_plan(args@),
{
    let sub = subcommand_of(args);
    let step = if same_text(sub, "run") {
        let guest = guest_of(args, 1);
        vec![DevStep::ClientRun(guest)]
    } else if help_word(sub) {
        vec![DevStep::PrintClientUsage]
    } else {
        vec![DevStep::Fail(joined("unknown client command: ", sub))]
    };
    assert(steps_view(step@) == client_plan(args@));
    step
}

/// The steps of `dev-up`.
pub fn dev_up() -> (r: Vec<DevStep>)
    ensures
        steps_view(r@) == dev_up_plan(),
{
    let r = vec![DevStep::EnsureDbRunning, DevStep::DbPublish, DevStep::DbGenerate];
    assert(steps_view(r@) == dev_up_plan());
    r
}

/// The steps of a whole command line, without the program name.
pub fn run(args: &[String]) -> (r: Vec<DevStep>)
    ensures
        steps_view(r@) == run_plan(args@),
{
    if args.len() == 0 {
        let r = vec![DevStep::PrintUsage];
        assert(steps_view(r@) == run_plan(args@));
        return r;
    }
    let cmd = args[0].as_str();
    let (_, rest) = args.split_at(1);
    assert(rest@ == args@.drop_first());
    let tail = if same_text(cmd, "dev-up") {
        dev_up()
    } else if same_text(cmd, "dev-client") {
        let guest = guest_of(args, 1);
        let v = vec![DevStep::ClientRun(guest)];
        assert(steps_view(v@) == seq![DevStepView::ClientRun(guest_arg(args@, 1))]);
        v
    } else if same_text(cmd, "dev-down") {
        let v = vec![DevStep::DevDown];
        assert(steps_view(v@) == seq![DevStepView::DevDown]);
        v
    } else if same_text(cmd, "db") {
        run_db(rest)
    } else if same_text(cmd, "client") {
        run_client(rest)
    } else if help_word(cmd) {
        let v = vec![DevStep::PrintUsage];
        assert(steps_view(v@) == seq![DevStepView::PrintUsage]);
        v
    } else {
        let v = vec![DevStep::Fail(joined("unknown command: ", cmd))];
        assert(steps_view(v@) == seq![DevStepView::Fail("unknown command: "@ + cmd@)]);
        v
    };
    let mut r = vec![DevStep::LocateRepoRoot];
    let ghost first = r@;
    let ghost t = tail@;
    let mut tail = tail;
    r.append(&mut tail);
    assert(r@ == first + t);
    assert(steps_view(r@) == steps_view(first) + steps_view(t));
    r
}

/// Shows the views of the command words used below to be distinct.
proof fn lemma_command_words()
    ensures
        "help"@.len() == 4,
        "-h"@.len() == 2,
        "--help"@.len() == 6,
        "dev-up"@.len() == 6,
        "dev-client"@.len() == 10,
        "dev-down"@.len() == 8,
        "db"@.len() == 2,
        "client"@.len() == 6,
        "start"@.len() == 5,
        "publish"@.len() == 7,
        "generate"@.len() == 8,
        "sync"@.len() == 4,
        "config"@.len() == 6,
        "run"@.len() == 3,
        "-h"@[0] == '-',
        "db"@[0] == 'd',
        "--help"@[0] == '-',
        "dev-up"@[0] == 'd',
        "client"@[0] == 'c',
        "config"@[0] == 'c',
        "config"@[1] == 'o',
        "client"@[1] == 'l',
        "help"@[0] == 'h',
        "sync"@[0] == 's',
        "--help"@[1] == '-',
        "dev-up"@[1] == 'e',
{
    reveal_strlit("help");
    reveal_strlit("-h");
    reveal_strlit("--help");
    reveal_strlit("dev-up");
    reveal_strlit("dev-client");
    reveal_strlit("dev-down");
    reveal_strlit("db");
    reveal_strlit("client");
    reveal_strlit("start");
    reveal_strlit("publish");
    reveal_strlit("generate");
    reveal_strlit("sync");
    reveal_strlit("config");
    reveal_strlit("run");
}

/// A command line whose first argument is `help`, `-h` or `--help` finds the
/// repository root and prints the usage, and nothing else.
pub proof fn help_words_print_usage(args: Seq<String>)
    requires
        args.len() > 0,
        args[0]@ == "help"@ || args[0]@ == "-h"@ || args[0]@ == "--help"@,
    ensures
        run_plan(args) == seq![DevStepView::LocateRepoRoot, DevStepView::PrintUsage],
{
    lemma_command_words();
    assert(seq![DevStepView::LocateRepoRoot] + seq![DevStepView::PrintUsage] =~= seq![
        DevStepView::LocateRepoRoot,
        DevStepView::PrintUsage,
    ]);
}

/// A command line fails only on a first argument that is none of the task
/// runner's commands or help words, and then it finds the repository root
/// and fails with `unknown command: ` and that argument. The commands other
/// than `db` and `client` never fail by themselves.
pub proof fn only_unknown_commands_fail(args: Seq<String>)
    requires
        args.len() > 0,
    ensures
        ({
            let cmd = args[0]@;
            let known = cmd == "dev-up"@ || cmd == "dev-client"@ || cmd == "dev-down"@ || cmd
                == "db"@ || cmd == "client"@ || cmd == "help"@ || cmd == "-h"@ || cmd
                == "--help"@;
            &&& !known ==> run_plan(args) == seq![
                DevStepView::LocateRepoRoot,
                DevStepView::Fail("unknown command: "@ + cmd),
            ]
            &&& (known && cmd != "db"@ && cmd != "client"@) ==> forall|i: int|
                0 <= i < run_plan(args).len() ==> !(#[trigger] run_plan(args)[i] is Fail)
            &&& run_plan(args)[0] == DevStepView::LocateRepoRoot
        }),
{
    lemma_command_words();
    let cmd = args[0]@;
    let p = run_plan(args);
    if cmd == "dev-up"@ {
        assert(p == seq![DevStepView::LocateRepoRoot] + dev_up_plan());
        assert(p =~= seq![
            DevStepView::LocateRepoRoot,
            DevStepView::EnsureDbRunning,
            DevStepView::DbPublish,
            DevStepView::DbGenerate,
        ]);
    } else if cmd == "dev-client"@ {
        assert(p =~= seq![DevStepView::LocateRepoRoot, DevStepView::ClientRun(guest_arg(args, 1))]);
    } else if cmd == "dev-down"@ {
        assert(p =~= seq![DevStepView::LocateRepoRoot, DevStepView::DevDown]);
    } else if cmd == "db"@ {
        assert(p[0] == DevStepView::LocateRepoRoot);
    } else if cmd == "client"@ {
        assert(p[0] == DevStepView::LocateRepoRoot);
    } else if cmd == "help"@ || cmd == "-h"@ || cmd == "--help"@ {
        assert(p =~= seq![DevStepView::LocateRepoRoot, DevStepView::PrintUsage]);
    } else {
        assert(p =~= seq![
            DevStepView::LocateRepoRoot,
            DevStepView::Fail("unknown command: "@ + cmd),
        ]);
    }
}

/// `db` with no argument, or with `help`, `-h` or `--help`, prints the `db`
/// usage; `start`, `publish`, `generate` and `config` do that one thing;
/// `sync` publishes, then generates; any other argument fails with
/// `unknown db command: ` and that argument.
pub proof fn db_commands(args: Seq<String>)
    ensures
        ({
            let sub = if args.len() == 0 {
                "help"@
            } else {
                args[0]@
            };
            &&& (args.len() == 0 || sub == "help"@ || sub == "-h"@ || sub == "--help"@)
                ==> db_plan(args) == seq![DevStepView::PrintDbUsage]
            &&& sub == "start"@ ==> db_plan(args) == seq![DevStepView::DbStart]
            &&& sub == "publish"@ ==> db_plan(args) == seq![DevStepView::DbPublish]
            &&& sub == "generate"@ ==> db_plan(args) == seq![DevStepView::DbGenerate]
            &&& sub == "sync"@ ==> db_plan(args) == seq![
                DevStepView::DbPublish,
                DevStepView::DbGenerate,
            ]
            &&& sub == "config"@ ==> db_plan(args) == seq![DevStepView::DbConfig]
            &&& !(sub == "start"@ || sub == "publish"@ || sub == "generate"@ || sub == "sync"@
                || sub == "config"@ || sub == "help"@ || sub == "-h"@ || sub == "--help"@)
                ==> db_plan(args) == seq![DevStepView::Fail("unknown db command: "@ + sub)]
        }),
{
    lemma_command_words();
}

/// `client run` runs the client, as the guest named next when there is one;
/// `client` with no argument, or with `help`, `-h` or `--help`, prints the
/// `client` usage; any other argument fails with `unknown client command: `
/// and that argument.
pub proof fn client_commands(args: Seq<String>)
    ensures
        ({
            let sub = if args.len() == 0 {
                "help"@
            } else {
                args[0]@
            };
            &&& sub == "run"@ ==> client_plan(args) == seq![
                DevStepView::ClientRun(if args.len() > 1 {
                    Some(args[1]@)
                } else {
                    None
                }),
            ]
            &&& (args.len() == 0 || sub == "help"@ || sub == "-h"@ || sub == "--help"@)
                ==> client_plan(args) == seq![DevStepView::PrintClientUsage]
            &&& !(sub == "run"@ || sub == "help"@ || sub == "-h"@ || sub == "--help"@)
                ==> client_plan(args) == seq![DevStepView::Fail("unknown client command: "@ + sub)]
        }),
{
    lemma_command_words();
}

/// What the task runner does next.
pub enum RunAction {
    /// Carry out the step at this position of the plan.
    Perform(usize),
    /// Stop, ending the run with this result.
    Finish(Result<(), String>),
}

/// How a run of `steps_len` steps begins: with the first step, or, when there
/// are none, by ending successfully.
pub fn first_run_action(steps_len: usize) -> (r: RunAction)
    ensures
        steps_len == 0 ==> r matches RunAction::Finish(Ok(())),
        steps_len > 0 ==> r matches RunAction::Perform(0),
{
    if steps_len == 0 {
        RunAction::Finish(Ok(()))
    } else {
        RunAction::Perform(0)
    }
}

/// What follows the step at `done` of a run of `steps_len` steps, given how
/// it went: the first step that fails ends the run with its error; after a
/// step that succeeds comes the next one, and after the last the run ends
/// successfully.
pub fn after_step(done: usize, steps_len: usize, outcome: Result<(), String>) -> (r: RunAction)
    requires
        done < steps_len,
    ensures
        outcome is Err ==> r == RunAction::Finish(outcome),
        outcome is Ok && done + 1 < steps_len ==> (r matches RunAction::Perform(i) && i == done + 1),
        outcome is Ok && done + 1 == steps_len ==> r matches RunAction::Finish(Ok(())),
{
    match outcome {
        Err(e) => RunAction::Finish(Err(e)),
        Ok(()) => if done + 1 < steps_len {
            RunAction::Perform(done + 1)
        } else {
            RunAction::Finish(Ok(()))
        },
    }
}

/// One part of generating the client bindings.
#[derive(Clone, Copy, Debug, PartialEq, Eq, Structural)]
pub enum GenerateStep {
    /// Build the server module to WebAssembly.
    BuildModule,
    /// Generate the client bindings from the built module.
    GenerateBindings,
}

/// The parts of `db generate`: the server module is built first when its
/// WebAssembly file is missing, then the bindings are generated from it.
pub fn db_generate_plan(module_built: bool) -> (r: Vec<GenerateStep>)
    ensures
        module_built ==> r@ == seq![GenerateStep::GenerateBindings],
        !module_built ==> r@ == seq![GenerateStep::BuildModule, GenerateStep::GenerateBindings],
{
    if module_built {
        vec![GenerateStep::GenerateBindings]
    } else {
        vec![GenerateStep::BuildModule, GenerateStep::GenerateBindings]
    }
}

// ---------------------------------------------------------------------------
// Where the database listens
// ---------------------------------------------------------------------------
/// `u` without `prefix`, when `u` starts with it.
pub open spec fn strip_prefix(u: Seq<char>, prefix: Seq<char>) -> Option<Seq<char>> {
    if prefix.len() <= u.len() && u.take(prefix.len() as int) == prefix {
        Some(u.skip(prefix.len() as int))
    } else {
        None
    }
}

/// `u` without a leading `http://` or `https://`.
pub open spec fn without_scheme(u: Seq<char>) -> Seq<char> {
    match strip_prefix(u, "http://"@) {
        Some(rest) => rest,
        None => match strip_prefix(u, "https://"@) {
            Some(rest) => rest,
            None => u,
        },
    }
}

/// `i` is where `c` first occurs in `s`.
pub open spec fn is_first_index(s: Seq<char>, c: char, i: int) -> bool {
    &&& 0 <= i < s.len()
    &&& s[i] == c
    &&& forall|j: int| 0 <= j < i ==> s[j] != c
}

/// `i` is where `c` last occurs in `s`.
pub open spec fn is_last_index(s: Seq<char>, c: char, i: int) -> bool {
    &&& 0 <= i < s.len()
    &&& s[i] == c
    &&& forall|j: int| i < j < s.len() ==> s[j] != c
}

/// What comes before the first `/` of `s` (all of `s` when it has none).
pub open spec fn before_first_slash(s: Seq<char>) -> Seq<char> {
    if exists|i: int| is_first_index(s, '/', i) {
        s.take(choose|i: int| is_first_index(s, '/', i))
    } else {
        s
    }
}

/// The message for a port that does not parse.
pub open spec fn invalid_port_message(e: crate::numbers::IntErrorKind) -> Seq<char> {
    "invalid port in SPACETIME_URI: "@ + int_error_message(e)
}

/// Host and port of a database URI: the scheme is dropped, then the path; what
/// follows the last `:` is the port, 80 when there is no `:`.
pub open spec fn uri_host_port(uri: Seq<char>) -> Result<(Seq<char>, u16), Seq<char>> {
    let hp = before_first_slash(without_scheme(uri));
    if exists|j: int| is_last_index(hp, ':', j) {
        let j = choose|j: int| is_last_index(hp, ':', j);
        match parse_unsigned(hp.skip(j + 1), u16::MAX as nat) {
            Ok(p) => Ok((hp.take(j), p as u16)),
            Err(e) => Err(invalid_port_message(e)),
        }
    } else {
        Ok((hp, 80))
    }
}

/// Where `c` first occurs is unique, so it is what `choose` picks.
proof fn lemma_first_index_chosen(s: Seq<char>, c: char, i: int)
    requires
        is_first_index(s, c, i),
    ensures
        (choose|k: int| is_first_index(s, c, k)) == i,
{
    let k = choose|k: int| is_first_index(s, c, k);
    if k < i {
        assert(s[k] != c);
    }
    if i < k {
        assert(s[i] != c);
    }
}

/// Where `c` last occurs is unique, so it is what `choose` picks.
proof fn lemma_last_index_chosen(s: Seq<char>, c: char, i: int)
    requires
        is_last_index(s, c, i),
    ensures
        (choose|k: int| is_last_index(s, c, k)) == i,
{
    let k = choose|k: int| is_last_index(s, c, k);
    if k < i {
        assert(s[i] != c);
    }
    if i < k {
        assert(s[k] != c);
    }
}

/// Where `c` first occurs in `v`.
fn find_first(v: &Vec<char>, c: char) -> (r: Option<usize>)
    ensures
        match r {
            Some(i) => is_first_index(v@, c, i as int),
            None => forall|j: int| 0 <= j < v@.len() ==> v@[j] != c,
        },
{
    let mut i: usize = 0;
    while i < v.len()
        invariant
            i <= v@.len(),
            forall|j: int| 0 <= j < i ==> v@[j] != c,
        decreases v@.len() - i,
    {
        if v[i] == c {
            return Some(i);
        }
        i = i + 1;
    }
    None
}

/// Where `c` last occurs in `v`.
fn find_last(v: &Vec<char>, c: char) -> (r: Option<usize>)
    ensures
        match r {
            Some(i) => is_last_index(v@, c, i as int),
            None => forall|j: int| 0 <= j < v@.len() ==> v@[j] != c,
        },
{
    let mut i: usize = v.len();
    while i > 0
        invariant
            i <= v@.len(),
            forall|j: int| i <= j < v@.len() ==> v@[j] != c,
        decreases i,
    {
        if v[i - 1] == c {
            return Some(i - 1);
        }
        i = i - 1;
    }
    None
}

/// The host and port that the database URI `uri` names.
pub fn host_port_from_uri(uri: &str) -> (r: Result<(String, u16), String>)
    ensures
        match uri_host_port(uri@) {
            Ok((h, p)) => r is Ok && r->Ok_0.0@ == h && r->Ok_0.1 == p,
            Err(m) => r is Err && r->Err_0@ == m,
        },
{
    let u = chars_of(uri);
    let start: usize = if starts_with(&u, "http://") {
        "http://".unicode_len()
    } else if starts_with(&u, "https://") {
        "https://".unicode_len()
    } else {
        0
    };
    let ghost rest = u@.skip(start as int);
    assert(rest == without_scheme(uri@));
    let rest_v = {
        let mut w: Vec<char> = Vec::new();
        let mut i = start;
        while i < u.len()
            invariant
                start <= i <= u@.len(),
                w@ == u@.subrange(start as int, i as int),
            decreases u@.len() - i,
        {
            w.push(u[i]);
            i = i + 1;
            assert(w@ == u@.subrange(start as int, i as int));
        }
        w
    };
    assert(rest_v@ == rest);
    let end = match find_first(&rest_v, '/') {
        Some(i) => {
            proof {
                lemma_first_index_chosen(rest, '/', i as int);
            }
            i
        },
        None => {
            assert(!exists|k: int| is_first_index(rest, '/', k));
            rest_v.len()
        },
    };
    let ghost hp = rest.take(end as int);
    assert(hp == before_first_slash(rest));
    let mut hp_v: Vec<char> = Vec::new();
    let mut i: usize = 0;
    while i < end
        invariant
            end <= rest_v@.len(),
            i <= end,
            hp_v@ == rest_v@.take(i as int),
        decreases end - i,
    {
        hp_v.push(rest_v[i]);
        i = i + 1;
        assert(hp_v@ == rest_v@.take(i as int));
    }
    assert(hp_v@ == hp);
    match find_last(&hp_v, ':') {
        Some(j) => {
            proof {
                lemma_last_index_chosen(hp, ':', j as int);
            }
            let host = string_of_range(&hp_v, 0, j);
            let port_text = string_of_range(&hp_v, j + 1, hp_v.len());
            assert(host@ == hp.take(j as int));
            assert(port_text@ == hp.skip(j + 1));
            match parse_u16(port_text.as_str()) {
                Ok(p) => Ok((host, p)),
                Err(e) => Err(joined("invalid port in SPACETIME_URI: ", e.message())),
            }
        },
        None => {
            assert(!exists|k: int| is_last_index(hp, ':', k));
            let host = string_of_range(&hp_v, 0, hp_v.len());
            assert(host@ == hp);
            Ok((host, 80))
        },
    }
}

// ---------------------------------------------------------------------------
// The pid file
// ---------------------------------------------------------------------------
/// What the pid file's text `text` says: the process id it holds, once
/// surrounding whitespace is dropped, or why it holds none.
pub open spec fn pid_file_value(text: Seq<char>) -> Result<u32, Seq<char>> {
    match parse_unsigned(trimmed(text), u32::MAX as nat) {
        Ok(v) => Ok(v as u32),
        Err(e) => Err("invalid pid file contents: "@ + int_error_message(e)),
    }
}

/// A pid file whose trimmed text is a decimal number reads as that number
/// when it fits in 32 bits, and is refused as too large otherwise.
pub proof fn pid_file_reads_its_number(text: Seq<char>)
    requires
        trimmed(text).len() > 0,
        crate::numbers::all_digits(trimmed(text)),
    ensures
        crate::numbers::decimal_value(trimmed(text)) <= u32::MAX ==> pid_file_value(text)
            == Ok::<u32, Seq<char>>(crate::numbers::decimal_value(trimmed(text)) as u32),
        crate::numbers::decimal_value(trimmed(text)) > u32::MAX ==> pid_file_value(text)
            == Err::<u32, Seq<char>>(
            "invalid pid file contents: "@ + "number too large to fit in target type"@,
        ),
{
    crate::numbers::parse_reads_decimal_digits(trimmed(text), u32::MAX as nat);
}

/// Reads the process id out of the pid file's text.
pub fn parse_pid(text: &str) -> (r: Result<u32, String>)
    ensures
        match pid_file_value(text@) {
            Ok(v) => r matches Ok(p) && p == v,
            Err(m) => r matches Err(e) && e@ == m,
        },
{
    let t = str_trim(text);
    match parse_u32(t) {
        Ok(v) => Ok(v),
        Err(e) => Err(joined("invalid pid file contents: ", e.message())),
    }
}

// ---------------------------------------------------------------------------
// Waiting for a database started in the background
// ---------------------------------------------------------------------------
/// How many times the port of a freshly started database is checked before
/// giving up.
pub const STARTUP_POLL_LIMIT: u32 = 40;

/// Milliseconds to wait after each failed check of a freshly started database.
pub const STARTUP_POLL_INTERVAL_MILLIS: u64 = 250;

/// What to do after looking at the database port.
#[derive(Clone, Copy, Debug, PartialEq, Eq, Structural)]
pub enum StartupVerdict {
    /// A database was listening before anything was started: report it; done.
    AlreadyRunning,
    /// Nothing listens: start the database in the background, then check again.
    Launch,
    /// The started database answers: report it; done.
    Ready,
    /// The started database does not answer yet: wait, then check again.
    WaitAndRetry,
    /// The started database never answered: wait, then fail; done.
    WaitThenGiveUp,
}

/// Where the wait for a database stands: whether one was started, how many
/// times its port has been checked since, and whether the wait is over.
pub struct StartupView {
    pub launched: bool,
    pub checks: nat,
    pub over: bool,
}

/// One look at the port.
pub open spec fn startup_step(s: StartupView, port_open: bool) -> (StartupView, StartupVerdict) {
    if !s.launched {
        if port_open {
            (StartupView { over: true, ..s }, StartupVerdict::AlreadyRunning)
        } else {
            (StartupView { launched: true, checks: 0, over: false }, StartupVerdict::Launch)
        }
    } else if port_open {
        (StartupView { checks: s.checks + 1, over: true, ..s }, StartupVerdict::Ready)
    } else if s.checks + 1 < STARTUP_POLL_LIMIT {
        (StartupView { checks: s.checks + 1, ..s }, StartupVerdict::WaitAndRetry)
    } else {
        (StartupView { checks: s.checks + 1, over: true, ..s }, StartupVerdict::WaitThenGiveUp)
    }
}

/// The state after `n` looks at a port that stays closed.
pub open spec fn after_closed_checks(s: StartupView, n: nat) -> StartupView
    decreases n,
{
    if n == 0 {
        s
    } else {
        after_closed_checks(startup_step(s, false).0, (n - 1) as nat)
    }
}

/// The wait for a database to come up.
pub struct DbStartup {
    launched: bool,
    checks: u32,
    over: bool,
}

impl View for DbStartup {
    type V = StartupView;

    closed spec fn view(&self) -> StartupView {
        StartupView { launched: self.launched, checks: self.checks as nat, over: self.over }
    }
}

impl DbStartup {
    #[verifier::type_invariant]
    closed spec fn well_formed(self) -> bool {
        &&& self.checks <= STARTUP_POLL_LIMIT
        &&& (self.checks == STARTUP_POLL_LIMIT ==> self.over)
        &&& (!self.launched ==> self.checks == 0)
    }

    /// Before the first look at the port.
    pub fn new() -> (r: DbStartup)
        ensures
            r@ == (StartupView { launched: false, checks: 0, over: false }),
    {
        DbStartup { launched: false, checks: 0, over: false }
    }

    /// Whether the wait is over.
    pub fn is_over(&self) -> (r: bool)
        ensures
            r == self@.over,
    {
        self.over
    }

    /// Takes in one look at the port and says what to do next.
    pub fn observe(&mut self, port_open: bool) -> (r: StartupVerdict)
        requires
            !old(self)@.over,
        ensures
            (final(self)@, r) == startup_step(old(self)@, port_open),
    {
        proof {
            use_type_invariant(&*self);
        }
        if !self.launched {
            if port_open {
                self.over = true;
                StartupVerdict::AlreadyRunning
            } else {
                self.launched = true;
                StartupVerdict::Launch
            }
        } else {
            let checks = self.checks + 1;
            if port_open {
                self.over = true;
                self.checks = checks;
                StartupVerdict::Ready
            } else if checks < STARTUP_POLL_LIMIT {
                self.checks = checks;
                StartupVerdict::WaitAndRetry
            } else {
                self.over = true;
                self.checks = checks;
                StartupVerdict::WaitThenGiveUp
            }
        }
    }
}

/// Only an open port ends the wait successfully, and an open port always does.
pub proof fn startup_succeeds_exactly_on_open_port(s: StartupView, port_open: bool)
    ensures
        ({
            let v = startup_step(s, port_open).1;
            (v == StartupVerdict::AlreadyRunning || v == StartupVerdict::Ready) <==> port_open
        }),
{
}

/// The database is started at most once: after the launch, no look at the
/// port asks for another.
pub proof fn startup_launches_at_most_once(s: StartupView, port_open: bool)
    requires
        s.launched,
    ensures
        startup_step(s, port_open).1 != StartupVerdict::Launch,
        startup_step(s, port_open).0.launched,
{
}

proof fn lemma_closed_checks(k: nat, n: nat)
    requires
        k + n < STARTUP_POLL_LIMIT,
    ensures
        after_closed_checks(StartupView { launched: true, checks: k, over: false }, n)
            == (StartupView { launched: true, checks: k + n, over: false }),
    decreases n,
{
    if n > 0 {
        lemma_closed_checks(k + 1, (n - 1) as nat);
    }
}

/// A started database whose port stays closed is checked exactly
/// [`STARTUP_POLL_LIMIT`] times: the first checks each say to wait and retry,
/// and the last one gives up.
pub proof fn startup_gives_up_after_poll_limit()
    ensures
        ({
            let launched = StartupView { launched: true, checks: 0, over: false };
            let before_last = after_closed_checks(launched, (STARTUP_POLL_LIMIT - 1) as nat);
            &&& forall|n: nat|
                n < STARTUP_POLL_LIMIT - 1 ==> startup_step(#[trigger] after_closed_checks(launched, n), false).1
                    == StartupVerdict::WaitAndRetry
            &&& !before_last.over
            &&& startup_step(before_last, false).1 == StartupVerdict::WaitThenGiveUp
            &&& startup_step(before_last, false).0.over
        }),
{
    let launched = StartupView { launched: true, checks: 0, over: false };
    assert forall|n: nat| n < STARTUP_POLL_LIMIT - 1 implies startup_step(
        #[trigger] after_closed_checks(launched, n),
        false,
    ).1 == StartupVerdict::WaitAndRetry by {
        lemma_closed_checks(0, n);
    }
    lemma_closed_checks(0, (STARTUP_POLL_LIMIT - 1) as nat);
}

} // verus!
