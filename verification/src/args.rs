//! The command line of the daemon.
//!
//! An argument comes in the form that the operating system gave it and as text,
//! with what is not Unicode replaced. The text alone decides what the daemon
//! does; what is handed on to a subcommand keeps the system's form.

use vstd::prelude::*;

use crate::text;

verus! {

/// The name that subcommands are run under.
pub const PROGRAM: &'static str = "mentisdbd";

/// What `--help` prints.
pub const DAEMON_HELP: &'static str =
    "\
mentisdbd — headless MentisDB daemon

Usage:
  mentisdbd                    Start HTTP MCP + REST servers (default)
  mentisdbd --mode stdio       Start MCP server over stdio
  mentisdbd --mode http        HTTP servers only (same as default)
  mentisdbd --mode both        Run both stdio and HTTP
  mentisdbd --stdio-mcp        Alias for --mode stdio
  mentisdbd --help             Show this help

CLI subcommands (delegated — see `mentisdbd <subcommand> --help` for details):
  setup, wizard, add, search, agents, backup, restore

Configuration is read from MENTISDB_* environment variables.
";

/// An argument: as the operating system gave it, and as text.
pub struct DaemonArg<T> {
    pub raw: T,
    pub text: String,
}

/// What the command line asks for.
#[derive(Debug, PartialEq, Eq)]
pub enum DaemonArgMode<T> {
    /// Print the help text.
    Help,
    /// Serve over HTTP.
    Run,
    /// Serve over standard input and output.
    Stdio,
    /// Serve over both.
    Both,
    /// Run a subcommand, with this command line.
    CliSubcommand(Vec<T>),
}

/// What the texts of the arguments decide.
pub enum ArgPlan {
    Help,
    Run,
    Stdio,
    Both,
    CliSubcommand,
    Refused(Seq<char>),
}

/// The texts of the arguments.
pub open spec fn arg_texts<T>(args: Seq<DaemonArg<T>>) -> Seq<Seq<char>> {
    args.map_values(|arg: DaemonArg<T>| arg.text@)
}

/// The arguments as the operating system gave them.
pub open spec fn raw_args<T>(args: Seq<DaemonArg<T>>) -> Seq<T> {
    args.map_values(|arg: DaemonArg<T>| arg.raw)
}

/// Whether an argument asks for help.
pub open spec fn is_help(text: Seq<char>) -> bool {
    text == "--help"@ || text == "-h"@ || text == "help"@
}

/// Whether an argument names a subcommand.
pub open spec fn is_subcommand(text: Seq<char>) -> bool {
    ||| text == "setup"@
    ||| text == "wizard"@
    ||| text == "add"@
    ||| text == "search"@
    ||| text == "agents"@
    ||| text == "backup"@
    ||| text == "restore"@
}

/// What a value of `--mode` decides.
pub open spec fn mode_plan(mode: Seq<char>) -> ArgPlan {
    if mode == "stdio"@ {
        ArgPlan::Stdio
    } else if mode == "http"@ {
        ArgPlan::Run
    } else if mode == "both"@ {
        ArgPlan::Both
    } else {
        ArgPlan::Refused(
            "Invalid --mode value '"@ + mode + "'. Valid values: stdio, http, both"@,
        )
    }
}

/// What the texts of the arguments decide.
pub open spec fn arg_plan(texts: Seq<Seq<char>>) -> ArgPlan {
    if texts.len() == 0 {
        ArgPlan::Run
    } else if texts.len() == 1 && is_help(texts[0]) {
        ArgPlan::Help
    } else if is_subcommand(texts[0]) {
        ArgPlan::CliSubcommand
    } else {
        match texts.index_of_first("--mode"@) {
            Some(at) => if at + 1 < texts.len() {
                mode_plan(texts[at + 1])
            } else {
                ArgPlan::Refused("--mode requires a value (stdio, http, or both)"@)
            },
            None => if texts.contains("--stdio-mcp"@) {
                ArgPlan::Stdio
            } else {
                ArgPlan::Refused(
                    "Unexpected arguments for `mentisdbd`: "@ + text::joined(texts, " "@),
                )
            },
        }
    }
}

/// Whether an argument asks for help.
fn asks_for_help(text: &str) -> (found: bool)
    ensures
        found == is_help(text@),
{
    text::same_text(text, "--help") || text::same_text(text, "-h") || text::same_text(text, "help")
}

/// Whether an argument names a subcommand.
fn names_subcommand(text: &str) -> (found: bool)
    ensures
        found == is_subcommand(text@),
{
    text::same_text(text, "setup") || text::same_text(text, "wizard") || text::same_text(text, "add")
        || text::same_text(text, "search") || text::same_text(text, "agents") || text::same_text(
        text,
        "backup",
    ) || text::same_text(text, "restore")
}

/// The index of the first argument that reads `wanted`.
fn position<T>(args: &Vec<DaemonArg<T>>, wanted: &str) -> (found: Option<usize>)
    ensures
        match arg_texts(args@).index_of_first(wanted@) {
            Some(at) => found is Some && found->Some_0 == at && 0 <= at < args@.len(),
            None => found is None,
        },
        found is Some <==> arg_texts(args@).contains(wanted@),
{
    let ghost texts = arg_texts(args@);
    proof {
        texts.index_of_first_ensures(wanted@);
    }
    for i in 0..args.len()
        invariant
            texts == arg_texts(args@),
            forall|j: int| 0 <= j < i ==> #[trigger] texts[j] != wanted@,
            texts.contains(wanted@) ==> {
                &&& texts.index_of_first(wanted@) is Some
                &&& 0 <= texts.index_of_first(wanted@)->Some_0 < texts.len()
                &&& texts[texts.index_of_first(wanted@)->Some_0] == wanted@
                &&& forall|j: int|
                    0 <= j < texts.index_of_first(wanted@)->Some_0 < texts.len() ==> texts[j]
                        != wanted@
            },
    {
        assert(texts[i as int] == args@[i as int].text@);
        if text::same_text(args[i].text.as_str(), wanted) {
            return Some(i);
        }
    }
    None
}

/// The texts of the arguments, with a space between each two.
fn join_texts<T>(args: &Vec<DaemonArg<T>>) -> (line: String)
    ensures
        line@ == text::joined(arg_texts(args@), " "@),
{
    let ghost texts = arg_texts(args@);
    let mut line = String::new();
    for i in 0..args.len()
        invariant
            texts == arg_texts(args@),
            line@ == text::joined(texts.take(i as int), " "@),
    {
        assert(texts.take(i + 1).drop_last() =~= texts.take(i as int));
        if i > 0 {
            line.append(" ");
        }
        line.append(args[i].text.as_str());
        assert(line@ =~= text::joined(texts.take(i + 1), " "@));
    }
    assert(texts.take(texts.len() as int) =~= texts);
    line
}

/// What the command line `args`, without the program's own name, asks for.
/// `program` is the name that a subcommand's command line begins with.
pub fn parse_daemon_args<T>(args: Vec<DaemonArg<T>>, program: T) -> (mode: Result<
    DaemonArgMode<T>,
    String,
>)
    ensures
        match arg_plan(arg_texts(args@)) {
            ArgPlan::Help => mode matches Ok(DaemonArgMode::Help),
            ArgPlan::Run => mode matches Ok(DaemonArgMode::Run),
            ArgPlan::Stdio => mode matches Ok(DaemonArgMode::Stdio),
            ArgPlan::Both => mode matches Ok(DaemonArgMode::Both),
            ArgPlan::CliSubcommand => mode matches Ok(DaemonArgMode::CliSubcommand(command))
                && command@ == seq![program] + raw_args(args@) && command@.len() == args@.len() + 1
                && command@[0] == program && (forall|i: int|
                0 <= i < args@.len() ==> #[trigger] command@[i + 1] == args@[i].raw),
            ArgPlan::Refused(message) => mode matches Err(text) && text@ == message,
        },
{
    let ghost texts = arg_texts(args@);
    if args.len() == 0 {
        return Ok(DaemonArgMode::Run);
    }
    assert(texts[0] == args@[0].text@);
    if args.len() == 1 && asks_for_help(args[0].text.as_str()) {
        return Ok(DaemonArgMode::Help);
    }
    if names_subcommand(args[0].text.as_str()) {
        let mut command: Vec<T> = Vec::new();
        command.push(program);
        let ghost given = args@;
        assert(seq![program] + raw_args(given).take(0) =~= command@);
        for arg in it: args
            invariant
                it.seq() == given,
                command@ == seq![program] + raw_args(given).take(it.index()),
        {
            command.push(arg.raw);
            assert(command@ =~= seq![program] + raw_args(given).take(it.index() + 1));
        }
        assert(raw_args(given).take(given.len() as int) =~= raw_args(given));
        assert forall|i: int| 0 <= i < given.len() implies #[trigger] command@[i + 1]
            == given[i].raw by {
            assert(raw_args(given)[i] == given[i].raw);
        }
        return Ok(DaemonArgMode::CliSubcommand(command));
    }
    if let Some(at) = position(&args, "--mode") {
        if at + 1 >= args.len() {
            return Err("--mode requires a value (stdio, http, or both)".to_owned());
        }
        assert(texts[at + 1] == args@[at + 1].text@);
        let mode = args[at + 1].text.as_str();
        if text::same_text(mode, "stdio") {
            return Ok(DaemonArgMode::Stdio);
        }
        if text::same_text(mode, "http") {
            return Ok(DaemonArgMode::Run);
        }
        if text::same_text(mode, "both") {
            return Ok(DaemonArgMode::Both);
        }
        let mut message = "Invalid --mode value '".to_owned();
        message.append(mode);
        message.append("'. Valid values: stdio, http, both");
        return Err(message);
    }
    if position(&args, "--stdio-mcp").is_some() {
        return Ok(DaemonArgMode::Stdio);
    }
    let mut message = "Unexpected arguments for `mentisdbd`: ".to_owned();
    message.append(join_texts(&args).as_str());
    Err(message)
}

/// What `--help` prints.
pub fn daemon_help_text() -> (help: &'static str)
    ensures
        help@ == DAEMON_HELP@,
{
    DAEMON_HELP
}

/// Without arguments the daemon serves over HTTP.
pub proof fn law_no_arguments_serve_http(texts: Seq<Seq<char>>)
    requires
        texts.len() == 0,
    ensures
        arg_plan(texts) is Run,
{
}

/// Help is given exactly for a command line of one argument that asks for it.
pub proof fn law_help_stands_alone(texts: Seq<Seq<char>>)
    ensures
        arg_plan(texts) is Help <==> texts.len() == 1 && is_help(texts[0]),
{
}

/// A command line is handed on to a subcommand exactly where its first argument
/// names one, whatever follows.
pub proof fn law_first_argument_selects_subcommand(texts: Seq<Seq<char>>)
    ensures
        arg_plan(texts) is CliSubcommand <==> texts.len() > 0 && is_subcommand(texts[0]),
{
    lemma_help_is_no_subcommand();
}

proof fn lemma_help_is_no_subcommand()
    ensures
        forall|text: Seq<char>| is_help(text) ==> !#[trigger] is_subcommand(text),
{
    reveal_strlit("--help");
    reveal_strlit("-h");
    reveal_strlit("help");
    reveal_strlit("setup");
    reveal_strlit("wizard");
    reveal_strlit("add");
    reveal_strlit("search");
    reveal_strlit("agents");
    reveal_strlit("backup");
    reveal_strlit("restore");
    assert("--help"@.len() == 6 && "-h"@.len() == 2 && "help"@.len() == 4);
    assert("setup"@.len() == 5 && "add"@.len() == 3 && "restore"@.len() == 7);
    assert("--help"@[0] == '-' && "wizard"@[0] == 'w' && "search"@[0] == 's' && "agents"@[0] == 'a'
        && "backup"@[0] == 'b');
}

/// Where no subcommand is named and help is not asked for, the first `--mode`
/// alone decides, whatever else is there.
pub proof fn law_first_mode_flag_decides(texts: Seq<Seq<char>>, at: int)
    requires
        0 <= at < texts.len(),
        texts[at] == "--mode"@,
        forall|j: int| 0 <= j < at ==> #[trigger] texts[j] != "--mode"@,
        !is_subcommand(texts[0]),
    ensures
        at + 1 < texts.len() ==> arg_plan(texts) == mode_plan(texts[at + 1]),
        at + 1 == texts.len() ==> arg_plan(texts) is Refused,
{
    texts.index_of_first_ensures("--mode"@);
    reveal_strlit("--mode");
    reveal_strlit("--help");
    reveal_strlit("-h");
    reveal_strlit("help");
    assert("--mode"@[2] == 'm' && "--help"@[2] == 'h');
    assert("-h"@.len() == 2 && "help"@.len() == 4 && "--mode"@.len() == 6);
}

/// `--stdio-mcp` stands for `--mode stdio`: where there is no `--mode` and no
/// subcommand, it selects what that selects.
pub proof fn law_stdio_flag_is_alias(texts: Seq<Seq<char>>)
    requires
        texts.contains("--stdio-mcp"@),
        !texts.contains("--mode"@),
        !is_subcommand(texts[0]),
    ensures
        arg_plan(texts) == mode_plan("stdio"@),
{
    texts.index_of_first_ensures("--mode"@);
    reveal_strlit("--stdio-mcp");
    reveal_strlit("--help");
    reveal_strlit("-h");
    reveal_strlit("help");
    let at = choose|at: int| 0 <= at < texts.len() && texts[at] == "--stdio-mcp"@;
    assert("--stdio-mcp"@.len() == 11 && "--help"@.len() == 6 && "-h"@.len() == 2 && "help"@.len()
        == 4);
}

/// Arguments that name no subcommand, mode or alias, and do not ask for help, are
/// refused, and the refusal repeats them.
pub proof fn law_unknown_arguments_are_refused(texts: Seq<Seq<char>>)
    requires
        texts.len() > 0,
        !(texts.len() == 1 && is_help(texts[0])),
        !is_subcommand(texts[0]),
        !texts.contains("--mode"@),
        !texts.contains("--stdio-mcp"@),
    ensures
        arg_plan(texts) == ArgPlan::Refused(
            "Unexpected arguments for `mentisdbd`: "@ + text::joined(texts, " "@),
        ),
{
    texts.index_of_first_ensures("--mode"@);
}

/// Where the help text names the modes and the subcommands.
proof fn lemma_help_lines()
    ensures
        text::found_at(DAEMON_HELP@, "setup, wizard, add, search, agents, backup, restore"@, 479),
        text::found_at(DAEMON_HELP@, "--mode stdio"@, 128),
        text::found_at(DAEMON_HELP@, "--mode http"@, 187),
        text::found_at(DAEMON_HELP@, "--mode both"@, 254),
{
    reveal_strlit(
        "\
mentisdbd — headless MentisDB daemon

Usage:
  mentisdbd                    Start HTTP MCP + REST servers (default)
  mentisdbd --mode stdio       Start MCP server over stdio
  mentisdbd --mode http        HTTP servers only (same as default)
  mentisdbd --mode both        Run both stdio and HTTP
  mentisdbd --stdio-mcp        Alias for --mode stdio
  mentisdbd --help             Show this help

CLI subcommands (delegated — see `mentisdbd <subcommand> --help` for details):
  setup, wizard, add, search, agents, backup, restore

Configuration is read from MENTISDB_* environment variables.
",
    );
    reveal_strlit("setup, wizard, add, search, agents, backup, restore");
    reveal_strlit("--mode stdio");
    reveal_strlit("--mode http");
    reveal_strlit("--mode both");
    assert(DAEMON_HELP@.subrange(479, 530)
        =~= "setup, wizard, add, search, agents, backup, restore"@);
    assert(DAEMON_HELP@.subrange(128, 140) =~= "--mode stdio"@);
    assert(DAEMON_HELP@.subrange(187, 198) =~= "--mode http"@);
    assert(DAEMON_HELP@.subrange(254, 265) =~= "--mode both"@);
}

/// Every subcommand can be found in the help text.
pub proof fn law_help_lists_every_subcommand(text: Seq<char>)
    requires
        is_subcommand(text),
    ensures
        text::occurs(DAEMON_HELP@, text),
{
    lemma_help_lines();
    let list = "setup, wizard, add, search, agents, backup, restore"@;
    reveal_strlit("setup, wizard, add, search, agents, backup, restore");
    reveal_strlit("setup");
    reveal_strlit("wizard");
    reveal_strlit("add");
    reveal_strlit("search");
    reveal_strlit("agents");
    reveal_strlit("backup");
    reveal_strlit("restore");
    assert(list.subrange(0, 5) =~= "setup"@);
    assert(list.subrange(7, 13) =~= "wizard"@);
    assert(list.subrange(15, 18) =~= "add"@);
    assert(list.subrange(20, 26) =~= "search"@);
    assert(list.subrange(28, 34) =~= "agents"@);
    assert(list.subrange(36, 42) =~= "backup"@);
    assert(list.subrange(44, 51) =~= "restore"@);
    let offset: int = if text == "setup"@ {
        0
    } else if text == "wizard"@ {
        7
    } else if text == "add"@ {
        15
    } else if text == "search"@ {
        20
    } else if text == "agents"@ {
        28
    } else if text == "backup"@ {
        36
    } else {
        44
    };
    assert(text::found_at(list, text, offset));
    text::lemma_found_within(DAEMON_HELP@, list, 479, text, offset);
}

/// Every value that `--mode` accepts can be found in the help text.
pub proof fn law_help_lists_every_mode(mode: Seq<char>)
    requires
        mode_plan(mode) !is Refused,
    ensures
        text::occurs(DAEMON_HELP@, "--mode "@ + mode),
{
    lemma_help_lines();
    reveal_strlit("--mode ");
    reveal_strlit("--mode stdio");
    reveal_strlit("--mode http");
    reveal_strlit("--mode both");
    reveal_strlit("stdio");
    reveal_strlit("http");
    reveal_strlit("both");
    assert("--mode "@ + "stdio"@ =~= "--mode stdio"@);
    assert("--mode "@ + "http"@ =~= "--mode http"@);
    assert("--mode "@ + "both"@ =~= "--mode both"@);
}

/// A subcommand is handed the program's name and then every argument, in the system's form
/// and in the same order.
pub proof fn law_subcommand_gets_every_argument<T>(args: Seq<DaemonArg<T>>, program: T, i: int)
    requires
        0 <= i < args.len(),
    ensures
        (seq![program] + raw_args(args)).len() == args.len() + 1,
        (seq![program] + raw_args(args))[0] == program,
        (seq![program] + raw_args(args))[i + 1] == args[i].raw,
{
}

/// Every argument is read by its own text.
pub proof fn law_arguments_are_read_one_by_one<T>(args: Seq<DaemonArg<T>>, i: int)
    requires
        0 <= i < args.len(),
    ensures
        arg_texts(args).len() == args.len(),
        arg_texts(args)[i] == args[i].text@,
{
}

/// These words ask for help and these name subcommands, and no others do.
pub proof fn law_words_of_the_command_line(text: Seq<char>)
    ensures
        is_help(text) <==> seq!["--help"@, "-h"@, "help"@].contains(text),
        is_subcommand(text) <==> seq![
            "setup"@,
            "wizard"@,
            "add"@,
            "search"@,
            "agents"@,
            "backup"@,
            "restore"@,
        ].contains(text),
{
    let help = seq!["--help"@, "-h"@, "help"@];
    assert(help[0] == "--help"@ && help[1] == "-h"@ && help[2] == "help"@);
    let names = seq![
        "setup"@,
        "wizard"@,
        "add"@,
        "search"@,
        "agents"@,
        "backup"@,
        "restore"@,
    ];
    assert(names[0] == "setup"@ && names[1] == "wizard"@ && names[2] == "add"@ && names[3]
        == "search"@ && names[4] == "agents"@ && names[5] == "backup"@ && names[6] == "restore"@);
}

/// `--mode` takes three values, each for its own way to serve. Any other value is refused,
/// and the refusal quotes it.
pub proof fn law_values_of_the_mode_flag(mode: Seq<char>)
    ensures
        mode_plan("stdio"@) is Stdio,
        mode_plan("http"@) is Run,
        mode_plan("both"@) is Both,
        mode != "stdio"@ && mode != "http"@ && mode != "both"@ ==> mode_plan(mode)
            == ArgPlan::Refused(
            "Invalid --mode value '"@ + mode + "'. Valid values: stdio, http, both"@,
        ),
{
    reveal_strlit("stdio");
    reveal_strlit("http");
    reveal_strlit("both");
    assert("stdio"@.len() == 5 && "http"@.len() == 4 && "both"@.len() == 4);
    assert("http"@[0] == 'h' && "both"@[0] == 'b');
}

/// A `--mode` at the end of the command line, and none before it, is refused for want of a
/// value.
pub proof fn law_mode_flag_needs_a_value(before: Seq<Seq<char>>)
    requires
        !before.contains("--mode"@),
        before.len() > 0 ==> !is_subcommand(before[0]),
    ensures
        arg_plan(before.push("--mode"@)) == ArgPlan::Refused(
            "--mode requires a value (stdio, http, or both)"@,
        ),
{
    let texts = before.push("--mode"@);
    let at = before.len() as int;
    assert forall|j: int| 0 <= j < at implies #[trigger] texts[j] != "--mode"@ by {
        assert(before[j] == texts[j]);
    }
    texts.index_of_first_ensures("--mode"@);
    assert(texts[at] == "--mode"@);
    lemma_mode_flag_is_no_word();
}

proof fn lemma_mode_flag_is_no_word()
    ensures
        !is_help("--mode"@),
        !is_subcommand("--mode"@),
{
    reveal_strlit("--mode");
    reveal_strlit("--help");
    reveal_strlit("-h");
    reveal_strlit("help");
    reveal_strlit("setup");
    reveal_strlit("wizard");
    reveal_strlit("add");
    reveal_strlit("search");
    reveal_strlit("agents");
    reveal_strlit("backup");
    reveal_strlit("restore");
    assert("--mode"@.len() == 6 && "--mode"@[0] == '-' && "--mode"@[2] == 'm');
    assert("--help"@[2] == 'h' && "-h"@.len() == 2 && "help"@.len() == 4);
    assert("setup"@[0] == 's' && "wizard"@[0] == 'w' && "add"@[0] == 'a' && "search"@[0] == 's'
        && "agents"@[0] == 'a' && "backup"@[0] == 'b' && "restore"@[0] == 'r');
}

/// The help text explains every way to start the daemon.
pub proof fn law_help_explains_every_invocation()
    ensures
        text::occurs(DAEMON_HELP@, "mentisdbd                    Start HTTP MCP + REST servers (default)"@),
        text::occurs(DAEMON_HELP@, "mentisdbd --mode stdio       Start MCP server over stdio"@),
        text::occurs(DAEMON_HELP@, "mentisdbd --mode http        HTTP servers only (same as default)"@),
        text::occurs(DAEMON_HELP@, "mentisdbd --mode both        Run both stdio and HTTP"@),
        text::occurs(DAEMON_HELP@, "mentisdbd --stdio-mcp        Alias for --mode stdio"@),
        text::occurs(DAEMON_HELP@, "mentisdbd --help             Show this help"@),
{
    reveal_strlit(
        "\
mentisdbd — headless MentisDB daemon

Usage:
  mentisdbd                    Start HTTP MCP + REST servers (default)
  mentisdbd --mode stdio       Start MCP server over stdio
  mentisdbd --mode http        HTTP servers only (same as default)
  mentisdbd --mode both        Run both stdio and HTTP
  mentisdbd --stdio-mcp        Alias for --mode stdio
  mentisdbd --help             Show this help

CLI subcommands (delegated — see `mentisdbd <subcommand> --help` for details):
  setup, wizard, add, search, agents, backup, restore

Configuration is read from MENTISDB_* environment variables.
",
    );
    reveal_strlit("mentisdbd                    Start HTTP MCP + REST servers (default)");
    reveal_strlit("mentisdbd --mode stdio       Start MCP server over stdio");
    reveal_strlit("mentisdbd --mode http        HTTP servers only (same as default)");
    reveal_strlit("mentisdbd --mode both        Run both stdio and HTTP");
    reveal_strlit("mentisdbd --stdio-mcp        Alias for --mode stdio");
    reveal_strlit("mentisdbd --help             Show this help");
    assert(DAEMON_HELP@.subrange(47, 115) =~= "mentisdbd                    Start HTTP MCP + REST servers (default)"@);
    assert(text::found_at(DAEMON_HELP@, "mentisdbd                    Start HTTP MCP + REST servers (default)"@, 47));
    assert(DAEMON_HELP@.subrange(118, 174) =~= "mentisdbd --mode stdio       Start MCP server over stdio"@);
    assert(text::found_at(DAEMON_HELP@, "mentisdbd --mode stdio       Start MCP server over stdio"@, 118));
    assert(DAEMON_HELP@.subrange(177, 241) =~= "mentisdbd --mode http        HTTP servers only (same as default)"@);
    assert(text::found_at(DAEMON_HELP@, "mentisdbd --mode http        HTTP servers only (same as default)"@, 177));
    assert(DAEMON_HELP@.subrange(244, 296) =~= "mentisdbd --mode both        Run both stdio and HTTP"@);
    assert(text::found_at(DAEMON_HELP@, "mentisdbd --mode both        Run both stdio and HTTP"@, 244));
    assert(DAEMON_HELP@.subrange(299, 350) =~= "mentisdbd --stdio-mcp        Alias for --mode stdio"@);
    assert(text::found_at(DAEMON_HELP@, "mentisdbd --stdio-mcp        Alias for --mode stdio"@, 299));
    assert(DAEMON_HELP@.subrange(353, 396) =~= "mentisdbd --help             Show this help"@);
    assert(text::found_at(DAEMON_HELP@, "mentisdbd --help             Show this help"@, 353));
}

} // verus!
