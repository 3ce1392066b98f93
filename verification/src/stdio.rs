//! Serving over standard input and output.
//!
//! Where a daemon runs, requests are handed on to it. Where none does, one is
//! launched and waited for, and where it does not come up, requests are answered
//! in this process.

use vstd::prelude::*;

use crate::json;
use crate::json::Json;
use crate::proxy;
use crate::proxy::{ProxyPlan, ProxyStep};
use crate::report;
use crate::report::{Level, LogLine};
use crate::rpc;
use crate::rpc::{Plan, ServiceOutcome, StdioStep};
use crate::text;

verus! {

/// How long a daemon may take to answer whether it runs, in milliseconds.
pub const HEALTH_TIMEOUT_MILLIS: u64 = 500;

/// How often a launched daemon is asked whether it runs.
pub const WAIT_ATTEMPTS: u32 = 50;

/// How long to wait between two such questions, in milliseconds.
pub const WAIT_PAUSE_MILLIS: u64 = 200;

/// The address at which a daemon says whether it runs.
pub fn health_url(mcp_addr: &str) -> (url: String)
    ensures
        url@ == "http://"@ + mcp_addr@ + "/health"@,
{
    let mut url = "http://".to_owned();
    url.append(mcp_addr);
    url.append("/health");
    url
}

/// Whether a daemon runs, from the status that its health address answered with;
/// `None` where it did not answer.
pub fn is_daemon_running(status: Option<u16>) -> (running: bool)
    ensures
        running <==> status == Some(200u16),
{
    match status {
        Some(status) => status == 200,
        None => false,
    }
}

/// The system that the daemon is launched on.
#[derive(Clone, Copy, Debug, PartialEq, Eq, Structural)]
pub enum Platform {
    Unix,
    Windows,
    Other,
}

/// A command that launches the daemon: `program` with `flags` and then the path of
/// the daemon's executable. Its standard streams are closed.
pub struct LaunchCommand<T> {
    pub program: &'static str,
    pub flags: Vec<&'static str>,
    pub exe: T,
}

/// The program and the flags before the executable's path that launch a daemon in
/// the background; `None` where there is no way to.
pub open spec fn launcher(platform: Platform) -> Option<(Seq<char>, Seq<Seq<char>>)> {
    match platform {
        Platform::Unix => Some(("nohup"@, Seq::empty())),
        Platform::Windows => Some(("cmd"@, seq!["/C"@, "start"@, "/B"@])),
        Platform::Other => None,
    }
}

/// How to launch the daemon in the background, given the path of its executable or
/// the error with which that could not be told. Nothing is launched on a system
/// that is neither Unix nor Windows.
pub fn launch_daemon<T>(exe: Result<T, String>, platform: Platform) -> (command: Result<
    Option<LaunchCommand<T>>,
    String,
>)
    ensures
        match exe {
            Ok(exe) => match launcher(platform) {
                Some((program, flags)) => command matches Ok(Some(command)) && {
                    &&& command.program@ == program
                    &&& command.flags@.map_values(|flag: &'static str| flag@) == flags
                    &&& command.exe == exe
                },
                None => command matches Ok(None),
            },
            Err(error) => command matches Err(message) && message@
                == "could not resolve own executable path: "@ + error@,
        },
{
    let exe = match exe {
        Ok(exe) => exe,
        Err(error) => {
            let mut message = "could not resolve own executable path: ".to_owned();
            message.append(error.as_str());
            return Err(message);
        },
    };
    let mut flags: Vec<&'static str> = Vec::new();
    match platform {
        Platform::Unix => {
            assert(flags@.map_values(|flag: &'static str| flag@) =~= Seq::empty());
            Ok(Some(LaunchCommand { program: "nohup", flags, exe }))
        },
        Platform::Windows => {
            flags.push("/C");
            flags.push("start");
            flags.push("/B");
            assert(flags@.map_values(|flag: &'static str| flag@) =~= seq![
                "/C"@,
                "start"@,
                "/B"@,
            ]);
            Ok(Some(LaunchCommand { program: "cmd", flags, exe }))
        },
        Platform::Other => Ok(None),
    }
}

/// What launching the daemon came to, from what starting the command came to.
pub fn launch_outcome(spawned: Result<(), String>) -> (outcome: Result<(), String>)
    ensures
        match spawned {
            Ok(_) => outcome is Ok,
            Err(error) => outcome matches Err(message) && message@ == "failed to spawn daemon: "@
                + error@,
        },
{
    match spawned {
        Ok(_) => Ok(()),
        Err(error) => {
            let mut message = "failed to spawn daemon: ".to_owned();
            message.append(error.as_str());
            Err(message)
        },
    }
}

/// The next step in waiting for a daemon; `left` is how many questions may still be
/// asked after it.
#[derive(Clone, Copy, Debug, PartialEq, Eq, Structural)]
pub enum WaitStep {
    /// Ask whether the daemon runs, then go on with [`after_probe`].
    Probe { left: u32 },
    /// Pause, then go on with [`wait_for_daemon`] for `left` questions.
    Pause { millis: u64, left: u32 },
    /// The daemon runs.
    Up,
    /// The daemon has not come up.
    GaveUp,
}

/// The step with which waiting begins, where `max_attempts` questions may be asked.
pub open spec fn wait_start(max_attempts: u32) -> WaitStep {
    if max_attempts == 0 {
        WaitStep::GaveUp
    } else {
        WaitStep::Probe { left: (max_attempts - 1) as u32 }
    }
}

/// The step after a question.
pub open spec fn wait_after_probe(left: u32, running: bool) -> WaitStep {
    if running {
        WaitStep::Up
    } else {
        WaitStep::Pause { millis: WAIT_PAUSE_MILLIS, left }
    }
}

/// Begins to wait for a daemon, or goes on after a pause: at most `max_attempts`
/// questions are asked.
pub fn wait_for_daemon(max_attempts: u32) -> (step: WaitStep)
    ensures
        step == wait_start(max_attempts),
{
    if max_attempts == 0 {
        WaitStep::GaveUp
    } else {
        WaitStep::Probe { left: max_attempts - 1 }
    }
}

/// The step after a question that was answered with `running`, with `left` more to
/// ask.
pub fn after_probe(left: u32, running: bool) -> (step: WaitStep)
    ensures
        step == wait_after_probe(left, running),
{
    if running {
        WaitStep::Up
    } else {
        WaitStep::Pause { millis: WAIT_PAUSE_MILLIS, left }
    }
}

/// Whether waiting from `step` on finds the daemon, where the questions are
/// answered with `answers`, in that order.
pub open spec fn comes_up(step: WaitStep, answers: Seq<bool>) -> bool
    decreases answers.len(), (if step is Pause { 1int } else { 0int }),
{
    match step {
        WaitStep::Probe { left } => answers.len() > 0 && comes_up(
            wait_after_probe(left, answers.first()),
            answers.drop_first(),
        ),
        WaitStep::Pause { left, .. } => comes_up(wait_start(left), answers),
        WaitStep::Up => true,
        WaitStep::GaveUp => false,
    }
}

/// How many questions are asked from `step` on, where they are answered with
/// `answers`, in that order.
pub open spec fn questions(step: WaitStep, answers: Seq<bool>) -> nat
    decreases answers.len(), (if step is Pause { 1int } else { 0int }),
{
    match step {
        WaitStep::Probe { left } => if answers.len() > 0 {
            1 + questions(wait_after_probe(left, answers.first()), answers.drop_first())
        } else {
            1
        },
        WaitStep::Pause { left, .. } => questions(wait_start(left), answers),
        WaitStep::Up => 0,
        WaitStep::GaveUp => 0,
    }
}

/// Waiting finds the daemon exactly where one of the first `max_attempts` answers
/// says that it runs. It never asks more than `max_attempts` questions, and exactly
/// as many where the daemon is not found.
pub proof fn law_waiting_asks_up_to_the_limit(max_attempts: u32, answers: Seq<bool>)
    requires
        answers.len() >= max_attempts,
    ensures
        comes_up(wait_start(max_attempts), answers) <==> exists|i: int|
            0 <= i < max_attempts && #[trigger] answers[i],
        questions(wait_start(max_attempts), answers) <= max_attempts,
        !comes_up(wait_start(max_attempts), answers) ==> questions(
            wait_start(max_attempts),
            answers,
        ) == max_attempts,
    decreases max_attempts,
{
    reveal_with_fuel(comes_up, 3);
    reveal_with_fuel(questions, 3);
    if max_attempts > 0 {
        let left = (max_attempts - 1) as u32;
        let rest = answers.drop_first();
        law_waiting_asks_up_to_the_limit(left, rest);
        if answers.first() {
            assert(answers[0]);
        } else {
            if comes_up(wait_start(left), rest) {
                let i = choose|i: int| 0 <= i < left && #[trigger] rest[i];
                assert(answers[i + 1]);
            }
            if exists|i: int| 0 <= i < max_attempts && #[trigger] answers[i] {
                let i = choose|i: int| 0 <= i < max_attempts && #[trigger] answers[i];
                assert(rest[i - 1]);
            }
        }
    }
}

/// Waiting asks up to the first answer that says that the daemon runs, and no further.
pub proof fn law_waiting_stops_at_the_first_answer(max_attempts: u32, answers: Seq<bool>, k: int)
    requires
        0 <= k < max_attempts,
        k < answers.len(),
        answers[k],
        forall|j: int| 0 <= j < k ==> !#[trigger] answers[j],
    ensures
        comes_up(wait_start(max_attempts), answers),
        questions(wait_start(max_attempts), answers) == k + 1,
    decreases k,
{
    reveal_with_fuel(comes_up, 3);
    reveal_with_fuel(questions, 3);
    if k > 0 {
        let left = (max_attempts - 1) as u32;
        let rest = answers.drop_first();
        assert(!answers[0]);
        assert forall|j: int| 0 <= j < k - 1 implies !#[trigger] rest[j] by {
            assert(!answers[j + 1]);
        }
        law_waiting_stops_at_the_first_answer(left, rest, k - 1);
    }
}

/// What comes next in serving over standard input and output.
#[derive(Clone, Copy, Debug, PartialEq, Eq, Structural)]
pub enum StdioNext {
    /// Hand requests on to the daemon.
    ServeProxy,
    /// Answer requests in this process.
    ServeLocal,
    /// Launch a daemon.
    LaunchDaemon,
}

/// What to log, and what comes next.
#[derive(Debug)]
pub struct StdioDecision {
    pub line: LogLine,
    pub next: StdioNext,
}

/// What comes first, by whether a daemon runs.
pub open spec fn first_next(running: bool) -> StdioNext {
    if running {
        StdioNext::ServeProxy
    } else {
        StdioNext::LaunchDaemon
    }
}

/// What comes first in serving over standard input and output, by whether a daemon
/// runs at `mcp_addr`.
pub fn run_stdio_mode(mcp_addr: &str, running: bool) -> (decision: StdioDecision)
    ensures
        decision.next == first_next(running),
        decision.line@ == report::info_entry(
            if running {
                "stdio: daemon detected at "@ + mcp_addr@ + ", proxying to live instance"@
            } else {
                "stdio: no daemon running, launching background daemon"@
            },
        ),
{
    if running {
        let mut message = "stdio: daemon detected at ".to_owned();
        message.append(mcp_addr);
        message.append(", proxying to live instance");
        StdioDecision {
            line: LogLine { level: Level::Info, message },
            next: StdioNext::ServeProxy,
        }
    } else {
        StdioDecision {
            line: LogLine {
                level: Level::Info,
                message: "stdio: no daemon running, launching background daemon".to_owned(),
            },
            next: StdioNext::LaunchDaemon,
        }
    }
}

/// What follows the launch of a daemon: the wait for it, or the error that ends
/// the program.
pub fn after_launch(launched: Result<(), String>) -> (step: Result<WaitStep, String>)
    ensures
        match launched {
            Ok(_) => step == Ok::<WaitStep, String>(wait_start(WAIT_ATTEMPTS)),
            Err(error) => step matches Err(message) && message@ == "failed to launch daemon: "@
                + error@,
        },
{
    match launched {
        Ok(_) => Ok(wait_for_daemon(WAIT_ATTEMPTS)),
        Err(error) => {
            let mut message = "failed to launch daemon: ".to_owned();
            message.append(error.as_str());
            Err(message)
        },
    }
}

/// What follows the wait for a daemon.
pub open spec fn waited_next(up: bool) -> StdioNext {
    if up {
        StdioNext::ServeProxy
    } else {
        StdioNext::ServeLocal
    }
}

/// What follows the wait for a daemon at `mcp_addr`, by whether it came up.
pub fn after_wait(mcp_addr: &str, up: bool) -> (decision: StdioDecision)
    ensures
        decision.next == waited_next(up),
        decision.line@ == if up {
            report::info_entry("stdio: daemon started at "@ + mcp_addr@ + ", proxying"@)
        } else {
            report::warn_entry(
                "stdio: daemon did not become responsive at "@ + mcp_addr@
                    + ", falling back to local mode"@,
            )
        },
{
    if up {
        let mut message = "stdio: daemon started at ".to_owned();
        message.append(mcp_addr);
        message.append(", proxying");
        StdioDecision {
            line: LogLine { level: Level::Info, message },
            next: StdioNext::ServeProxy,
        }
    } else {
        let mut message = "stdio: daemon did not become responsive at ".to_owned();
        message.append(mcp_addr);
        message.append(", falling back to local mode");
        StdioDecision {
            line: LogLine { level: Level::Warn, message },
            next: StdioNext::ServeLocal,
        }
    }
}

/// How requests are served, where `running` says whether a daemon runs and, if
/// none does, one is launched and answers with `answers`.
pub open spec fn served_by(running: bool, answers: Seq<bool>) -> StdioNext {
    match first_next(running) {
        StdioNext::LaunchDaemon => waited_next(comes_up(wait_start(WAIT_ATTEMPTS), answers)),
        next => next,
    }
}

/// Requests are answered in this process only where no daemon ran and the launched
/// one was silent for every question that it was asked; else they are handed on.
pub proof fn law_local_mode_is_the_last_resort(running: bool, answers: Seq<bool>)
    requires
        answers.len() >= WAIT_ATTEMPTS,
    ensures
        served_by(running, answers) is ServeLocal <==> !running && (forall|i: int|
            0 <= i < WAIT_ATTEMPTS ==> !#[trigger] answers[i]),
        served_by(running, answers) is ServeLocal || served_by(running, answers) is ServeProxy,
{
    law_waiting_asks_up_to_the_limit(WAIT_ATTEMPTS, answers);
}

/// The request on a line of input; `None` where the line is blank.
pub fn request_line(line: &str) -> (request: Option<&str>)
    ensures
        match request {
            Some(request) => request@ == text::trimmed(line@) && request@.len() > 0,
            None => text::trimmed(line@).len() == 0,
        },
{
    let request = text::trim(line);
    if request.is_empty() {
        None
    } else {
        Some(request)
    }
}

/// What to do about a line of input where requests are answered in this process, by
/// a daemon of the given version. A blank line is skipped.
pub fn run_stdio_mode_local(line: &str, version: &str) -> (step: StdioStep)
    ensures
        step@ == local_plan(line@, version@),
        step matches StdioStep::Reply(reply) ==> json::json_parse(text::trimmed(line@)) matches Some(
            request,
        ) && rpc::is_immediate_reply(reply@, request, version@),
{
    match request_line(line) {
        Some(request) => rpc::handle_stdio_jsonrpc(request, version),
        None => StdioStep::Silent,
    }
}

/// What a line of input leads to where requests are answered in this process.
pub open spec fn local_plan(line: Seq<char>, version: Seq<char>) -> Plan {
    let request = text::trimmed(line);
    match json::json_parse(request) {
        Some(content) => if request.len() > 0 {
            rpc::plan(content, version)
        } else {
            Plan::Silent
        },
        None => Plan::Silent,
    }
}

/// What to do about a line of input where requests are handed on to the daemon at
/// `mcp_addr`. A blank line is skipped. `skill_md` is the text of the skill, as
/// Markdown.
pub fn run_stdio_mode_proxy(mcp_addr: &str, line: &str, skill_md: &str) -> (step: ProxyStep)
    ensures
        step@ == forward_plan(mcp_addr@, line@, skill_md@),
        step matches ProxyStep::Reply(reply) ==> json::json_parse(text::trimmed(line@)) matches Some(
            request,
        ) && proxy::is_skill_reply(reply@, request, skill_md@),
{
    match request_line(line) {
        Some(request) => proxy::proxy_jsonrpc_to_daemon(mcp_addr, request, skill_md),
        None => ProxyStep::Silent,
    }
}

/// What a line of input leads to where requests are handed on to a daemon.
pub open spec fn forward_plan(mcp_addr: Seq<char>, line: Seq<char>, skill_md: Seq<char>) -> ProxyPlan {
    let request = text::trimmed(line);
    match json::json_parse(request) {
        Some(content) => if request.len() > 0 {
            proxy::proxy_plan(content, mcp_addr, request, skill_md)
        } else {
            ProxyPlan::Silent
        },
        None => ProxyPlan::Silent,
    }
}

/// White space around a request makes no difference: in neither mode does it change
/// what the line leads to.
pub proof fn law_outer_space_of_a_line_is_ignored(
    line: Seq<char>,
    version: Seq<char>,
    mcp_addr: Seq<char>,
    skill_md: Seq<char>,
)
    ensures
        local_plan(text::trimmed(line), version) == local_plan(line, version),
        forward_plan(mcp_addr, text::trimmed(line), skill_md) == forward_plan(
            mcp_addr,
            line,
            skill_md,
        ),
{
    text::lemma_trimmed_ends(line);
    text::lemma_trimmed_fixed(text::trimmed(line));
}

/// What a reply is written as: the reply and a line feed.
pub open spec fn framed(reply: Seq<char>) -> Seq<char> {
    reply.push('\n')
}

/// What a reply is written as: the reply and a line feed.
pub fn frame_reply(reply: &str) -> (frame: String)
    ensures
        frame@ == framed(reply@),
{
    let mut frame = reply.to_owned();
    frame.append("\n");
    proof {
        reveal_strlit("\n");
    }
    assert(frame@ =~= framed(reply@));
    frame
}

/// A reply without line feeds is written as one line, which a reader gets back as
/// the reply.
pub proof fn law_framed_reply_is_one_line(reply: Seq<char>)
    requires
        !reply.contains('\n'),
    ensures
        text::lines(framed(reply)) == seq![reply, Seq::empty()],
{
    let nothing = Seq::<char>::empty();
    text::lemma_single_line(reply);
    text::lemma_lines_after_feed(reply, nothing);
    assert(reply.push('\n') + nothing =~= framed(reply));
    assert(seq![reply].push(nothing) =~= seq![reply, nothing]);
}

/// A reader that takes what is written line by line, and reads the line as JSON, gets
/// the reply as it was made, where that is plain.
pub proof fn law_written_reply_is_read_back(reply: Seq<char>, content: Json)
    requires
        json::written(reply, content),
        json::plain(content, json::max_depth()),
    ensures
        json::json_parse(text::lines(framed(reply))[0]) == Some(content),
{
    law_framed_reply_is_one_line(reply);
}

/// What happens in a session.
pub enum SessionEvent {
    /// A line of input was dealt with; the reply, where there is one to write.
    Dealt(Option<String>),
    /// The input is over.
    EndOfInput,
    /// Reading or writing failed, with this error.
    Failed(String),
}

/// What happens in a session, as a value.
pub enum Happened {
    Dealt(Option<Seq<char>>),
    EndOfInput,
    Failed(Seq<char>),
}

impl View for SessionEvent {
    type V = Happened;

    open spec fn view(&self) -> Happened {
        match *self {
            SessionEvent::Dealt(reply) => Happened::Dealt(
                match reply {
                    Some(reply) => Some(reply@),
                    None => None,
                },
            ),
            SessionEvent::EndOfInput => Happened::EndOfInput,
            SessionEvent::Failed(error) => Happened::Failed(error@),
        }
    }
}

/// What follows an event.
pub enum SessionStep {
    /// Read the next line.
    ReadOn,
    /// Write and flush this, then read the next line.
    Write(String),
    /// The session is over.
    Finished,
    /// The session failed, with this error.
    Failed(String),
}

/// What follows an event, as a value.
pub enum SessionPlan {
    ReadOn,
    Write(Seq<char>),
    Finished,
    Failed(Seq<char>),
}

impl View for SessionStep {
    type V = SessionPlan;

    open spec fn view(&self) -> SessionPlan {
        match *self {
            SessionStep::ReadOn => SessionPlan::ReadOn,
            SessionStep::Write(frame) => SessionPlan::Write(frame@),
            SessionStep::Finished => SessionPlan::Finished,
            SessionStep::Failed(error) => SessionPlan::Failed(error@),
        }
    }
}

/// What follows an event.
pub open spec fn session_plan(event: Happened) -> SessionPlan {
    match event {
        Happened::Dealt(Some(reply)) => SessionPlan::Write(framed(reply)),
        Happened::Dealt(None) => SessionPlan::ReadOn,
        Happened::EndOfInput => SessionPlan::Finished,
        Happened::Failed(error) => SessionPlan::Failed(error),
    }
}

/// What follows an event in a session, of either mode.
pub fn session_step(event: SessionEvent) -> (step: SessionStep)
    ensures
        step@ == session_plan(event@),
{
    match event {
        SessionEvent::Dealt(Some(reply)) => SessionStep::Write(frame_reply(reply.as_str())),
        SessionEvent::Dealt(None) => SessionStep::ReadOn,
        SessionEvent::EndOfInput => SessionStep::Finished,
        SessionEvent::Failed(error) => SessionStep::Failed(error),
    }
}

/// How a session ended in which `events` happened, in that order; `None` where it has
/// not ended yet.
pub open spec fn session_end(events: Seq<Happened>) -> Option<Result<(), Seq<char>>>
    decreases events.len(),
{
    if events.len() == 0 {
        None
    } else {
        match session_end(events.drop_last()) {
            Some(end) => Some(end),
            None => match session_plan(events.last()) {
                SessionPlan::Finished => Some(Ok(())),
                SessionPlan::Failed(error) => Some(Err(error)),
                _ => None,
            },
        }
    }
}

/// What is written in a session in which `events` happened, in that order.
pub open spec fn session_output(events: Seq<Happened>) -> Seq<char>
    decreases events.len(),
{
    if events.len() == 0 {
        Seq::empty()
    } else {
        let before = session_output(events.drop_last());
        match session_plan(events.last()) {
            SessionPlan::Write(frame) => if session_end(events.drop_last()) is None {
                before + frame
            } else {
                before
            },
            _ => before,
        }
    }
}

/// The replies that there are, each as a line, one after the other.
pub open spec fn transcript(replies: Seq<Option<Seq<char>>>) -> Seq<char>
    decreases replies.len(),
{
    if replies.len() == 0 {
        Seq::empty()
    } else {
        let before = transcript(replies.drop_last());
        match replies.last() {
            Some(reply) => before + framed(reply),
            None => before,
        }
    }
}

/// The replies that there are.
pub open spec fn given(replies: Seq<Option<Seq<char>>>) -> Seq<Seq<char>>
    decreases replies.len(),
{
    if replies.len() == 0 {
        Seq::empty()
    } else {
        let before = given(replies.drop_last());
        match replies.last() {
            Some(reply) => before.push(reply),
            None => before,
        }
    }
}

/// The events of lines that were dealt with.
pub open spec fn dealt(replies: Seq<Option<Seq<char>>>) -> Seq<Happened> {
    replies.map_values(|reply: Option<Seq<char>>| Happened::Dealt(reply))
}

/// The replies to the lines `lines` where they are answered in this process, and the
/// service says `outcomes`, each to what the line of the same index asks of it.
pub open spec fn local_replies(
    lines: Seq<Seq<char>>,
    outcomes: Seq<ServiceOutcome>,
    version: Seq<char>,
) -> Seq<Option<Seq<char>>> {
    Seq::new(
        lines.len(),
        |i: int| rpc::final_reply(local_plan(lines[i], version), outcomes[i]),
    )
}

/// The replies to the lines `lines` where they are handed on to the daemon at
/// `mcp_addr`, and it sends `bodies`, each to the line of the same index.
pub open spec fn proxy_replies(
    mcp_addr: Seq<char>,
    lines: Seq<Seq<char>>,
    bodies: Seq<Option<Seq<char>>>,
    skill_md: Seq<char>,
) -> Seq<Option<Seq<char>>> {
    Seq::new(
        lines.len(),
        |i: int| proxy::final_reply(forward_plan(mcp_addr, lines[i], skill_md), bodies[i]),
    )
}

proof fn lemma_dealt(replies: Seq<Option<Seq<char>>>)
    ensures
        session_output(dealt(replies)) == transcript(replies),
        session_end(dealt(replies)) is None,
    decreases replies.len(),
{
    if replies.len() > 0 {
        lemma_dealt(replies.drop_last());
        assert(dealt(replies).drop_last() =~= dealt(replies.drop_last()));
    }
}

/// A session whose lines were dealt with goes on until the input is over or something
/// fails. It ends well in the first case and with the error in the second. In either
/// case it has written the replies there are, in order, and nothing else.
pub proof fn law_session_writes_replies_in_order(replies: Seq<Option<Seq<char>>>, end: Happened)
    requires
        end !is Dealt,
    ensures
        session_end(dealt(replies)) is None,
        session_output(dealt(replies).push(end)) == transcript(replies),
        session_end(dealt(replies).push(end)) == match end {
            Happened::Failed(error) => Some(Err::<(), Seq<char>>(error)),
            _ => Some(Ok(())),
        },
{
    lemma_dealt(replies);
    assert(dealt(replies).push(end).drop_last() =~= dealt(replies));
}

/// Once a session has ended, nothing is written any more and its end stays the same.
pub proof fn law_session_end_is_final(events: Seq<Happened>, event: Happened)
    requires
        session_end(events) is Some,
    ensures
        session_output(events.push(event)) == session_output(events),
        session_end(events.push(event)) == session_end(events),
{
    assert(events.push(event).drop_last() =~= events);
}

/// A session in this process, whose input ends without a failure, ends well. It has
/// written, for each line that gets a reply and in the order of the lines, that reply
/// and a line feed.
pub proof fn law_local_session(
    lines: Seq<Seq<char>>,
    outcomes: Seq<ServiceOutcome>,
    version: Seq<char>,
)
    requires
        outcomes.len() == lines.len(),
    ensures
        ({
            let replies = local_replies(lines, outcomes, version);
            let events = dealt(replies).push(Happened::EndOfInput);
            &&& session_end(events) == Some(Ok::<(), Seq<char>>(()))
            &&& session_output(events) == transcript(replies)
            &&& forall|i: int|
                0 <= i < lines.len() && text::trimmed(lines[i]).len() == 0
                    ==> #[trigger] replies[i] is None
        }),
{
    law_session_writes_replies_in_order(
        local_replies(lines, outcomes, version),
        Happened::EndOfInput,
    );
}

/// A session through a daemon, whose input ends without a failure, ends well. It has
/// written, for each line that gets a reply and in the order of the lines, that reply
/// and a line feed. A blank line is not forwarded and writes nothing, and a line whose
/// forwarding fails writes nothing and leaves the others as they are.
pub proof fn law_proxy_session(
    mcp_addr: Seq<char>,
    lines: Seq<Seq<char>>,
    bodies: Seq<Option<Seq<char>>>,
    skill_md: Seq<char>,
)
    requires
        bodies.len() == lines.len(),
    ensures
        ({
            let replies = proxy_replies(mcp_addr, lines, bodies, skill_md);
            let events = dealt(replies).push(Happened::EndOfInput);
            &&& session_end(events) == Some(Ok::<(), Seq<char>>(()))
            &&& session_output(events) == transcript(replies)
            &&& forall|i: int|
                0 <= i < lines.len() && text::trimmed(lines[i]).len() == 0
                    ==> #[trigger] replies[i] is None && forward_plan(mcp_addr, lines[i], skill_md)
                    !is Forward
            &&& forall|i: int|
                0 <= i < lines.len() && bodies[i] is None && forward_plan(
                    mcp_addr,
                    lines[i],
                    skill_md,
                ) is Forward ==> #[trigger] replies[i] is None
        }),
{
    law_session_writes_replies_in_order(
        proxy_replies(mcp_addr, lines, bodies, skill_md),
        Happened::EndOfInput,
    );
}

/// What is written for two runs of lines is what is written for the first and then
/// what is written for the second.
pub proof fn law_transcript_goes_on(
    first: Seq<Option<Seq<char>>>,
    second: Seq<Option<Seq<char>>>,
)
    ensures
        transcript(first + second) == transcript(first) + transcript(second),
    decreases second.len(),
{
    if second.len() == 0 {
        assert(first + second =~= first);
        assert(transcript(first) + transcript(second) =~= transcript(first));
    } else {
        law_transcript_goes_on(first, second.drop_last());
        assert((first + second).drop_last() =~= first + second.drop_last());
        assert(transcript(first + second) =~= transcript(first) + transcript(second));
    }
}

/// A client that reads line by line gets the replies there are, in order, one to a
/// line, where none of them holds a line feed.
pub proof fn law_transcript_is_read_back(replies: Seq<Option<Seq<char>>>)
    requires
        forall|i: int|
            0 <= i < replies.len() ==> ((#[trigger] replies[i]) matches Some(reply)
                ==> !reply.contains('\n')),
    ensures
        text::lines(transcript(replies)) == given(replies).push(Seq::empty()),
    decreases replies.len(),
{
    let nothing = Seq::<char>::empty();
    if replies.len() == 0 {
        assert(text::lines(nothing) =~= given(replies).push(nothing));
    } else {
        let shorter = replies.drop_last();
        assert forall|i: int| 0 <= i < shorter.len() implies ((#[trigger] shorter[i]) matches Some(
            reply,
        ) ==> !reply.contains('\n')) by {
            assert(shorter[i] == replies[i]);
        }
        law_transcript_is_read_back(shorter);
        if let Some(reply) = replies.last() {
            assert(replies[replies.len() - 1] == Some(reply));
            let before = transcript(shorter);
            text::lemma_last_line_goes_on(before, reply);
            assert(given(shorter).push(nothing).drop_last() =~= given(shorter));
            assert(nothing + reply =~= reply);
            text::lemma_lines_after_feed(before + reply, nothing);
            assert((before + reply).push('\n') + nothing =~= before + framed(reply));
        }
    }
}

/// A daemon is launched by `nohup` on Unix and by `cmd` on Windows, with these flags, and not
/// at all elsewhere.
pub proof fn law_launcher_of_each_system()
    ensures
        launcher(Platform::Unix) matches Some((program, flags)) && program == "nohup"@
            && flags.len() == 0,
        launcher(Platform::Windows) matches Some((program, flags)) && program == "cmd"@
            && flags.len() == 3 && flags[0] == "/C"@ && flags[1] == "start"@ && flags[2] == "/B"@,
        launcher(Platform::Other) is None,
{
}

/// A question that finds no daemon is followed by a pause of 200 milliseconds and keeps the
/// number of questions left. One that finds it ends the wait. Each question takes one of those
/// left, and without any the wait is given up.
pub proof fn law_questions_and_pauses_alternate(left: u32)
    ensures
        wait_after_probe(left, false) == (WaitStep::Pause { millis: 200, left }),
        wait_after_probe(left, true) is Up,
        wait_start(0) is GaveUp,
        left > 0 ==> wait_start(left) == (WaitStep::Probe { left: (left - 1) as u32 }),
        WAIT_ATTEMPTS == 50,
        HEALTH_TIMEOUT_MILLIS == 500,
{
}

/// A daemon that runs, or that came up, is used. One that does not run is launched, and where
/// it does not come up, requests are answered in this process.
pub proof fn law_daemon_is_used_where_there_is_one()
    ensures
        first_next(true) is ServeProxy,
        first_next(false) is LaunchDaemon,
        waited_next(true) is ServeProxy,
        waited_next(false) is ServeLocal,
{
}

/// A line leads, in either mode, to what the request on it leads to, and a line without a
/// request, or a blank one, to nothing.
pub proof fn law_line_leads_to_what_its_request_does(
    line: Seq<char>,
    version: Seq<char>,
    mcp_addr: Seq<char>,
    skill_md: Seq<char>,
)
    ensures
        ({
            let request = text::trimmed(line);
            let content = json::json_parse(request);
            &&& request.len() > 0 && content is Some ==> local_plan(line, version) == rpc::plan(
                content->Some_0,
                version,
            ) && forward_plan(mcp_addr, line, skill_md) == proxy::proxy_plan(
                content->Some_0,
                mcp_addr,
                request,
                skill_md,
            )
            &&& request.len() == 0 || content is None ==> local_plan(line, version) is Silent
                && forward_plan(mcp_addr, line, skill_md) is Silent
        }),
{
}

/// A tool call on a line is forwarded to a running daemon as it was written, but for the white
/// space around it, and so is every other request but that for a resource.
pub proof fn law_request_line_is_forwarded(
    mcp_addr: Seq<char>,
    line: Seq<char>,
    skill_md: Seq<char>,
    members: Map<Seq<char>, Json>,
    method: Seq<char>,
)
    requires
        text::trimmed(line).len() > 0,
        json::json_parse(text::trimmed(line)) == Some(Json::Obj(members)),
        members.contains_key("method"@),
        members["method"@] == Json::Str(method),
        method != "resources/read"@,
    ensures
        forward_plan(mcp_addr, line, skill_md) == (ProxyPlan::Forward {
            url: "http://"@ + mcp_addr + "/"@,
            body: text::trimmed(line),
        }),
{
    proxy::law_every_other_request_is_forwarded(
        Json::Obj(members),
        mcp_addr,
        text::trimmed(line),
        skill_md,
    );
}

/// A frame is the reply, all of it and unchanged, and then one line feed.
pub proof fn law_frame_is_the_reply_and_a_line_feed(reply: Seq<char>)
    ensures
        framed(reply).len() == reply.len() + 1,
        framed(reply).last() == '\n',
        forall|i: int| 0 <= i < reply.len() ==> #[trigger] framed(reply)[i] == reply[i],
{
}

/// Each event leads to one thing: a reply to its being written as a frame, no reply to the
/// next line, the end of input to the end, and a failure to the end with its error.
pub proof fn law_event_leads_to_one_thing(reply: Seq<char>, error: Seq<char>)
    ensures
        session_plan(Happened::Dealt(Some(reply))) == SessionPlan::Write(reply + seq!['\n']),
        session_plan(Happened::Dealt(None)) is ReadOn,
        session_plan(Happened::EndOfInput) is Finished,
        session_plan(Happened::Failed(error)) == SessionPlan::Failed(error),
{
    assert(framed(reply) =~= reply + seq!['\n']);
}

/// Events and what follows them stand for what they hold.
pub proof fn law_session_values_stand_for_what_they_hold(event: SessionEvent, step: SessionStep)
    ensures
        match event {
            SessionEvent::Dealt(Some(reply)) => event@ == Happened::Dealt(Some(reply@)),
            SessionEvent::Dealt(None) => event@ == Happened::Dealt(None),
            SessionEvent::EndOfInput => event@ is EndOfInput,
            SessionEvent::Failed(error) => event@ == Happened::Failed(error@),
        },
        match step {
            SessionStep::ReadOn => step@ is ReadOn,
            SessionStep::Write(frame) => step@ == SessionPlan::Write(frame@),
            SessionStep::Finished => step@ is Finished,
            SessionStep::Failed(error) => step@ == SessionPlan::Failed(error@),
        },
{
}

/// A reply writes itself and a line feed, and no reply writes nothing.
pub proof fn law_one_line_writes_one_reply(reply: Seq<char>)
    ensures
        transcript(seq![Some(reply)]) == reply + seq!['\n'],
        transcript(seq![None]).len() == 0,
        transcript(Seq::empty()).len() == 0,
{
    let one = seq![Some(reply)];
    assert(one.drop_last() =~= Seq::empty());
    assert(seq![None::<Seq<char>>].drop_last() =~= Seq::empty());
    reveal_with_fuel(transcript, 2);
    assert(transcript(one) =~= reply + seq!['\n']);
}

/// The replies that are given are those that there are, each once and in order.
pub proof fn law_given_replies_are_those_there_are(
    first: Seq<Option<Seq<char>>>,
    second: Seq<Option<Seq<char>>>,
    reply: Seq<char>,
)
    ensures
        given(Seq::empty()).len() == 0,
        given(seq![Some(reply)]) == seq![reply],
        given(seq![None]).len() == 0,
        given(first + second) == given(first) + given(second),
    decreases second.len(),
{
    assert(seq![Some(reply)].drop_last() =~= Seq::empty());
    assert(seq![None::<Seq<char>>].drop_last() =~= Seq::empty());
    reveal_with_fuel(given, 2);
    assert(given(seq![Some(reply)]) =~= seq![reply]);
    if second.len() == 0 {
        assert(first + second =~= first);
        assert(given(first) + given(second) =~= given(first));
    } else {
        law_given_replies_are_those_there_are(first, second.drop_last(), reply);
        assert((first + second).drop_last() =~= first + second.drop_last());
        assert(given(first + second) =~= given(first) + given(second));
    }
}

/// In a session, each line is dealt with by itself: its reply is what the line and what was
/// said to it lead to, whatever the other lines are.
pub proof fn law_lines_are_dealt_with_one_by_one(
    lines: Seq<Seq<char>>,
    outcomes: Seq<ServiceOutcome>,
    bodies: Seq<Option<Seq<char>>>,
    version: Seq<char>,
    mcp_addr: Seq<char>,
    skill_md: Seq<char>,
    i: int,
)
    requires
        0 <= i < lines.len(),
        outcomes.len() == lines.len(),
        bodies.len() == lines.len(),
    ensures
        local_replies(lines, outcomes, version).len() == lines.len(),
        local_replies(lines, outcomes, version)[i] == rpc::final_reply(
            local_plan(lines[i], version),
            outcomes[i],
        ),
        proxy_replies(mcp_addr, lines, bodies, skill_md).len() == lines.len(),
        proxy_replies(mcp_addr, lines, bodies, skill_md)[i] == proxy::final_reply(
            forward_plan(mcp_addr, lines[i], skill_md),
            bodies[i],
        ),
        dealt(bodies).len() == bodies.len(),
        dealt(bodies)[i] == Happened::Dealt(bodies[i]),
{
}

} // verus!
