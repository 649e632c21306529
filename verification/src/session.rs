//! The decisions of a session: which tools to call, what a reply means,
//! what a line typed in interactive mode asks for, and the exit code.
use vstd::prelude::*;
use crate::rig::{
    help_tool_name, query_tool_name, read_only_tools, status_tool_names, str_views, Rig,
};
use crate::text::{
    begins_with, chars_eq, chars_of, starts_with_after_space, string_of, trim, trim_chars,
};

verus! {

/// The marker with which the rig tools begin a reply that reports a failure.
pub const FAILURE_MARKER: char = '\u{274c}';

/// The marker with which the local query tool begins a reply that holds
/// reasoning and no answer yet.
pub const REASONING_MARKER: char = '\u{1f4e1}';

/// The prompt asked when none is given.
pub const DEFAULT_PROMPT: &'static str = "In one sentence, what is a TPU?";

/// What the run does after the status tools.
#[derive(Clone, Copy, Debug, PartialEq, Eq, Structural)]
pub enum Mode {
    /// Only the rig's help tool.
    RigHelp,
    /// Only the status tools.
    Status,
    /// Read prompts until `/quit`.
    Interactive,
    /// Ask one question.
    Ask,
}

/// What a query tool's reply amounts to.
#[derive(Clone, Copy, Debug, PartialEq, Eq, Structural)]
pub enum Answer {
    /// The model answered.
    Answered,
    /// The model ran out of tokens while still reasoning.
    StillReasoning,
    /// The tool failed.
    Failed,
}

/// What a line typed in interactive mode asks for.
#[derive(Debug)]
pub enum Command {
    /// A blank line: nothing.
    Skip,
    /// `/quit` or `/exit`.
    Quit,
    /// `/help`.
    Help,
    /// `/status`: run the status tools again.
    Status,
    /// `/rig-help`: call the rig's help tool.
    RigHelp,
    /// Another line that begins with `/`.
    Unknown(String),
    /// A prompt for the query tool.
    Ask(String),
}

/// The status tools a run calls: none with `--no-status` or `--rig-help`.
pub open spec fn planned_status(rig: Rig, no_status: bool, rig_help: bool) -> Seq<Seq<char>> {
    if no_status || rig_help {
        seq![]
    } else {
        status_tool_names(rig)
    }
}

/// The tools a run calls before any interactive command: the status tools,
/// then the help tool with `--rig-help`, or else the query tool unless
/// `--status`.
pub open spec fn planned_calls(rig: Rig, no_status: bool, rig_help: bool, status: bool) -> Seq<Seq<char>> {
    let s = planned_status(rig, no_status, rig_help);
    if rig_help {
        s.push(help_tool_name(rig))
    } else if !status {
        s.push(query_tool_name(rig))
    } else {
        s
    }
}

/// The message for a tool that the plan calls and the server does not offer.
pub open spec fn not_offered_text(name: Seq<char>) -> Seq<char> {
    "the server does not offer the `"@ + name + "` tool"@
}

/// The mode a run ends in.
pub open spec fn mode_of(rig_help: bool, status: bool, interactive: bool) -> Mode {
    if rig_help {
        Mode::RigHelp
    } else if status {
        Mode::Status
    } else if interactive {
        Mode::Interactive
    } else {
        Mode::Ask
    }
}

/// The status tools this run calls.
pub fn plan_status_tools(rig: Rig, no_status: bool, rig_help: bool) -> (r: &'static [&'static str])
    ensures
        str_views(r@) == planned_status(rig, no_status, rig_help),
{
    if no_status || rig_help {
        let r: &'static [&'static str] = &[];
        assert(str_views(r@) =~= seq![]);
        r
    } else {
        rig.status_tools()
    }
}

/// The tools this run calls before any interactive command.
pub fn plan_calls(rig: Rig, no_status: bool, rig_help: bool, status: bool) -> (r: Vec<&'static str>)
    ensures
        str_views(r@) == planned_calls(rig, no_status, rig_help, status),
{
    let mut r = vstd::slice::slice_to_vec(plan_status_tools(rig, no_status, rig_help));
    let ghost before = r@;
    if rig_help {
        r.push(rig.help_tool());
        assert(str_views(r@) =~= str_views(before).push(help_tool_name(rig)));
    } else if !status {
        r.push(rig.query_tool());
        assert(str_views(r@) =~= str_views(before).push(query_tool_name(rig)));
    }
    r
}

/// Whether the server offers a tool named `name`.
pub open spec fn offers(offered: Seq<String>, name: Seq<char>) -> bool {
    exists|j: int| 0 <= j < offered.len() && #[trigger] offered[j]@ == name
}

/// Whether `names` holds `name`.
pub fn contains_name(names: &Vec<String>, name: &str) -> (r: bool)
    ensures
        r == offers(names@, name@),
{
    let target = chars_of(name);
    let mut i: usize = 0;
    while i < names.len()
        invariant
            i <= names.len(),
            target@ == name@,
            forall|j: int| 0 <= j < i ==> #[trigger] names@[j]@ != name@,
        decreases names.len() - i,
    {
        let candidate = chars_of(names[i].as_str());
        if chars_eq(&candidate, &target) {
            return true;
        }
        i = i + 1;
    }
    false
}

/// Whether the plan calls the tool `name` (it is marked in the tool list).
pub fn is_called(calls: &Vec<&str>, name: &str) -> (r: bool)
    ensures
        r == str_views(calls@).contains(name@),
{
    let target = chars_of(name);
    let mut i: usize = 0;
    while i < calls.len()
        invariant
            i <= calls.len(),
            target@ == name@,
            forall|j: int| 0 <= j < i ==> #[trigger] calls@[j]@ != name@,
        decreases calls.len() - i,
    {
        let candidate = chars_of(calls[i]);
        if chars_eq(&candidate, &target) {
            assert(str_views(calls@)[i as int] == name@);
            return true;
        }
        i = i + 1;
    }
    assert forall|j: int| 0 <= j < str_views(calls@).len() implies str_views(calls@)[j] != name@ by {
        assert(calls@[j]@ != name@);
    }
    false
}

/// `Ok` when the server offers every tool in `calls`; otherwise the message
/// for the first one it lacks.
pub fn check_offered(calls: &Vec<&str>, offered: &Vec<String>) -> (r: Result<(), String>)
    ensures
        r is Ok <==> forall|i: int| 0 <= i < calls@.len() ==> offers(offered@, #[trigger] calls@[i]@),
        r matches Err(m) ==> exists|i: int| 0 <= i < calls@.len()
            && m@ == not_offered_text(#[trigger] calls@[i]@)
            && !offers(offered@, calls@[i]@)
            && forall|k: int| 0 <= k < i ==> offers(offered@, #[trigger] calls@[k]@),
{
    let mut i: usize = 0;
    while i < calls.len()
        invariant
            i <= calls.len(),
            forall|k: int| 0 <= k < i ==> offers(offered@, #[trigger] calls@[k]@),
        decreases calls.len() - i,
    {
        if !contains_name(offered, calls[i]) {
            let mut m = chars_of("the server does not offer the `");
            let name = chars_of(calls[i]);
            crate::text::append_chars(&mut m, &name);
            let tail = chars_of("` tool");
            crate::text::append_chars(&mut m, &tail);
            let r = string_of(&m);
            assert(r@ == not_offered_text(calls@[i as int]@));
            return Err(r);
        }
        i = i + 1;
    }
    Ok(())
}

/// The mode this run ends in.
pub fn mode(rig_help: bool, status: bool, interactive: bool) -> (r: Mode)
    ensures
        r == mode_of(rig_help, status, interactive),
{
    if rig_help {
        Mode::RigHelp
    } else if status {
        Mode::Status
    } else if interactive {
        Mode::Interactive
    } else {
        Mode::Ask
    }
}

/// The process exit code: 0 when the run got what it asked for, 2 when the
/// query failed or gave no answer (or, with `--status` or `--rig-help`, a
/// tool reported a failure).
pub fn exit_code(answered: bool) -> (r: u8)
    ensures
        r == (if answered { 0u8 } else { 2u8 }),
{
    if answered { 0 } else { 2 }
}

/// What the text a query tool handed back amounts to: a failure when there
/// is none; reasoning and no answer when it begins with the reasoning marker.
pub open spec fn answer_of(reply: Option<Seq<char>>) -> Answer {
    match reply {
        None => Answer::Failed,
        Some(t) => if starts_with_after_space(t, REASONING_MARKER) {
            Answer::StillReasoning
        } else {
            Answer::Answered
        },
    }
}

/// What a query tool's reply amounts to.
pub fn classify_answer(reply: &Option<String>) -> (r: Answer)
    ensures
        r == answer_of(match reply {
            Some(t) => Some(t@),
            None => None,
        }),
{
    match reply {
        None => Answer::Failed,
        Some(t) => {
            let v = chars_of(t.as_str());
            if begins_with(&v, REASONING_MARKER) {
                Answer::StillReasoning
            } else {
                Answer::Answered
            }
        },
    }
}

/// The prompt to ask: the one given, or the default.
pub fn prompt_or_default(prompt: &Option<String>) -> (r: String)
    ensures
        r@ == (match prompt {
            Some(p) => p@,
            None => DEFAULT_PROMPT@,
        }),
{
    match prompt {
        Some(p) => p.clone(),
        None => DEFAULT_PROMPT.to_owned(),
    }
}

/// Whether a trimmed line is one of the interactive commands.
pub open spec fn is_known_command(p: Seq<char>) -> bool {
    ||| p == "/quit"@
    ||| p == "/exit"@
    ||| p == "/help"@
    ||| p == "/status"@
    ||| p == "/rig-help"@
}

/// What the trimmed line `p` asks for.
pub open spec fn command_matches(p: Seq<char>, c: Command) -> bool {
    match c {
        Command::Skip => p.len() == 0,
        Command::Quit => p == "/quit"@ || p == "/exit"@,
        Command::Help => p == "/help"@,
        Command::Status => p == "/status"@,
        Command::RigHelp => p == "/rig-help"@,
        Command::Unknown(s) => s@ == p && p.len() > 0 && p[0] == '/' && !is_known_command(p),
        Command::Ask(s) => s@ == p && p.len() > 0 && p[0] != '/',
    }
}

fn is_literal(p: &Vec<char>, lit: &str) -> (r: bool)
    ensures
        r == (p@ == lit@),
{
    let l = chars_of(lit);
    chars_eq(p, &l)
}

/// What a line typed in interactive mode asks for, read after trimming it.
pub fn parse_command(line: &str) -> (r: Command)
    ensures
        command_matches(trim(line@), r),
{
    let v = chars_of(line);
    let p = trim_chars(&v);
    if p.len() == 0 {
        Command::Skip
    } else if is_literal(&p, "/quit") || is_literal(&p, "/exit") {
        Command::Quit
    } else if is_literal(&p, "/help") {
        Command::Help
    } else if is_literal(&p, "/status") {
        Command::Status
    } else if is_literal(&p, "/rig-help") {
        Command::RigHelp
    } else if p[0] == '/' {
        Command::Unknown(string_of(&p))
    } else {
        Command::Ask(string_of(&p))
    }
}

/// Every tool a run calls is one of the rig's read-only tools.
pub proof fn planned_calls_are_read_only(rig: Rig, no_status: bool, rig_help: bool, status: bool)
    ensures
        forall|i: int| 0 <= i < planned_calls(rig, no_status, rig_help, status).len()
            ==> read_only_tools(rig).contains(#[trigger] planned_calls(rig, no_status, rig_help, status)[i]),
{
    let p = planned_calls(rig, no_status, rig_help, status);
    let ro = read_only_tools(rig);
    assert forall|i: int| 0 <= i < p.len() implies ro.contains(#[trigger] p[i]) by {
        let n = status_tool_names(rig).len();
        if i < planned_status(rig, no_status, rig_help).len() {
            assert(ro[i] == p[i]);
        } else if rig_help {
            assert(ro[n as int] == p[i]);
        } else {
            assert(ro[(n + 1) as int] == p[i]);
        }
    }
}

} // verus!

verus! {

/// The help line of interactive mode.
pub const INTERACTIVE_HELP: &'static str = "Commands: /status re-runs the status tools, /rig-help asks the server for its own help, /help, /quit (or Ctrl-D).";

/// What is printed when the model stopped while still reasoning.
pub const STILL_REASONING_NOTE: &'static str = "  No answer: the model was still reasoning when it stopped. Raise --max-tokens.";

/// The reply to an unknown command.
pub open spec fn unknown_command_text(p: Seq<char>) -> Seq<char> {
    "  Unknown command "@ + p + ". "@ + INTERACTIVE_HELP@
}

/// The reply to an unknown command `p`.
pub fn unknown_command_line(p: &str) -> (r: String)
    ensures
        r@ == unknown_command_text(p@),
{
    let mut v = chars_of("  Unknown command ");
    let pc = chars_of(p);
    crate::text::append_chars(&mut v, &pc);
    let mid = chars_of(". ");
    crate::text::append_chars(&mut v, &mid);
    let help = chars_of(INTERACTIVE_HELP);
    crate::text::append_chars(&mut v, &help);
    string_of(&v)
}

/// The line that opens interactive mode: each prompt is one call of the
/// query tool, which sees no earlier turn.
pub open spec fn interactive_intro_text(rig: Rig) -> Seq<char> {
    "  Each prompt is one `"@ + query_tool_name(rig)
        + "` call. The tool takes a single prompt, so the model does not see earlier turns."@
}

/// The line that opens interactive mode.
pub fn interactive_intro(rig: Rig) -> (r: String)
    ensures
        r@ == interactive_intro_text(rig),
{
    let mut v = chars_of("  Each prompt is one `");
    let t = chars_of(rig.query_tool());
    crate::text::append_chars(&mut v, &t);
    let tail = chars_of("` call. The tool takes a single prompt, so the model does not see earlier turns.");
    crate::text::append_chars(&mut v, &tail);
    string_of(&v)
}

/// The command that launches the rig's server.
pub open spec fn server_command_text(python: Seq<char>) -> Seq<char> {
    python + " server.py"@
}

/// The command that launches the rig's server with `python`.
pub fn server_command(python: &str) -> (r: String)
    ensures
        r@ == server_command_text(python@),
{
    let mut v = chars_of(python);
    let tail = chars_of(" server.py");
    crate::text::append_chars(&mut v, &tail);
    string_of(&v)
}

} // verus!

verus! {

/// Whether a run got what it asked for: the help tool's reply with
/// `--rig-help`, every status tool's with `--status`, the query's answer
/// when asking one question; an interactive session always counts.
pub open spec fn run_answered(mode: Mode, status_ok: bool, final_ok: bool) -> bool {
    match mode {
        Mode::RigHelp => final_ok,
        Mode::Status => status_ok,
        Mode::Interactive => true,
        Mode::Ask => final_ok,
    }
}

/// Whether the run got what it asked for, given whether every status tool
/// succeeded and whether the final call (help or query) did.
pub fn answered(mode: Mode, status_ok: bool, final_ok: bool) -> (r: bool)
    ensures
        r == run_answered(mode, status_ok, final_ok),
{
    match mode {
        Mode::RigHelp => final_ok,
        Mode::Status => status_ok,
        Mode::Interactive => true,
        Mode::Ask => final_ok,
    }
}

/// An interactive session ends with exit code 0, whatever its turns did.
pub proof fn interactive_sessions_exit_zero(rig_help: bool, status: bool, status_ok: bool, final_ok: bool)
    requires
        mode_of(rig_help, status, true) == Mode::Interactive,
    ensures
        run_answered(mode_of(rig_help, status, true), status_ok, final_ok),
{
}


/// A typed line, once trimmed, is a prompt for the query tool exactly when
/// it is not empty and its first character is not `/`, whatever follows;
/// only a first `/` makes it a command, and a blank line is skipped.
pub proof fn prompts_are_lines_not_starting_with_slash(line: Seq<char>, c: Command)
    requires
        command_matches(trim(line), c),
    ensures
        ({
            let p = trim(line);
            &&& (p.len() > 0 && p[0] != '/') ==> (c matches Command::Ask(s) && s@ == p)
            &&& (c is Ask) ==> (p.len() > 0 && p[0] != '/')
            &&& (c is Unknown || c is Quit || c is Help || c is Status || c is RigHelp) ==> (p.len() > 0 && p[0] == '/')
            &&& (c is Skip) <==> p.len() == 0
        }),
{
    let p = trim(line);
    reveal_strlit("/quit");
    reveal_strlit("/exit");
    reveal_strlit("/help");
    reveal_strlit("/status");
    reveal_strlit("/rig-help");
    if p.len() > 0 && p[0] != '/' {
        assert(p != "/quit"@ && p != "/exit"@ && p != "/help"@ && p != "/status"@ && p != "/rig-help"@) by {
            assert("/quit"@[0] == '/');
            assert("/exit"@[0] == '/');
            assert("/help"@[0] == '/');
            assert("/status"@[0] == '/');
            assert("/rig-help"@[0] == '/');
        }
    }
    if c is Quit || c is Help || c is Status || c is RigHelp {
        assert("/quit"@[0] == '/');
        assert("/exit"@[0] == '/');
        assert("/help"@[0] == '/');
        assert("/status"@[0] == '/');
        assert("/rig-help"@[0] == '/');
    }
}

/// `--no-status` (or `--rig-help`) runs no status tool on any rig; without
/// either, a run calls all three of the rig's status tools. With
/// `--no-status` alone the plan is the query tool and nothing else.
pub proof fn no_status_skips_status_tools(rig: Rig, no_status: bool, rig_help: bool, status: bool)
    ensures
        no_status ==> planned_status(rig, no_status, rig_help).len() == 0,
        rig_help ==> planned_status(rig, no_status, rig_help).len() == 0,
        !no_status && !rig_help ==> planned_status(rig, no_status, rig_help) == status_tool_names(rig)
            && planned_status(rig, no_status, rig_help).len() == 3,
        no_status && !rig_help && !status ==> planned_calls(rig, no_status, rig_help, status) == seq![query_tool_name(rig)],
        rig_help ==> planned_calls(rig, no_status, rig_help, status) == seq![help_tool_name(rig)],
        planned_calls(rig, no_status, rig_help, status).len() == planned_status(rig, no_status, rig_help).len()
            + (if rig_help || !status { 1int } else { 0int }),
{
    if no_status || rig_help {
        assert(seq![].push(query_tool_name(rig)) =~= seq![query_tool_name(rig)]);
        assert(seq![].push(help_tool_name(rig)) =~= seq![help_tool_name(rig)]);
    }
}

/// What the run's exit code depends on: a question run counts as answered
/// exactly when its query answered, whatever the status tools did; a
/// `--status` run exactly when every status tool succeeded; a `--rig-help`
/// run exactly when the help tool did; an interactive run always.
pub proof fn answered_depends_on_the_mode(status_ok: bool, final_ok: bool)
    ensures
        run_answered(mode_of(false, false, false), status_ok, final_ok) == final_ok,
        run_answered(Mode::Ask, status_ok, final_ok) == final_ok,
        run_answered(Mode::Ask, true, final_ok) == run_answered(Mode::Ask, false, final_ok),
        run_answered(Mode::Status, status_ok, final_ok) == status_ok,
        run_answered(Mode::Status, status_ok, true) == run_answered(Mode::Status, status_ok, false),
        run_answered(Mode::RigHelp, status_ok, final_ok) == final_ok,
        run_answered(Mode::Interactive, status_ok, final_ok),
        forall|rig_help: bool, interactive: bool| mode_of(rig_help, true, interactive) == Mode::Status || rig_help,
{
}

} // verus!
