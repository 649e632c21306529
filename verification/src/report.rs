//! What the client prints about the server, its tools, each tool call and
//! the server's log, built from plain values that the transport hands over.
use vstd::prelude::*;
use crate::display::{
    field, field_text, first_line, first_line_of, indent, indented, ms, ms_text, section,
    section_text, truncate, truncated,
};
use crate::session::{answer_of, Answer, FAILURE_MARKER};
use crate::text::{
    append_chars, begins_with, chars_of, decimal, decimal_chars, join, join_chars, pad_right,
    pad_right_chars, repeat_chars, starts_with_after_space, string_chars, string_of, trim,
    trim_chars, trim_end, trim_end_chars, views,
};

verus! {

/// One block of a tool's result content.
#[derive(Debug)]
pub enum ContentBlock {
    /// A text block.
    Text(String),
    /// Another kind of block, with the `type` it serializes with, if any.
    Other(Option<String>),
}

/// A tool result's structured content: the string under its `"result"` key,
/// if there is one, and the whole of it rendered as JSON.
#[derive(Debug)]
pub struct Structured {
    pub result_text: Option<String>,
    pub rendered: String,
}

/// What a tool call returned.
#[derive(Debug)]
pub struct ToolReply {
    pub is_error: Option<bool>,
    pub content: Vec<ContentBlock>,
    pub structured: Option<Structured>,
}

/// The lines printed for a finished tool call, and the result text when the
/// tool succeeded.
#[derive(Debug)]
pub struct CallReport {
    pub lines: Vec<String>,
    pub text: Option<String>,
}

/// A tool the server lists.
#[derive(Debug)]
pub struct ToolInfo {
    pub name: String,
    pub description: Option<String>,
}

/// A value serialized to JSON: a string, another value in its JSON text, or
/// one that did not serialize.
#[derive(Debug)]
pub enum PlainValue {
    Text(String),
    Other(String),
    Unserializable,
}

/// The width to which a tool's description is shortened in the tool list.
pub const DESCRIPTION_WIDTH: usize = 60;

/// The views of a sequence of strings.
pub open spec fn string_views(v: Seq<String>) -> Seq<Seq<char>> {
    v.map_values(|s: String| s@)
}

/// The text of one content block: its text, or `[<kind> content]`.
pub open spec fn block_text(b: ContentBlock) -> Seq<char> {
    match b {
        ContentBlock::Text(t) => t@,
        ContentBlock::Other(kind) => "["@ + (match kind {
            Some(k) => k@,
            None => "non-text"@,
        }) + " content]"@,
    }
}

/// The text of a tool result: its blocks' texts, one per line.
pub open spec fn reply_text(blocks: Seq<ContentBlock>) -> Seq<char> {
    join(blocks.map_values(|b: ContentBlock| block_text(b)), seq!['\n'])
}

/// `"true"` or `"false"`.
pub open spec fn bool_text(b: bool) -> Seq<char> {
    if b { "true"@ } else { "false"@ }
}

/// Whether a tool reported a failure in its text.
pub open spec fn reports_failure(text: Seq<char>) -> bool {
    starts_with_after_space(text, FAILURE_MARKER)
}

/// The `structuredContent` line: a short note when the structured content
/// only mirrors the text as `{"result": <text>}`, else its JSON.
pub open spec fn structured_lines(s: Option<Structured>, text: Seq<char>) -> Seq<Seq<char>> {
    match s {
        None => seq![],
        Some(st) => seq![field_text("structuredContent"@,
            if st.result_text matches Some(r) && r@ == text {
                "{\"result\": \u{2026}} (same text as the content below)"@
            } else {
                st.rendered@
            })],
    }
}

/// The lines printed once a tool call has returned.
pub open spec fn call_lines(reply: ToolReply, nanos: nat) -> Seq<Seq<char>> {
    let text = reply_text(reply.content@);
    let is_error = reply.is_error == Some(true);
    let note: Seq<Seq<char>> = if reports_failure(text) && !is_error {
        seq![field_text("note"@, "the tool reported a failure in its text; MCP isError is false"@)]
    } else {
        seq![]
    };
    seq![field_text("latency"@, ms_text(nanos)), field_text("isError"@, bool_text(is_error))]
        + note + structured_lines(reply.structured, text)
        + seq!["  result:"@, indented(trim_end(text), 4)]
}

/// The text a tool call hands back: none when MCP flags an error or the
/// text reports a failure.
pub open spec fn call_result(reply: ToolReply) -> Option<Seq<char>> {
    let text = reply_text(reply.content@);
    if reply.is_error != Some(true) && !reports_failure(text) {
        Some(text)
    } else {
        None
    }
}

fn lit(s: &str) -> (r: Vec<char>)
    ensures
        r@ == s@,
{
    chars_of(s)
}

/// The text of a tool result.
pub fn text_of(blocks: &Vec<ContentBlock>) -> (r: String)
    ensures
        r@ == reply_text(blocks@),
{
    let mut parts: Vec<Vec<char>> = Vec::new();
    let mut i: usize = 0;
    while i < blocks.len()
        invariant
            i <= blocks.len(),
            views(parts@) == blocks@.take(i as int).map_values(|b: ContentBlock| block_text(b)),
        decreases blocks.len() - i,
    {
        let part = match &blocks[i] {
            ContentBlock::Text(t) => string_chars(t),
            ContentBlock::Other(kind) => {
                let mut p = lit("[");
                match kind {
                    Some(k) => {
                        let kc = string_chars(k);
                        append_chars(&mut p, &kc);
                    },
                    None => {
                        let kc = lit("non-text");
                        append_chars(&mut p, &kc);
                    },
                }
                let tail = lit(" content]");
                append_chars(&mut p, &tail);
                p
            },
        };
        assert(part@ == block_text(blocks@[i as int]));
        let ghost before = views(parts@);
        parts.push(part);
        assert(views(parts@) =~= before.push(part@));
        assert(blocks@.take(i + 1).map_values(|b: ContentBlock| block_text(b)) =~= blocks@.take(
            i as int,
        ).map_values(|b: ContentBlock| block_text(b)).push(block_text(blocks@[i as int])));
        i = i + 1;
    }
    assert(blocks@.take(blocks.len() as int) == blocks@);
    let nl = repeat_chars('\n', 1);
    assert(nl@ =~= seq!['\n']);
    let joined = join_chars(&parts, &nl);
    string_of(&joined)
}

/// The lines printed before a tool call: its section header and arguments.
pub fn call_header(name: &str, arguments: &str) -> (r: Vec<String>)
    ensures
        string_views(r@) == seq![section_text("tools/call "@ + name@), field_text("arguments"@, arguments@)],
{
    let mut title = lit("tools/call ");
    let n = chars_of(name);
    append_chars(&mut title, &n);
    let title = string_of(&title);
    let mut r: Vec<String> = Vec::new();
    r.push(section(title.as_str()));
    r.push(field("arguments", arguments));
    assert(string_views(r@) =~= seq![section_text("tools/call "@ + name@), field_text("arguments"@, arguments@)]);
    r
}

/// What to print for a finished tool call, and the text it hands back.
pub fn call_report(reply: &ToolReply, latency_nanos: u128) -> (r: CallReport)
    ensures
        string_views(r.lines@) == call_lines(*reply, latency_nanos as nat),
        match r.text {
            Some(t) => call_result(*reply) == Some(t@),
            None => call_result(*reply) is None,
        },
{
    let text = text_of(&reply.content);
    let tv = string_chars(&text);
    let is_error = match reply.is_error {
        Some(b) => b,
        None => false,
    };
    let failure = begins_with(&tv, FAILURE_MARKER);
    let mut lines: Vec<String> = Vec::new();
    let latency = ms(latency_nanos);
    lines.push(field("latency", latency.as_str()));
    lines.push(field("isError", if is_error { "true" } else { "false" }));
    if failure && !is_error {
        lines.push(field("note", "the tool reported a failure in its text; MCP isError is false"));
    }
    let ghost mid = string_views(lines@);
    match &reply.structured {
        Some(s) => {
            let mirrored = match &s.result_text {
                Some(rt) => {
                    let rc = string_chars(rt);
                    crate::text::chars_eq(&rc, &tv)
                },
                None => false,
            };
            if mirrored {
                lines.push(field("structuredContent", "{\"result\": \u{2026}} (same text as the content below)"));
            } else {
                lines.push(field("structuredContent", s.rendered.as_str()));
            }
        },
        None => {},
    }
    assert(string_views(lines@) =~= mid + structured_lines(reply.structured, text@));
    lines.push("  result:".to_owned());
    let trimmed = trim_end_chars(&tv);
    let trimmed = string_of(&trimmed);
    lines.push(indent(trimmed.as_str(), 4));
    assert(string_views(lines@) =~= call_lines(*reply, latency_nanos as nat));
    let out = if !is_error && !failure { Some(text) } else { None };
    CallReport { lines, text: out }
}

} // verus!

verus! {

/// The title of the section that shows the server's log.
pub open spec fn log_title() -> Seq<char> {
    "Server log (stderr)"@
}

/// The lines of `log` from `seen` on, each behind two spaces, or a single
/// `(nothing)` when there are none.
pub open spec fn log_body(log: Seq<Seq<char>>, seen: nat) -> Seq<Seq<char>> {
    let fresh = log.skip(if seen < log.len() { seen as int } else { log.len() as int });
    if fresh.len() == 0 {
        seq!["  (nothing)"@]
    } else {
        fresh.map_values(|l: Seq<char>| "  "@ + l)
    }
}

/// The server log's section: its header, then the body.
pub open spec fn log_lines(log: Seq<Seq<char>>, seen: nat) -> Seq<Seq<char>> {
    seq![section_text(log_title())] + log_body(log, seen)
}

/// What to print of the server's log, given that the first `seen` lines were
/// printed already; and how many lines have been printed after it.
pub fn log_report(log: &Vec<String>, seen: usize) -> (r: (Vec<String>, usize))
    ensures
        string_views(r.0@) == log_lines(string_views(log@), seen as nat),
        r.1 == log.len(),
{
    let mut out: Vec<String> = Vec::new();
    out.push(section("Server log (stderr)"));
    let start = if seen < log.len() { seen } else { log.len() };
    let ghost fresh = string_views(log@).skip(start as int);
    if start == log.len() {
        out.push("  (nothing)".to_owned());
        assert(string_views(out@) =~= log_lines(string_views(log@), seen as nat));
    } else {
        let mut i: usize = start;
        while i < log.len()
            invariant
                start <= i <= log.len(),
                fresh == string_views(log@).skip(start as int),
                string_views(out@) == seq![section_text(log_title())]
                    + fresh.take(i - start).map_values(|l: Seq<char>| "  "@ + l),
            decreases log.len() - i,
        {
            let mut line = lit("  ");
            let lc = string_chars(&log[i]);
            append_chars(&mut line, &lc);
            let ghost before = string_views(out@);
            out.push(string_of(&line));
            assert(fresh[i - start] == log@[i as int]@);
            assert(fresh.take(i + 1 - start) =~= fresh.take(i - start).push(fresh[i - start]));
            assert(string_views(out@) =~= before.push("  "@ + log@[i as int]@));
            i = i + 1;
        }
        assert(fresh.take(log.len() - start) =~= fresh);
    }
    (out, log.len())
}

/// A report of the mark that the previous one returned shows nothing new.
pub proof fn log_report_after_report(log: Seq<Seq<char>>)
    ensures
        log_body(log, log.len()) == seq!["  (nothing)"@],
{
    assert(log.skip(log.len() as int).len() == 0);
}

/// Lines added to the log after a report are the ones the next report shows,
/// each once and in order.
pub proof fn log_report_shows_new_lines(log: Seq<Seq<char>>, more: Seq<Seq<char>>)
    requires
        more.len() > 0,
    ensures
        log_body(log + more, log.len()) == more.map_values(|l: Seq<char>| "  "@ + l),
{
    assert((log + more).skip(log.len() as int) =~= more);
}

/// The number of UTF-8 bytes of `s`, as `str::len` gives it.
pub open spec fn byte_len(s: Seq<char>) -> nat {
    (vstd::utf8::encode_utf8(s).len() as usize) as nat
}

/// The largest byte length among the tools' names, 0 for none.
pub open spec fn name_width_of(tools: Seq<ToolInfo>) -> nat
    decreases tools.len(),
{
    if tools.len() == 0 {
        0
    } else {
        let rest = name_width_of(tools.drop_last());
        let last = byte_len(tools.last().name@);
        if last > rest { last } else { rest }
    }
}

/// The width of the tool-name column: the longest name, in bytes.
pub fn name_width(tools: &Vec<ToolInfo>) -> (r: usize)
    ensures
        r == name_width_of(tools@),
{
    let mut w: usize = 0;
    let mut i: usize = 0;
    while i < tools.len()
        invariant
            i <= tools.len(),
            w == name_width_of(tools@.take(i as int)),
        decreases tools.len() - i,
    {
        let n = tools[i].name.as_str().len();
        assert(tools@.take(i + 1).drop_last() =~= tools@.take(i as int));
        assert(tools@.take(i + 1).last() == tools@[i as int]);
        assert(n == byte_len(tools@[i as int].name@));
        if n > w {
            w = n;
        }
        i = i + 1;
    }
    assert(tools@.take(tools.len() as int) =~= tools@);
    w
}

/// One line of the tool list: a `*` for a tool the run calls, the name
/// padded to the column, and the first line of the description shortened.
pub open spec fn tool_line_text(called: bool, name: Seq<char>, width: nat, description: Option<String>) -> Seq<char> {
    let d = match description {
        Some(d) => first_line_of(d@),
        None => seq![],
    };
    seq![' ', ' '] + (if called { seq!['*'] } else { seq![' '] }) + seq![' '] + pad_right(name, width)
        + seq![' ', ' '] + truncated(d, DESCRIPTION_WIDTH as nat)
}

/// One line of the tool list.
pub fn tool_line(called: bool, name: &str, width: usize, description: &Option<String>) -> (r: String)
    ensures
        r@ == tool_line_text(called, name@, width as nat, *description),
{
    let d = match description {
        Some(d) => first_line(d.as_str()),
        None => "",
    };
    proof {
        reveal_strlit("");
    }
    assert(d@ == match *description {
        Some(d) => first_line_of(d@),
        None => seq![],
    });
    let short = truncate(d, DESCRIPTION_WIDTH);
    let mut r: Vec<char> = Vec::new();
    r.push(' ');
    r.push(' ');
    let mark = if called { '*' } else { ' ' };
    r.push(mark);
    r.push(' ');
    let nc = chars_of(name);
    let padded = pad_right_chars(&nc, width);
    append_chars(&mut r, &padded);
    r.push(' ');
    r.push(' ');
    let sc = string_chars(&short);
    append_chars(&mut r, &sc);
    assert(r@ =~= tool_line_text(called, name@, width as nat, *description));
    string_of(&r)
}

/// The `tools/list` line: how many tools, and how long listing them took.
pub open spec fn tools_summary_text(count: nat, nanos: nat) -> Seq<char> {
    field_text("tools/list"@, decimal(count) + " tools in "@ + ms_text(nanos))
}

/// The `tools/list` line.
pub fn tools_summary(count: usize, nanos: u128) -> (r: String)
    ensures
        r@ == tools_summary_text(count as nat, nanos as nat),
{
    let mut v = decimal_chars(count as u128);
    let mid = lit(" tools in ");
    append_chars(&mut v, &mid);
    let m = ms(nanos);
    let mc = string_chars(&m);
    append_chars(&mut v, &mc);
    let value = string_of(&v);
    field("tools/list", value.as_str())
}

/// A server version, or `(empty)` for an empty one.
pub open spec fn version_display(version: Seq<char>) -> Seq<char> {
    if version.len() == 0 { "(empty)"@ } else { version }
}

/// A server version as the client shows it.
pub fn version_text(version: &str) -> (r: String)
    ensures
        r@ == version_display(version@),
{
    if version.is_empty() {
        "(empty)".to_owned()
    } else {
        version.to_owned()
    }
}

/// The capabilities the server offers, by name, in a fixed order.
pub open spec fn offered_capabilities(tools: bool, resources: bool, prompts: bool, logging: bool, completions: bool) -> Seq<Seq<char>> {
    let a: Seq<Seq<char>> = if tools { seq!["tools"@] } else { seq![] };
    let b: Seq<Seq<char>> = if resources { a.push("resources"@) } else { a };
    let c: Seq<Seq<char>> = if prompts { b.push("prompts"@) } else { b };
    let d: Seq<Seq<char>> = if logging { c.push("logging"@) } else { c };
    if completions { d.push("completions"@) } else { d }
}

/// The offered capabilities joined by `", "`.
pub fn capabilities_text(tools: bool, resources: bool, prompts: bool, logging: bool, completions: bool) -> (r: String)
    ensures
        r@ == join(offered_capabilities(tools, resources, prompts, logging, completions), ", "@),
{
    let mut names: Vec<Vec<char>> = Vec::new();
    if tools {
        names.push(lit("tools"));
    }
    if resources {
        names.push(lit("resources"));
    }
    if prompts {
        names.push(lit("prompts"));
    }
    if logging {
        names.push(lit("logging"));
    }
    if completions {
        names.push(lit("completions"));
    }
    assert(views(names@) =~= offered_capabilities(tools, resources, prompts, logging, completions));
    let sep = lit(", ");
    let joined = join_chars(&names, &sep);
    string_of(&joined)
}

/// The instructions line: the first line of the server's instructions, when
/// they are not blank.
pub fn instructions_line(instructions: &Option<String>) -> (r: Option<&str>)
    ensures
        r matches Some(l) ==> (instructions matches Some(i) && trim(i@).len() > 0 && l@ == first_line_of(i@)),
        r is None ==> (instructions matches Some(i) ==> trim(i@).len() == 0),
{
    match instructions {
        Some(i) => {
            let ic = string_chars(i);
            let t = trim_chars(&ic);
            if t.len() == 0 {
                None
            } else {
                Some(first_line(i.as_str()))
            }
        },
        None => None,
    }
}

/// A value as plain text: a string without its quotes, another value as
/// JSON, `?` for one that did not serialize.
pub open spec fn plain_text(v: PlainValue) -> Seq<char> {
    match v {
        PlainValue::Text(s) => s@,
        PlainValue::Other(j) => j@,
        PlainValue::Unserializable => "?"@,
    }
}

/// A serializable value as plain text (strings without their quotes).
pub fn plain(value: &PlainValue) -> (r: String)
    ensures
        r@ == plain_text(*value),
{
    match value {
        PlainValue::Text(s) => s.clone(),
        PlainValue::Other(j) => j.clone(),
        PlainValue::Unserializable => "?".to_owned(),
    }
}


/// A tool call hands its text back exactly when MCP flags no error and the
/// text does not report a failure.
pub proof fn failed_calls_hand_back_nothing(reply: ToolReply)
    ensures
        call_result(reply) is None <==> (reply.is_error == Some(true) || reports_failure(
            reply_text(reply.content@),
        )),
        call_result(reply) matches Some(t) ==> t == reply_text(reply.content@),
{
}

/// A query counts as answered exactly when the call succeeded and its text
/// does not begin with the reasoning marker; a reply that reports a failure
/// is never an answer.
pub proof fn answered_queries(reply: ToolReply)
    ensures
        (answer_of(call_result(reply)) == Answer::Answered) <==> (reply.is_error != Some(true)
            && !reports_failure(reply_text(reply.content@))
            && !starts_with_after_space(reply_text(reply.content@), crate::session::REASONING_MARKER)),
{
}

} // verus!

verus! {

/// The value of the `initialize` field: how long the handshake took.
pub open spec fn initialized_display(nanos: nat) -> Seq<char> {
    "ok in "@ + ms_text(nanos)
}

/// The value of the `initialize` field.
pub fn initialized_text(nanos: u128) -> (r: String)
    ensures
        r@ == initialized_display(nanos as nat),
{
    let mut v = lit("ok in ");
    let m = ms(nanos);
    let mc = string_chars(&m);
    append_chars(&mut v, &mc);
    string_of(&v)
}


/// A tool reports a failure exactly when its text, after leading white
/// space, begins with the failure marker: a marker anywhere else is no
/// failure. Such a reply (or one that MCP flags as an error) hands no text
/// back; any other hands back its whole text. The note line is printed
/// exactly for a reported failure that MCP does not flag.
pub proof fn failure_is_a_leading_marker(reply: ToolReply, nanos: nat)
    ensures
        ({
            let t = reply_text(reply.content@);
            let leading = exists|k: int|
                0 <= k < t.len() && #[trigger] t[k] == '\u{274c}' && forall|j: int| 0 <= j < k ==> crate::text::is_space(t[j]);
            &&& (call_result(reply) is None <==> (reply.is_error == Some(true) || leading))
            &&& (reply.is_error != Some(true) && !leading ==> call_result(reply) == Some(t))
            &&& call_lines(reply, nanos).len() == 4 + (if leading && reply.is_error != Some(true) { 1int } else { 0int })
                + (if reply.structured is Some { 1int } else { 0int })
        }),
{
    let t = reply_text(reply.content@);
    crate::text::lemma_starts_with_after_space(t, FAILURE_MARKER);
}

} // verus!
