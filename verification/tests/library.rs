use gemma_rust_mcp::display::{field, first_line, indent, ms, section, truncate};
use gemma_rust_mcp::report::{
    call_header, call_report, capabilities_text, initialized_text, instructions_line, log_report, name_width,
    plain, text_of, tool_line, tools_summary, version_text, ContentBlock, PlainValue,
    Structured, ToolInfo, ToolReply,
};
use gemma_rust_mcp::rig::Rig;
use gemma_rust_mcp::session::{
    answered, check_offered, classify_answer, exit_code, interactive_intro, is_called, mode, parse_command,
    plan_calls, plan_status_tools, prompt_or_default, server_command, unknown_command_line,
    Answer, Command, Mode, DEFAULT_PROMPT, INTERACTIVE_HELP,
};

fn strings(v: &[&str]) -> Vec<String> {
    v.iter().map(|s| s.to_string()).collect()
}

#[test]
fn rig_directories() {
    assert_eq!(Rig::Local.dir_name(), "local-llamacpp-1650ti-2b-q4_0");
    assert_eq!(Rig::Cloudrun.dir_name(), "gpu-2B-cloudrun-devops-agent");
}

#[test]
fn rig_tools() {
    assert_eq!(Rig::Local.status_tools(), vec!["gpu_status", "model_server_status", "model_info"]);
    assert_eq!(
        Rig::Cloudrun.status_tools(),
        vec!["cloudrun_status", "cloudrun_get_system_status", "cloudrun_get_model_details"]
    );
    assert_eq!(Rig::Local.help_tool(), "get_help");
    assert_eq!(Rig::Cloudrun.help_tool(), "cloudrun_get_help");
    assert_eq!(Rig::Local.query_tool(), "query_model");
    assert_eq!(Rig::Cloudrun.query_tool(), "cloudrun_query_gemma4_with_stats");
}

#[test]
fn query_args_per_rig() {
    let a = Rig::Local.query_args("Why?", 32);
    assert_eq!(a.prompt, "Why?");
    assert_eq!(a.max_tokens, Some(32));
    let b = Rig::Cloudrun.query_args("Why?", 32);
    assert_eq!(b.prompt, "Why?");
    assert_eq!(b.max_tokens, None);
}

#[test]
fn plans_for_each_mode() {
    assert_eq!(
        plan_calls(Rig::Local, false, false, false),
        vec!["gpu_status", "model_server_status", "model_info", "query_model"]
    );
    assert_eq!(plan_calls(Rig::Local, true, false, false), vec!["query_model"]);
    assert_eq!(plan_calls(Rig::Cloudrun, false, true, false), vec!["cloudrun_get_help"]);
    assert_eq!(
        plan_calls(Rig::Cloudrun, false, false, true),
        vec!["cloudrun_status", "cloudrun_get_system_status", "cloudrun_get_model_details"]
    );
    assert!(plan_status_tools(Rig::Local, true, false).is_empty());
    assert!(plan_status_tools(Rig::Local, false, true).is_empty());
    assert_eq!(plan_status_tools(Rig::Local, false, false).len(), 3);
}

#[test]
fn plans_never_call_mutating_tools() {
    let mutating = [
        "start_model_server",
        "stop_model_server",
        "cloudrun_deploy",
        "cloudrun_destroy",
        "cloudrun_update_scaling",
        "cloudrun_save_hf_token",
    ];
    for rig in [Rig::Local, Rig::Cloudrun] {
        for flags in 0..8u8 {
            let plan = plan_calls(rig, flags & 1 != 0, flags & 2 != 0, flags & 4 != 0);
            for name in plan {
                assert!(!mutating.contains(&name));
            }
        }
    }
}

#[test]
fn offered_tools() {
    let offered = strings(&["gpu_status", "query_model"]);
    assert_eq!(check_offered(&vec!["query_model", "gpu_status"], &offered), Ok(()));
    assert_eq!(
        check_offered(&vec!["gpu_status", "model_info", "nope"], &offered),
        Err("the server does not offer the `model_info` tool".to_string())
    );
    assert!(is_called(&vec!["gpu_status", "query_model"], "query_model"));
    assert!(!is_called(&vec!["gpu_status"], "query_mode"));
}

#[test]
fn modes_and_exit_codes() {
    assert_eq!(mode(true, false, false), Mode::RigHelp);
    assert_eq!(mode(false, true, false), Mode::Status);
    assert_eq!(mode(false, false, true), Mode::Interactive);
    assert_eq!(mode(false, false, false), Mode::Ask);
    assert!(answered(Mode::Interactive, false, false));
    assert!(!answered(Mode::Status, false, true));
    assert!(answered(Mode::Status, true, false));
    assert!(!answered(Mode::Ask, true, false));
    assert!(answered(Mode::RigHelp, false, true));
    assert_eq!(exit_code(true), 0);
    assert_eq!(exit_code(false), 2);
}

#[test]
fn answers() {
    assert_eq!(classify_answer(&None), Answer::Failed);
    assert_eq!(
        classify_answer(&Some("  \u{1f4e1} **Reasoning only \u{2014} no answer yet.**".to_string())),
        Answer::StillReasoning
    );
    assert_eq!(classify_answer(&Some("\u{2705} **Reply**\n\nA TPU".to_string())), Answer::Answered);
}

#[test]
fn commands() {
    assert!(matches!(parse_command("   "), Command::Skip));
    assert!(matches!(parse_command(" /quit "), Command::Quit));
    assert!(matches!(parse_command("/exit"), Command::Quit));
    assert!(matches!(parse_command("/help"), Command::Help));
    assert!(matches!(parse_command("/status\n"), Command::Status));
    assert!(matches!(parse_command("/rig-help"), Command::RigHelp));
    match parse_command("  /deploy now ") {
        Command::Unknown(p) => assert_eq!(p, "/deploy now"),
        _ => panic!("expected an unknown command"),
    }
    match parse_command("\tWhy is the sky blue?  ") {
        Command::Ask(p) => assert_eq!(p, "Why is the sky blue?"),
        _ => panic!("expected a prompt"),
    }
}

#[test]
fn first_lines() {
    assert_eq!(first_line("\n  Report the local GPU: name \nsecond line"), "Report the local GPU: name");
    assert_eq!(first_line(""), "");
    assert_eq!(first_line(" \n\t "), "");
    assert_eq!(first_line("one\r\ntwo"), "one");
    assert_eq!(first_line(first_line("  a  \n b")), "a");
}

#[test]
fn truncation() {
    assert_eq!(truncate("short", 60), "short");
    assert_eq!(truncate("abcdefgh", 5), "abcd\u{2026}");
    assert_eq!(truncate("abcde", 5), "abcde");
    assert_eq!(truncate("", 0), "");
    let once = truncate("Report the configured checkpoint, where it is, and the resident size", 60);
    assert_eq!(once.chars().count(), 60);
    assert_eq!(truncate(once.as_str(), 60), once);
}

#[test]
fn indentation() {
    assert_eq!(indent("a\nb", 2), "  a\n  b");
    assert_eq!(indent("a\n", 4), "    a");
    assert_eq!(indent("", 4), "");
    assert_eq!(indent("a\r\n\nb", 1), " a\n \n b");
    let indented = indent("x\ny\n", 3);
    let back: Vec<&str> = indented.lines().collect();
    assert_eq!(back, vec!["   x", "   y"]);
}

#[test]
fn section_headers() {
    let s = section("MCP server");
    assert_eq!(s, format!("\n== MCP server {}", "=".repeat(56)));
    assert_eq!(s.chars().count(), 71);
    let long = "t".repeat(70);
    assert_eq!(section(&long), format!("\n== {long} "));
}

#[test]
fn fields() {
    assert_eq!(field("rig", "local"), "  rig                    local");
    assert_eq!(field("rig", "local"), format!("  {:<22} {}", "rig", "local"));
    let long = "k".repeat(30);
    assert_eq!(field(&long, "v"), format!("  {long} v"));
}

#[test]
fn milliseconds() {
    assert_eq!(ms(0), "0 ms");
    assert_eq!(ms(859_000_000), "859 ms");
    assert_eq!(ms(499_999), "0 ms");
    assert_eq!(ms(500_001), "1 ms");
    assert_eq!(ms(1_500_000), "2 ms");
    assert_eq!(ms(2_500_000), "2 ms");
    assert_eq!(ms(12_345_678_901), "12346 ms");
}

#[test]
fn result_texts() {
    let blocks = vec![
        ContentBlock::Text("a".to_string()),
        ContentBlock::Other(Some("image".to_string())),
        ContentBlock::Other(None),
    ];
    assert_eq!(text_of(&blocks), "a\n[image content]\n[non-text content]");
    assert_eq!(text_of(&vec![]), "");
}

#[test]
fn tool_call_that_reports_failure() {
    let reply = ToolReply {
        is_error: Some(false),
        content: vec![ContentBlock::Text("\u{274c} GPU not found\n".to_string())],
        structured: Some(Structured {
            result_text: Some("\u{274c} GPU not found\n".to_string()),
            rendered: "{}".to_string(),
        }),
    };
    let r = call_report(&reply, 25_000_000);
    assert_eq!(
        r.lines,
        vec![
            field("latency", "25 ms"),
            field("isError", "false"),
            field("note", "the tool reported a failure in its text; MCP isError is false"),
            field("structuredContent", "{\"result\": \u{2026}} (same text as the content below)"),
            "  result:".to_string(),
            "    \u{274c} GPU not found".to_string(),
        ]
    );
    assert_eq!(r.text, None);
}

#[test]
fn tool_call_that_succeeds() {
    let reply = ToolReply {
        is_error: None,
        content: vec![ContentBlock::Text("\u{2705} Serving\nline two".to_string())],
        structured: Some(Structured { result_text: None, rendered: "{\"x\":1}".to_string() }),
    };
    let r = call_report(&reply, 1_000_000);
    assert_eq!(
        r.lines,
        vec![
            field("latency", "1 ms"),
            field("isError", "false"),
            field("structuredContent", "{\"x\":1}"),
            "  result:".to_string(),
            "    \u{2705} Serving\n    line two".to_string(),
        ]
    );
    assert_eq!(r.text, Some("\u{2705} Serving\nline two".to_string()));
}

#[test]
fn tool_call_flagged_as_error() {
    let reply = ToolReply {
        is_error: Some(true),
        content: vec![ContentBlock::Text("\u{274c} broken".to_string())],
        structured: None,
    };
    let r = call_report(&reply, 0);
    assert_eq!(
        r.lines,
        vec![
            field("latency", "0 ms"),
            field("isError", "true"),
            "  result:".to_string(),
            "    \u{274c} broken".to_string(),
        ]
    );
    assert_eq!(r.text, None);
}

#[test]
fn call_headers() {
    assert_eq!(
        call_header("gpu_status", "{}"),
        vec![section("tools/call gpu_status"), field("arguments", "{}")]
    );
}

#[test]
fn server_log() {
    let log = strings(&["first", "second"]);
    let (out, seen) = log_report(&log, 0);
    assert_eq!(out, vec![section("Server log (stderr)"), "  first".to_string(), "  second".to_string()]);
    assert_eq!(seen, 2);
    let (again, seen_again) = log_report(&log, seen);
    assert_eq!(again, vec![section("Server log (stderr)"), "  (nothing)".to_string()]);
    assert_eq!(seen_again, 2);
    let more = strings(&["first", "second", "third"]);
    let (next, _) = log_report(&more, seen);
    assert_eq!(next, vec![section("Server log (stderr)"), "  third".to_string()]);
    let (past_end, _) = log_report(&log, 9);
    assert_eq!(past_end, vec![section("Server log (stderr)"), "  (nothing)".to_string()]);
}

#[test]
fn tool_listing() {
    let tools = vec![
        ToolInfo { name: "gpu_status".to_string(), description: Some("Report the local GPU.\nMore.".to_string()) },
        ToolInfo { name: "model_server_status".to_string(), description: None },
        ToolInfo { name: "caf\u{e9}".to_string(), description: None },
    ];
    let width = name_width(&tools);
    assert_eq!(width, 19);
    assert_eq!(name_width(&vec![]), 0);
    let accented = vec![ToolInfo { name: "caf\u{e9}".to_string(), description: None }];
    assert_eq!(name_width(&accented), 5);
    assert_eq!(
        tool_line(true, "gpu_status", width, &tools[0].description),
        format!("  * {:<19}  {}", "gpu_status", "Report the local GPU.")
    );
    assert_eq!(tool_line(false, "caf\u{e9}", 4, &None), "    caf\u{e9}  ");
    assert_eq!(tool_line(false, "caf\u{e9}", 4, &None), format!("  {} {:<4}  {}", " ", "caf\u{e9}", ""));
    let long = Some("x".repeat(80));
    assert_eq!(tool_line(false, "t", 1, &long), format!("    t  {}\u{2026}", "x".repeat(59)));
    assert_eq!(tools_summary(7, 1_000_000), "  tools/list             7 tools in 1 ms");
}

#[test]
fn server_info() {
    assert_eq!(initialized_text(859_400_000), "ok in 859 ms");
    assert_eq!(version_text(""), "(empty)");
    assert_eq!(version_text("1.2"), "1.2");
    assert_eq!(capabilities_text(true, true, true, false, false), "tools, resources, prompts");
    assert_eq!(capabilities_text(false, false, false, false, false), "");
    assert_eq!(capabilities_text(false, false, false, true, true), "logging, completions");
    assert_eq!(instructions_line(&None), None);
    assert_eq!(instructions_line(&Some("  \n ".to_string())), None);
    assert_eq!(instructions_line(&Some(" Use the tools.\nDetails".to_string())), Some("Use the tools."));
    assert_eq!(plain(&PlainValue::Text("2025-11-25".to_string())), "2025-11-25");
    assert_eq!(plain(&PlainValue::Other("3".to_string())), "3");
    assert_eq!(plain(&PlainValue::Unserializable), "?");
}

#[test]
fn interactive_texts() {
    assert_eq!(
        unknown_command_line("/deploy"),
        format!("  Unknown command /deploy. {INTERACTIVE_HELP}")
    );
    assert_eq!(
        interactive_intro(Rig::Local),
        "  Each prompt is one `query_model` call. The tool takes a single prompt, so the model does not see earlier turns."
    );
    assert_eq!(server_command("python3"), "python3 server.py");
    assert_eq!(prompt_or_default(&None), DEFAULT_PROMPT);
    assert_eq!(prompt_or_default(&Some("Hi".to_string())), "Hi");
}
