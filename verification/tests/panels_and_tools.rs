use context_pilot::api_schema::{build_api, inject_global_params, ApiToolDef, ToolSchema};
use context_pilot::context::ContextEntry;
use context_pilot::library::{library_content, list_contains, str_eq, LibraryPanel, PromptDirs, PromptEntry};
use context_pilot::model::{LlmProvider, ModelInfo, State};
use context_pilot::queue::{
    empty_queue_result, flush_summary_line, flush_tool_id, flushed_call_ids,
    finish_flush, short_content, start_flush, QueueState, QueuedCall,
};
use context_pilot::overlay_columns::{Piece, Tone};
use context_pilot::sidebar::{breakpoint_gauge, breakpoint_lines, stats_box};
use context_pilot::tool::{result_for, ToolResult, ToolUse};
use context_pilot::tools_overview::{tools_overview, ToolInfo};

fn tool() -> ToolUse {
    ToolUse { id: "q1".to_string(), name: "Queue_execute".to_string() }
}

fn call(index: usize, name: &str) -> QueuedCall {
    QueuedCall { index, tool_use_id: format!("toolu_{index}"), tool_name: name.to_string(), input: format!("{{\"n\":{index}}}") }
}

fn res(content: &str, is_error: bool) -> ToolResult {
    result_for(&ToolUse { id: "x".to_string(), name: "y".to_string() }, content.to_string(), is_error)
}

#[test]
fn queue_ids() {
    assert_eq!(flush_tool_id(&call(3, "Edit")), "flush_3_toolu_3");
    let ids = flushed_call_ids(7, 41);
    assert_eq!(ids.tool_id, "T7");
    assert_eq!(ids.uid, "UID_41_T");
    assert_eq!(ids.next_tool_id, 8);
    assert_eq!(ids.next_global_uid, 42);
    let top = flushed_call_ids(usize::MAX, usize::MAX);
    assert_eq!(top.next_tool_id, usize::MAX);
    assert_eq!(top.next_global_uid, usize::MAX);
}

#[test]
fn short_result_contents() {
    assert_eq!(short_content("done"), "done");
    let hundred = "x".repeat(100);
    assert_eq!(short_content(&hundred), hundred);
    let long = "y".repeat(150);
    assert_eq!(short_content(&long), format!("{}...", "y".repeat(97)));
    // A two-byte character across byte 97 is cut before it.
    let mixed = format!("{}é{}", "a".repeat(96), "b".repeat(20));
    assert_eq!(short_content(&mixed), format!("{}...", "a".repeat(96)));
}

#[test]
fn queue_summary() {
    assert_eq!(flush_summary_line(&call(1, "Edit"), &res("ok!", false)), "1. Edit → ok (ok!)\n");
    assert_eq!(flush_summary_line(&call(2, "Write"), &res("denied", true)), "2. Write → ERROR (denied)\n");
    let e = empty_queue_result(&tool());
    assert_eq!(e.content, "Queue is empty — nothing to execute.");
    assert!(!e.is_error);
    assert!(!e.preserves_tempo);
}

#[test]
fn gauge_cells() {
    assert_eq!(breakpoint_gauge(&vec![0, 999], 4), vec![true, false, false, true]);
    assert_eq!(breakpoint_gauge(&vec![500], 2), vec![false, true]);
    assert_eq!(breakpoint_gauge(&vec![250], 4), vec![false, true, false, false]);
    assert!(breakpoint_gauge(&vec![100], 0).is_empty());
    assert_eq!(breakpoint_gauge(&Vec::new(), 3), vec![false, false, false]);
}

fn schema_with(props: Option<Vec<(&str, &str)>>, required: Option<Vec<&str>>) -> ToolSchema {
    ToolSchema {
        properties: props.map(|v| v.into_iter().map(|(k, s)| (k.to_string(), s.to_string())).collect()),
        required: required.map(|v| v.into_iter().map(|s| s.to_string()).collect()),
    }
}

#[test]
fn global_params_injected() {
    let mut s = schema_with(Some(vec![("sql", "{\"type\":\"string\"}")]), Some(vec!["\"sql\""]));
    inject_global_params(&mut s);
    let props = s.properties.unwrap();
    let names: Vec<&str> = props.iter().map(|p| p.0.as_str()).collect();
    assert_eq!(names, vec!["sql", "intent", "verb"]);
    assert_eq!(props[1].1, "{\"description\":\"Why you're calling this tool (1-10 words)\",\"type\":\"string\"}");
    assert_eq!(s.required.unwrap(), vec!["\"sql\"", "\"intent\"", "\"verb\""]);
    // An existing parameter of the same name is replaced in place.
    let mut t = schema_with(Some(vec![("verb", "{}"), ("x", "{}")]), None);
    inject_global_params(&mut t);
    let props = t.properties.unwrap();
    assert_eq!(props.len(), 3);
    assert_eq!(props[0].0, "verb");
    assert!(props[0].1.contains("-ING"));
    assert!(t.required.is_none());
    let mut u = schema_with(None, None);
    inject_global_params(&mut u);
    assert!(u.properties.is_none());
}

#[test]
fn api_lists_enabled_tools() {
    let tools = vec![
        ApiToolDef {
            id: "a".to_string(),
            description: "A".to_string(),
            enabled: true,
            schema: schema_with(Some(Vec::new()), Some(Vec::new())),
        },
        ApiToolDef {
            id: "b".to_string(),
            description: "B".to_string(),
            enabled: false,
            schema: schema_with(None, None),
        },
        ApiToolDef { id: "c".to_string(), description: "C".to_string(), enabled: true, schema: schema_with(None, None) },
    ];
    let api = build_api(&tools);
    assert_eq!(api.len(), 2);
    assert_eq!(api[0].name, "a");
    assert_eq!(api[0].description, "A");
    assert_eq!(api[0].input_schema.properties.as_ref().unwrap().len(), 2);
    assert_eq!(api[1].name, "c");
}

fn info(name: &str, out: u32, window: usize) -> ModelInfo {
    ModelInfo { api_name: name.to_string(), max_output_tokens: out, context_window: window }
}

fn model_state(p: LlmProvider, budget: Option<usize>) -> State {
    State {
        llm_provider: p,
        secondary_provider: LlmProvider::Groq,
        anthropic_model: info("opus", 8000, 200_000),
        grok_model: info("grok", 4000, 100_000),
        groq_model: info("groq", 2000, 50_000),
        deepseek_model: info("deepseek", 1000, 64_000),
        minimax_model: info("minimax", 500, 32_000),
        secondary_anthropic_model: info("opus-s", 1, 1),
        secondary_grok_model: info("grok-s", 2, 2),
        secondary_groq_model: info("groq-s", 3, 3),
        secondary_deepseek_model: info("deepseek-s", 4, 4),
        secondary_minimax_model: info("minimax-s", 5, 5),
        context_budget: budget,
    }
}

#[test]
fn model_selection() {
    let s = model_state(LlmProvider::ClaudeCode, None);
    assert_eq!(s.current_model(), "opus");
    assert_eq!(s.current_max_output_tokens(), 8000);
    assert_eq!(s.model_context_window(), 200_000);
    assert_eq!(s.effective_context_budget(), 200_000);
    assert_eq!(s.secondary_max_output_tokens(), 3);
    let g = model_state(LlmProvider::DeepSeek, Some(10_000));
    assert_eq!(g.current_model(), "deepseek");
    assert_eq!(g.effective_context_budget(), 10_000);
    // The Anthropic family shares one selection.
    assert_eq!(model_state(LlmProvider::Anthropic, None).current_model(), s.current_model());
    assert_eq!(model_state(LlmProvider::ClaudeCodeApiKey, None).current_model(), s.current_model());
}

fn prompt(id: &str, name: &str, desc: &str) -> PromptEntry {
    PromptEntry { id: id.to_string(), name: name.to_string(), description: desc.to_string() }
}

fn dirs() -> PromptDirs {
    PromptDirs { agents: "/p/agents".to_string(), skills: "/p/skills".to_string(), commands: "/p/commands".to_string() }
}

#[test]
fn library_text() {
    let agents = vec![prompt("dev", "Developer", "Builds features"), prompt("plan", "Planner", "Checks changes")];
    let skills = vec![prompt("sql", "SQL", "Queries")];
    let commands = vec![prompt("fix", "Fix", "Fix things")];
    let text = library_content(
        &agents,
        &skills,
        &commands,
        &Some("plan".to_string()),
        &vec!["sql".to_string()],
        &dirs(),
    );
    let expected = "Agents (system prompts):\n\n| ID | Name | Active | Description |\n|------|------|--------|-------------|\n\
| dev | Developer |  | Builds features |\n| plan | Planner | ✓ | Checks changes |\n\
\nSkills (use skill_load to load, Close_panel to unload):\n\n| ID | Name | Loaded | Description |\n|------|------|--------|-------------|\n\
| sql | SQL | ✓ | Queries |\n\
\nCommands:\n\n| Command | Name | Description |\n|---------|------|-------------|\n\
| /fix | Fix | Fix things |\n\
\nFile locations:\n- Agents: /p/agents/\n- Skills: /p/skills/\n- Commands: /p/commands/\n\
\nTo edit: use the Edit tool on the .md file directly.\nTo delete: delete the .md file.\n";
    assert_eq!(text, expected);
}

#[test]
fn library_without_skills_or_commands() {
    let text = library_content(&Vec::new(), &Vec::new(), &Vec::new(), &None, &Vec::new(), &dirs());
    assert!(text.starts_with("Agents (system prompts):\n\n| ID | Name | Active | Description |\n|------|------|--------|-------------|\n\nFile locations:"));
    assert!(!text.contains("Skills (use"));
    assert!(!text.contains("\nCommands:"));
}

#[test]
fn library_panel() {
    let p = LibraryPanel;
    assert_eq!(p.title(), "Library");
    assert_eq!(p.max_freezes(), 3);
    assert!(!p.needs_cache());
    let entries = vec![ContextEntry {
        id: "P7".to_string(),
        name: "Library".to_string(),
        context_type: "library".to_string(),
        is_fixed: true,
        last_refresh_ms: 9,
        cached_content: None,
    }];
    let items = p.context(&entries, "text".to_string());
    assert_eq!(items.len(), 1);
    assert_eq!(items[0].id, "P7");
    assert_eq!(items[0].header, "Library");
    assert_eq!(items[0].content, "text");
    assert_eq!(items[0].last_refresh_ms, 9);
    assert!(p.context(&Vec::new(), "text".to_string()).is_empty());
    assert!(str_eq("a", "a"));
    assert!(list_contains(&vec!["x".to_string()], "x"));
    assert!(!list_contains(&vec!["x".to_string()], "y"));
}

fn tinfo(id: &str, cat: &str, enabled: bool) -> ToolInfo {
    ToolInfo { id: id.to_string(), category: cat.to_string(), short_desc: format!("{id} tool"), enabled }
}

#[test]
fn tools_grouped_by_category() {
    let tools = vec![
        tinfo("read", "files", true),
        tinfo("sql", "entity", false),
        tinfo("write", "files", true),
        tinfo("grep", "söké", true),
    ];
    let descs = vec![
        ("files".to_string(), "File access".to_string()),
        ("files".to_string(), "Files!".to_string()),
    ];
    let o = tools_overview(&tools, &descs);
    assert_eq!(o.enabled_count, 3);
    assert_eq!(o.disabled_count, 1);
    assert_eq!(o.categories.len(), 3);
    assert_eq!(o.categories[0].title, "FILES");
    assert_eq!(o.categories[0].description, "Files!");
    let ids: Vec<&str> = o.categories[0].rows.iter().map(|r| r.id.as_str()).collect();
    assert_eq!(ids, vec!["read", "write"]);
    assert_eq!(o.categories[1].title, "ENTITY");
    assert_eq!(o.categories[1].description, "");
    assert!(!o.categories[1].rows[0].enabled);
    assert_eq!(o.categories[2].title, "SÖKÉ");
}

#[test]
fn replayed_ids_never_collide() {
    let a = flush_tool_id(&QueuedCall { index: 1, tool_use_id: "2_x".to_string(), tool_name: "t".to_string(), input: String::new() });
    let b = flush_tool_id(&QueuedCall { index: 12, tool_use_id: "x".to_string(), tool_name: "t".to_string(), input: String::new() });
    assert_ne!(a, b);
    assert_ne!(a, "2_x");
    assert_eq!(a, "flush_1_2_x");
    assert_eq!(b, "flush_12_x");
}

#[test]
fn flush_replays_each_call_once_in_order() {
    let mut q = QueueState { queued_calls: vec![call(1, "Edit"), call(2, "Write")], active: true };
    let mut run = start_flush(&mut q).expect("calls were queued");
    assert!(q.queued_calls.is_empty());
    assert!(!q.active);
    let mut seen = Vec::new();
    while let Some(rep) = run.next_call() {
        seen.push((rep.tool.id.clone(), rep.tool.name.clone(), rep.input.clone(), rep.queue_index));
        let failed = rep.queue_index == 2;
        run.record(res(if failed { "denied" } else { "ok!" }, failed));
    }
    assert_eq!(
        seen,
        vec![
            ("flush_1_toolu_1".to_string(), "Edit".to_string(), "{\"n\":1}".to_string(), 1),
            ("flush_2_toolu_2".to_string(), "Write".to_string(), "{\"n\":2}".to_string(), 2),
        ]
    );
    let (wrapper, flushed) = finish_flush(&tool(), run);
    assert_eq!(wrapper.tool_use_id, "q1");
    assert!(!wrapper.is_error);
    assert!(wrapper.preserves_tempo);
    assert_eq!(wrapper.content, "Executed 2 queued action(s):\n1. Edit → ok (ok!)\n2. Write → ERROR (denied)\n");
    assert_eq!(flushed.len(), 2);
    assert_eq!(flushed[0].queue_index, 1);
    assert_eq!(flushed[1].tool.id, "flush_2_toolu_2");
    assert!(flushed[1].result.is_error);
}

#[test]
fn flush_of_empty_queue_leaves_it_alone() {
    let mut q = QueueState { queued_calls: Vec::new(), active: true };
    assert!(start_flush(&mut q).is_none());
    assert!(q.active);
}

fn texts(line: &[Piece]) -> Vec<String> {
    line.iter().map(|p| p.text.clone()).collect()
}

#[test]
fn breakpoint_lines_show_count_and_gauge() {
    assert!(breakpoint_lines(0, &vec![100], 4).is_empty());
    let only_count = breakpoint_lines(2, &Vec::new(), 4);
    assert_eq!(only_count.len(), 1);
    assert_eq!(only_count[0][0].text, "alive BPs: 2");
    assert_eq!(only_count[0][0].tone, Tone::Success);
    let lines = breakpoint_lines(1, &vec![600], 4);
    assert_eq!(lines.len(), 2);
    assert_eq!(texts(&lines[1]), vec!["░", "░", "|", "░"]);
}

#[test]
fn stats_box_pads_by_display_width() {
    let content = vec![
        vec![Piece { text: "abc".to_string(), tone: Tone::Text }],
        vec![Piece { text: "日".to_string(), tone: Tone::Text }],
    ];
    let b = stats_box(content, 7);
    assert_eq!(b.len(), 4);
    assert_eq!(texts(&b[0]), vec![" ", "╭", "─────", "╮"]);
    assert_eq!(texts(&b[1]), vec![" ", "│", "abc", "  ", "│"]);
    assert_eq!(texts(&b[2]), vec![" ", "│", "日", "   ", "│"]);
    assert_eq!(texts(&b[3]), vec![" ", "╰", "─────", "╯"]);
    assert_eq!(stats_box(Vec::new(), 1).len(), 2);
}
