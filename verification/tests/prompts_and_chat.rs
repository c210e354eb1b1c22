use robot_harness::chat::{
    footer_text, plan_line, role_prefix, ChatState, DisplayLine, KeyInput,
    KeyOutcome, MouseInput,
};
use robot_harness::events::{EventKind, UserAction};
use robot_harness::message::{Role, Usage};
use robot_harness::session::{StreamEvent, Task, TaskStatus};
use robot_harness::skill::{Skill, SkillMetadata, SkillRegistry};
use robot_harness::text::{join_with, push_decimal, split_lines, trimmed};

fn skill(name: &str, instructions: &str) -> Skill {
    Skill {
        metadata: SkillMetadata {
            name: name.to_string(),
            description: format!("{} skill", name),
            tools: vec!["update_plan".to_string()],
        },
        instructions: instructions.to_string(),
    }
}

fn registry() -> SkillRegistry {
    let mut r = SkillRegistry::new();
    r.insert(skill("planner", "Plan it."));
    r.insert(skill("evaluator", "Judge it."));
    r
}

#[test]
fn plain_prompt_is_sent_trimmed() {
    match UserAction::parse("  \u{3000}pick up the red cube\n ", &registry()) {
        UserAction::Standard { prompt, skill } => {
            assert_eq!(prompt, "pick up the red cube");
            assert!(skill.is_none());
        }
        other => panic!("unexpected {:?}", other),
    }
}

#[test]
fn slash_commands_are_recognised() {
    let reg = registry();
    assert!(matches!(UserAction::parse("/eval", &reg), UserAction::Eval));
    assert!(matches!(UserAction::parse("//eval ignored", &reg), UserAction::Eval));
    match UserAction::parse("/frame   what do you see?  ", &reg) {
        UserAction::Frame { prompt } => assert_eq!(prompt, "what do you see?"),
        other => panic!("unexpected {:?}", other),
    }
    match UserAction::parse("/planner stack the blocks", &reg) {
        UserAction::Planner { goal, skill } => {
            assert_eq!(goal, "Goal: stack the blocks");
            assert_eq!(skill.metadata.name, "planner");
            assert_eq!(skill.instructions, "Plan it.");
        }
        other => panic!("unexpected {:?}", other),
    }
    match UserAction::parse("/evaluator is it done", &reg) {
        UserAction::Standard { prompt, skill } => {
            assert_eq!(prompt, "is it done");
            assert_eq!(skill.unwrap().metadata.name, "evaluator");
        }
        other => panic!("unexpected {:?}", other),
    }
}

#[test]
fn backslash_commands_are_recognised() {
    let reg = registry();
    match UserAction::parse("\\planner stack the red cube", &reg) {
        UserAction::Planner { goal, skill } => {
            assert_eq!(goal, "Goal: stack the red cube");
            assert_eq!(skill.metadata.name, "planner");
        }
        other => panic!("unexpected {:?}", other),
    }
    assert!(matches!(UserAction::parse("\\eval_loop", &SkillRegistry::new()), UserAction::Eval));
    assert!(matches!(UserAction::parse("  \\eval_loop  ", &reg), UserAction::Eval));
    assert!(matches!(UserAction::parse("/eval_loop", &reg), UserAction::Eval));
    match UserAction::parse("\\frame what now", &reg) {
        UserAction::Frame { prompt } => assert_eq!(prompt, "what now"),
        other => panic!("unexpected {:?}", other),
    }
    match UserAction::parse("\\dance now", &reg) {
        UserAction::Standard { prompt, skill } => {
            assert_eq!(prompt, "\\dance now");
            assert!(skill.is_none());
        }
        other => panic!("unexpected {:?}", other),
    }
}

#[test]
fn planner_without_its_skill_sends_the_arguments() {
    match UserAction::parse("/planner stack", &SkillRegistry::new()) {
        UserAction::Standard { prompt, skill } => {
            assert_eq!(prompt, "stack");
            assert!(skill.is_none());
        }
        other => panic!("unexpected {:?}", other),
    }
}

#[test]
fn unknown_command_is_sent_whole() {
    match UserAction::parse(" /dance now ", &registry()) {
        UserAction::Standard { prompt, skill } => {
            assert_eq!(prompt, "/dance now");
            assert!(skill.is_none());
        }
        other => panic!("unexpected {:?}", other),
    }
}

#[test]
fn skill_registry_replaces_by_name() {
    let mut reg = registry();
    assert_eq!(reg.len(), 2);
    reg.insert(skill("planner", "Plan again."));
    assert_eq!(reg.len(), 2);
    assert_eq!(reg.get("planner").unwrap().instructions, "Plan again.");
    assert!(reg.contains_key("evaluator"));
    assert!(reg.get("nobody").is_none());
    let s = reg.get("evaluator").unwrap();
    assert_eq!(s.metadata.tools, vec!["update_plan".to_string()]);
}

#[test]
fn text_helpers() {
    assert_eq!(trimmed("\t a b \u{a0}"), "a b");
    assert_eq!(trimmed("   "), "");
    let mut s = String::from("n=");
    push_decimal(&mut s, 0);
    push_decimal(&mut s, 1207);
    assert_eq!(s, "n=01207");
    let lines = vec!["a".to_string(), "".to_string(), "c".to_string()];
    assert_eq!(join_with(&lines, "\n"), "a\n\nc");
    assert_eq!(join_with(&vec![], "\n"), "");
}

fn texts(chat: &ChatState) -> Vec<String> {
    chat.chat_display
        .iter()
        .map(|l| match l {
            DisplayLine::Labeled { role, message } => format!("{}{}", role_prefix(*role), message),
            DisplayLine::Error(e) => format!("Error: {}", e),
            DisplayLine::Markdown { text, dimmed } => format!("md{}:{}", if *dimmed { "~" } else { "" }, text),
            DisplayLine::Blank => String::new(),
        })
        .collect()
}

#[test]
fn streamed_reply_is_committed_when_its_kind_changes() {
    let mut chat = ChatState::new(vec![]);
    assert!(!chat.handle_stream_event(StreamEvent::Reasoning("think".to_string())));
    assert!(!chat.handle_stream_event(StreamEvent::Reasoning("ing".to_string())));
    assert_eq!(chat.active_reasoning_buffer, "thinking");
    assert!(!chat.handle_stream_event(StreamEvent::Content("Hello".to_string())));
    assert_eq!(chat.active_reasoning_buffer, "");
    assert_eq!(chat.last_event_kind, EventKind::Content);
    assert!(!chat.handle_stream_event(StreamEvent::ToolExecution {
        name: "update_plan".to_string(),
        args: "{}".to_string()
    }));
    chat.is_generating = true;
    assert!(chat.handle_stream_event(StreamEvent::Done));
    assert!(!chat.is_generating);
    assert_eq!(
        texts(&chat),
        vec![
            "".to_string(),
            "md~:thinking".to_string(),
            "".to_string(),
            "md:Hello".to_string(),
            "".to_string(),
            "Tool: \nExecuting update_plan with {}\n".to_string(),
            "".to_string(),
        ]
    );
}

#[test]
fn other_events_update_the_chat() {
    let mut chat = ChatState::new(vec![]);
    chat.is_generating = true;
    let plan = vec![Task { id: "task_1".to_string(), description: "grasp".to_string(), status: TaskStatus::InProgress }];
    chat.handle_stream_event(StreamEvent::PlanUpdated(plan));
    assert_eq!(chat.plan.len(), 1);
    let u = Usage { prompt_tokens: 10, completion_tokens: 5, total_tokens: 15 };
    chat.handle_stream_event(StreamEvent::Usage(u));
    assert_eq!(chat.last_usage, u);
    chat.handle_stream_event(StreamEvent::Latency(42));
    assert_eq!(chat.last_latency_ms, Some(42));
    chat.handle_stream_event(StreamEvent::EvaluateStart);
    chat.handle_stream_event(StreamEvent::ToolError {
        name: "update_plan".to_string(),
        args: "{".to_string(),
        error: "bad".to_string(),
    });
    assert!(chat.handle_stream_event(StreamEvent::Error("offline".to_string())));
    assert!(!chat.is_generating);
    assert_eq!(chat.last_event_kind, EventKind::Nothing);
    assert_eq!(
        texts(&chat),
        vec![
            "INFO: \nEvaluating Plan Progress".to_string(),
            "Error: \nFailed update_plan with {, bad\n".to_string(),
            "Error: offline".to_string(),
        ]
    );
}

#[test]
fn enter_submits_the_prompt() {
    let reg = registry();
    let mut chat = ChatState::new(vec![]);
    let blank = vec!["  ".to_string(), "".to_string()];
    assert!(matches!(chat.handle_key_event(KeyInput::Enter, &blank, &reg), KeyOutcome::Nothing));
    assert!(chat.chat_display.is_empty());
    let lines = vec!["/frame what".to_string(), "is here".to_string()];
    match chat.handle_key_event(KeyInput::Enter, &lines, &reg) {
        KeyOutcome::Submit(UserAction::Frame { prompt }) => assert_eq!(prompt, "what\nis here"),
        other => panic!("unexpected {:?}", other),
    }
    assert!(chat.is_generating);
    assert!(chat.auto_scroll);
    assert_eq!(texts(&chat), vec!["User: /frame what\nis here".to_string(), "Assistant: ".to_string()]);
    assert!(matches!(chat.handle_key_event(KeyInput::Enter, &lines, &reg), KeyOutcome::Nothing));
    assert!(matches!(chat.handle_key_event(KeyInput::Other, &lines, &reg), KeyOutcome::Nothing));
    chat.is_generating = false;
    assert!(matches!(chat.handle_key_event(KeyInput::Other, &lines, &reg), KeyOutcome::ForwardToInput));
    chat.handle_key_event(KeyInput::Esc, &lines, &reg);
    assert!(chat.exit);
}

#[test]
fn scrolling_saturates() {
    let reg = registry();
    let mut chat = ChatState::new(vec![]);
    chat.handle_key_event(KeyInput::PageUp, &vec![], &reg);
    assert_eq!(chat.scroll, 0);
    assert!(!chat.auto_scroll);
    chat.handle_mouse_event(MouseInput::ScrollDown);
    chat.handle_mouse_event(MouseInput::ScrollDown);
    assert_eq!(chat.scroll, 6);
    chat.handle_mouse_event(MouseInput::ScrollUp);
    assert_eq!(chat.scroll, 3);
    chat.scroll = u16::MAX - 1;
    chat.handle_key_event(KeyInput::PageDown, &vec![], &reg);
    assert_eq!(chat.scroll, u16::MAX);
}

#[test]
fn scroll_fits_the_history() {
    let mut chat = ChatState::new(vec![]);
    // 12 columns inside the border: widths 0, 12, 13 and 30 take 1, 1, 2 and 3 rows
    let widths = vec![0usize, 12, 13, 30];
    chat.fit_scroll(&widths, 14, 6);
    assert_eq!(chat.scroll, 3);
    chat.auto_scroll = false;
    chat.scroll = 1;
    chat.fit_scroll(&widths, 14, 6);
    assert_eq!(chat.scroll, 1);
    assert!(!chat.auto_scroll);
    chat.scroll = 50;
    chat.fit_scroll(&widths, 14, 6);
    assert_eq!(chat.scroll, 3);
    assert!(chat.auto_scroll);
}

#[test]
fn plan_lines_show_status() {
    let t = |s| Task { id: "x".to_string(), description: "push".to_string(), status: s };
    assert_eq!(plan_line(&t(TaskStatus::Completed)), "[x] push");
    assert_eq!(plan_line(&t(TaskStatus::InProgress)), "[>] push");
    assert_eq!(plan_line(&t(TaskStatus::Pending)), "[ ] push");
    assert_eq!(role_prefix(Role::Info), "INFO: ");
}

#[test]
fn footer_shows_usage_and_latency() {
    let u = Usage { prompt_tokens: 120, completion_tokens: 7, total_tokens: 127 };
    assert_eq!(footer_text(u, None, ""), " In: 120 | Out: 7 | Total: 127 ");
    assert_eq!(
        footer_text(u, Some(1530), " | TTFT: 12ms | 3.5 TPS"),
        " In: 120 | Out: 7 | Total: 127 | End-to-end: 1530ms | TTFT: 12ms | 3.5 TPS "
    );
}

#[test]
fn lines_split_like_str_lines() {
    for s in ["", "a", "a\n", "a\r\nb", "a\n\nb\r", "\n", "x\r\n\r\n", "\r"] {
        let expected: Vec<String> = s.lines().map(|l| l.to_string()).collect();
        assert_eq!(split_lines(s), expected, "input {:?}", s);
    }
}

#[test]
fn streaming_lines_show_the_live_reply() {
    let mut chat = ChatState::new(vec![]);
    assert_eq!(chat.streaming_lines(), (None, vec![]));
    chat.handle_stream_event(StreamEvent::Reasoning("hm".to_string()));
    chat.active_content_buffer = "one\ntwo\n".to_string();
    assert_eq!(chat.streaming_lines(), (Some("Thinking: hm".to_string()), vec!["one".to_string(), "two".to_string()]));
}
