use robot_harness::agent::{AgentAction, AgentEvent, AgentLoop, GenerationResult};
use robot_harness::frame::{encode_base64, encode_frame, fill_argb, fill_frame, CaptureClock};
use robot_harness::message::{Content, ContentBlock, Message, ToolCall, ToolCallFunction, Usage};
use robot_harness::session::{SessionData, SessionFile, StreamEvent, Task, TaskStatus};
use robot_harness::skill::{Skill, SkillMetadata};
use robot_harness::stream::{
    is_done_marker, Choice, DataLine, Delta, FunctionDelta, LineOutcome, StreamAccumulator, StreamResponse,
    ToolCallDelta,
};
use robot_harness::turns::{
    eval_instructions, eval_loop_step, handle_submission, image_data_url, new_eval_session,
    start_agent_turn, start_eval_turn, EvalStep, Submission,
};
use robot_harness::events::UserAction;

fn call(index: u32, id: &str, name: &str, args: &str) -> ToolCall {
    ToolCall {
        index: Some(index),
        id: Some(id.to_string()),
        call_type: Some("function".to_string()),
        function: ToolCallFunction { name: Some(name.to_string()), arguments: Some(args.to_string()) },
    }
}

fn reply(content: &str, reasoning: &str, calls: Vec<ToolCall>) -> GenerationResult {
    GenerationResult {
        reasoning: reasoning.to_string(),
        content: content.to_string(),
        tool_calls: calls,
        usage: None,
    }
}

#[test]
fn reply_without_tool_calls_finishes() {
    let mut history = SessionData::new("sys").history;
    let (mut l, a) = AgentLoop::start();
    assert!(matches!(a, AgentAction::Generate));
    let (a, n) = l.step(&mut history, AgentEvent::Generated(reply("Agent loop functional.", "hmm", vec![])));
    assert!(matches!(a, AgentAction::Finish));
    assert!(n.is_none());
    assert!(l.is_over());
    assert_eq!(history.len(), 2);
    match &history[1] {
        Message::Assistant { content, reasoning, tool_calls, name } => {
            assert_eq!(content.as_deref(), Some("Agent loop functional."));
            assert!(reasoning.is_none());
            assert!(tool_calls.is_none());
            assert!(name.is_none());
        }
        other => panic!("unexpected {:?}", other),
    }
}

#[test]
fn agent_turn_adds_the_reply_to_the_history() {
    let mut session = SessionData::new("You are a concise test assistant.");
    session.history.push(Message::User {
        content: Content::Text("Respond with exactly: 'Agent loop functional.'".to_string()),
        name: None,
    });
    let (mut l, _) = AgentLoop::start();
    let (a, _) = l.step(&mut session.history, AgentEvent::Generated(reply("Agent loop functional.", "", vec![])));
    assert!(matches!(a, AgentAction::Finish));
    assert_eq!(session.history.len(), 3);
}

#[test]
fn tool_calls_are_answered_in_order() {
    let mut history = Vec::new();
    let (mut l, _) = AgentLoop::start();
    let calls = vec![call(0, "c0", "update_plan", "{\"tasks\":[]}"), call(1, "c1", "read_file", "{}")];
    let (a, _) = l.step(&mut history, AgentEvent::Generated(reply("", "plan first", calls)));
    match a {
        AgentAction::RunTool { name, args } => {
            assert_eq!(name, "update_plan");
            assert_eq!(args, "{\"tasks\":[]}");
        }
        other => panic!("unexpected {:?}", other),
    }
    match &history[0] {
        Message::Assistant { content, reasoning, tool_calls, .. } => {
            assert!(content.is_none());
            assert_eq!(reasoning.as_deref(), Some("plan first"));
            assert_eq!(tool_calls.as_ref().unwrap().len(), 2);
        }
        other => panic!("unexpected {:?}", other),
    }
    let (a, n) = l.step(
        &mut history,
        AgentEvent::ToolFinished { outcome: Ok("Plan updated successfully.".to_string()), roundtrip_on_success: false },
    );
    assert!(n.is_none());
    assert!(matches!(a, AgentAction::RunTool { ref name, .. } if name == "read_file"));
    let (a, n) = l.step(
        &mut history,
        AgentEvent::ToolFinished { outcome: Err("no such file".to_string()), roundtrip_on_success: true },
    );
    match n {
        Some(StreamEvent::ToolError { name, args, error }) => {
            assert_eq!(name, "read_file");
            assert_eq!(args, "{}");
            assert_eq!(error, "no such file");
        }
        other => panic!("unexpected {:?}", other),
    }
    assert!(matches!(a, AgentAction::Generate));
    assert!(!l.is_over());
    assert_eq!(history.len(), 3);
    assert!(matches!(&history[1], Message::Tool { content, tool_call_id } if content == "Plan updated successfully." && tool_call_id == "c0"));
    assert!(matches!(&history[2], Message::Tool { content, tool_call_id } if content == "no such file" && tool_call_id == "c1"));
}

#[test]
fn successful_plan_tool_ends_the_turn() {
    let mut history = Vec::new();
    let (mut l, _) = AgentLoop::start();
    l.step(&mut history, AgentEvent::Generated(reply("", "", vec![call(0, "c0", "update_plan", "{}")])));
    let (a, _) = l.step(
        &mut history,
        AgentEvent::ToolFinished { outcome: Ok("ok".to_string()), roundtrip_on_success: false },
    );
    assert!(matches!(a, AgentAction::Finish));
}

#[test]
fn missing_tool_fails_the_loop() {
    let mut history = Vec::new();
    let (mut l, _) = AgentLoop::start();
    l.step(&mut history, AgentEvent::Generated(reply("", "", vec![call(0, "c0", "fly", "{}")])));
    let (a, _) = l.step(&mut history, AgentEvent::ToolMissing);
    assert!(matches!(a, AgentAction::Fail(ref e) if e == "Tool 'fly' not found in registry"));
    assert_eq!(history.len(), 1);
    let (mut l2, _) = AgentLoop::start();
    let (a, _) = l2.step(&mut history, AgentEvent::GenerationFailed("refused".to_string()));
    assert!(matches!(a, AgentAction::Fail(ref e) if e == "refused"));
}

fn chunk(reasoning: Option<&str>, content: Option<&str>, calls: Option<Vec<ToolCallDelta>>, usage: Option<Usage>) -> StreamResponse {
    StreamResponse {
        choices: vec![Choice {
            delta: Delta {
                reasoning: reasoning.map(|s| s.to_string()),
                content: content.map(|s| s.to_string()),
                tool_calls: calls,
            },
        }],
        usage,
    }
}

fn delta(index: Option<u32>, id: Option<&str>, name: Option<&str>, args: Option<&str>) -> ToolCallDelta {
    ToolCallDelta {
        index,
        id: id.map(|s| s.to_string()),
        function: FunctionDelta { name: name.map(|s| s.to_string()), arguments: args.map(|s| s.to_string()) },
    }
}

#[test]
fn stream_is_assembled() {
    let mut acc = StreamAccumulator::new();
    let r = acc.apply_chunk(chunk(Some(""), Some(""), None, None));
    assert!(r.events.is_empty());
    assert!(!r.first_token);
    let r = acc.apply_chunk(chunk(Some("I should"), None, None, None));
    assert!(r.first_token);
    assert!(matches!(&r.events[..], [StreamEvent::Reasoning(t)] if t == "I should"));
    let r = acc.apply_chunk(chunk(Some(" plan."), Some("Ok"), None, None));
    assert!(!r.first_token);
    assert_eq!(r.events.len(), 2);
    assert!(matches!(&r.events[1], StreamEvent::Content(t) if t == "Ok"));
    acc.apply_chunk(chunk(None, None, Some(vec![delta(Some(2), Some("b"), Some("read_file"), Some("{\"pa"))]), None));
    acc.apply_chunk(chunk(None, None, Some(vec![delta(None, Some("a"), Some("update_plan"), None)]), None));
    acc.apply_chunk(chunk(None, None, Some(vec![delta(Some(2), Some("zzz"), None, Some("th\":1}")), delta(Some(0), None, None, Some("{}"))]), None));
    let u = Usage { prompt_tokens: 3, completion_tokens: 4, total_tokens: 7 };
    let r = acc.apply_chunk(StreamResponse { choices: vec![], usage: Some(u) });
    assert_eq!(r.usage, Some(u));
    let g = acc.finish();
    assert_eq!(g.reasoning, "I should plan.");
    assert_eq!(g.content, "Ok");
    assert_eq!(g.usage, Some(u));
    assert_eq!(g.tool_calls.len(), 2);
    assert_eq!(g.tool_calls[0].index, Some(0));
    assert_eq!(g.tool_calls[0].id.as_deref(), Some("a"));
    assert_eq!(g.tool_calls[0].function.arguments.as_deref(), Some("{}"));
    assert_eq!(g.tool_calls[1].index, Some(2));
    assert_eq!(g.tool_calls[1].id.as_deref(), Some("b"));
    assert_eq!(g.tool_calls[1].function.name.as_deref(), Some("read_file"));
    assert_eq!(g.tool_calls[1].function.arguments.as_deref(), Some("{\"path\":1}"));
    assert_eq!(g.tool_calls[1].call_type.as_deref(), Some("function"));
    assert!(is_done_marker("[DONE]"));
    assert!(!is_done_marker("[DONE] "));
}

fn skill(instructions: &str) -> Skill {
    Skill {
        metadata: SkillMetadata { name: "planner".to_string(), description: String::new(), tools: vec![] },
        instructions: instructions.to_string(),
    }
}

#[test]
fn agent_turn_records_skill_and_frame() {
    let mut session = SessionData::new("You are a concise assistant.");
    start_agent_turn(&mut session.history, "What is in the image?".to_string(), Some(skill("Plan.")), "QUJD");
    assert_eq!(session.history.len(), 3);
    assert!(matches!(&session.history[1], Message::System { content, .. } if content == "Plan."));
    match &session.history[2] {
        Message::User { content: Content::Blocks(b), name: None } => {
            assert_eq!(b.len(), 2);
            assert!(matches!(&b[0], ContentBlock::Text { text } if text == "What is in the image?"));
            assert!(matches!(&b[1], ContentBlock::ImageUrl { image_url } if image_url.url == "data:image/jpeg;base64,QUJD" && image_url.detail.is_none()));
        }
        other => panic!("unexpected {:?}", other),
    }
    let mut h = Vec::new();
    start_agent_turn(&mut h, "hi".to_string(), None, "");
    assert!(matches!(&h[0], Message::User { content: Content::Blocks(b), .. } if b.len() == 1));
}

#[test]
fn submissions() {
    assert!(matches!(handle_submission(UserAction::Eval), Submission::EvalLoop));
    assert!(matches!(handle_submission(UserAction::Frame { prompt: "p".to_string() }), Submission::AgentTask { requires_frame: true, skill: None, .. }));
    assert!(matches!(handle_submission(UserAction::Standard { prompt: "p".to_string(), skill: None }), Submission::AgentTask { requires_frame: false, .. }));
    match handle_submission(UserAction::Planner { goal: "Goal: g".to_string(), skill: skill("s") }) {
        Submission::AgentTask { prompt, skill, requires_frame } => {
            assert_eq!(prompt, "Goal: g");
            assert!(skill.is_some());
            assert!(requires_frame);
        }
        other => panic!("unexpected {:?}", other),
    }
}

#[test]
fn evaluation_rounds_keep_two_messages() {
    assert_eq!(eval_instructions(None), "Evaluate the current scene against the plan.");
    assert_eq!(eval_instructions(Some(skill("Judge."))), "Judge.");
    let plan = vec![Task { id: "task_1".to_string(), description: "grasp".to_string(), status: TaskStatus::InProgress }];
    let mut s = new_eval_session("Judge.", plan, "AAAA");
    assert_eq!(s.plan.len(), 1);
    assert_eq!(s.history.len(), 2);
    start_eval_turn(&mut s, "[]", "BBBB");
    start_eval_turn(&mut s, "[1]", "CCCC");
    assert_eq!(s.history.len(), 3);
    match &s.history[2] {
        Message::User { content: Content::Blocks(b), .. } => {
            assert!(matches!(&b[0], ContentBlock::Text { text } if text == "Current plan: [1]"));
            assert!(matches!(&b[1], ContentBlock::Text { text } if text == "Current Image"));
            assert!(matches!(&b[2], ContentBlock::ImageUrl { image_url } if image_url.url == "data:image/jpeg;base64,CCCC"));
        }
        other => panic!("unexpected {:?}", other),
    }
    let s2 = new_eval_session("Judge.", vec![], "");
    assert_eq!(s2.history.len(), 1);
    assert_eq!(image_data_url("x"), "data:image/jpeg;base64,x");
}

#[test]
fn sessions_load_from_what_was_found() {
    let missing = SessionData::load(Ok("/h/.harness/w.json".to_string()), SessionFile::Missing);
    assert_eq!(missing.unwrap_err(), "Session file not found: /h/.harness/w.json");
    let no_home = SessionData::load(Err("Could not resolve home directory".to_string()), SessionFile::Missing);
    assert_eq!(no_home.unwrap_err(), "Could not resolve home directory");
    let bad = SessionData::load_from_path("p", SessionFile::Read { as_session: None, as_history: None });
    assert_eq!(bad.unwrap_err(), "Failed to parse session file");
    let hist = SessionData::new("sys").history;
    let old = SessionData::load_from_path("p", SessionFile::Read { as_session: None, as_history: Some(hist) }).unwrap();
    assert_eq!(old.history.len(), 1);
    assert!(old.plan.is_empty());
    let unreadable = SessionData::load_from_path("p", SessionFile::Unreadable("denied".to_string()));
    assert_eq!(unreadable.unwrap_err(), "denied");
    assert_eq!(robot_harness::session::session_file_name("work"), "work.json");
}

#[test]
fn frames_are_packed_and_encoded() {
    let rgb = [1u8, 2, 3, 255, 0, 16, 9];
    let mut buf = vec![7u32; 3];
    fill_argb(&rgb, &mut buf);
    assert_eq!(buf, vec![0xff010203, 0xffff0010, 7]);
    assert_eq!(encode_base64(b"abcd").as_deref(), Some("YWJjZA=="));
    assert_eq!(encode_base64(b"").as_deref(), Some(""));
    let filled = fill_frame(4, 3, vec![9u8; 4 * 3 * 3]).expect("frame fills");
    assert_eq!(filled.len(), 640 * 480 * 3);
    assert!(filled.iter().all(|b| *b == 9));
    let pixels = vec![128u8; 8 * 6 * 3];
    let b64 = encode_frame(8, 6, pixels).expect("frame encodes");
    assert!(b64.starts_with("/9j/"));
    assert!(encode_frame(8, 6, vec![0u8; 10]).is_none());
}

#[test]
fn frame_fills_exactly_when_every_pixel_has_its_bytes() {
    assert!(fill_frame(4, 3, vec![1u8; 4 * 3 * 3 - 1]).is_none());
    assert!(fill_frame(4, 3, vec![1u8; 4 * 3 * 3]).is_some());
    let longer = fill_frame(4, 3, vec![1u8; 4 * 3 * 3 + 5]).expect("extra bytes are ignored");
    assert_eq!(longer.len(), 640 * 480 * 3);
    assert!(encode_frame(640, 480, vec![0u8; 640 * 480 * 3]).is_some());
    assert!(encode_frame(640, 480, vec![0u8; 640 * 480 * 3 - 1]).is_none());
}

fn feed(lines: Vec<DataLine>) -> (GenerationResult, Vec<String>) {
    let mut acc = StreamAccumulator::new();
    let mut seen: Vec<String> = Vec::new();
    for line in lines {
        match acc.take_line(line) {
            LineOutcome::Ended => break,
            LineOutcome::Skipped => {}
            LineOutcome::Broken(e) => {
                seen.push(format!("{:?}", e));
                break;
            }
            LineOutcome::Applied(report) => {
                for e in report.events {
                    seen.push(format!("{:?}", e));
                }
                if let Some(u) = report.usage {
                    seen.push(format!("{:?}", StreamEvent::Usage(u)));
                }
            }
        }
    }
    (acc.finish(), seen)
}

#[test]
fn stream_lines_after_the_end_and_unreadable_lines_change_nothing() {
    let u = Usage { prompt_tokens: 1, completion_tokens: 2, total_tokens: 3 };
    let noisy = vec![
        DataLine::Unreadable,
        DataLine::Chunk(chunk(Some("think"), Some("Hi"), None, None)),
        DataLine::Unreadable,
        DataLine::Chunk(StreamResponse { choices: vec![], usage: Some(u) }),
        DataLine::Done,
        DataLine::Chunk(chunk(None, Some(" more"), None, None)),
    ];
    let clean = vec![
        DataLine::Chunk(chunk(Some("think"), Some("Hi"), None, None)),
        DataLine::Chunk(StreamResponse { choices: vec![], usage: Some(u) }),
    ];
    let (a, ea) = feed(noisy);
    let (b, eb) = feed(clean);
    assert_eq!(a.content, "Hi");
    assert_eq!(a.reasoning, "think");
    assert_eq!(a.usage, Some(u));
    assert_eq!((a.content, a.reasoning, a.usage), (b.content, b.reasoning, b.usage));
    assert_eq!(ea, eb);
    assert_eq!(ea.len(), 3);
    let mut acc = StreamAccumulator::new();
    assert!(matches!(acc.take_line(DataLine::Done), LineOutcome::Ended));
    assert!(matches!(acc.take_line(DataLine::Unreadable), LineOutcome::Skipped));
    assert_eq!(acc.finish().content, "");
}

#[test]
fn evaluation_loop_decides_before_each_round() {
    let open = vec![Task { id: "task_1".to_string(), description: "a".to_string(), status: TaskStatus::InProgress }];
    let done = vec![Task { id: "task_1".to_string(), description: "a".to_string(), status: TaskStatus::Completed }];
    assert_eq!(eval_loop_step(&vec![], true), EvalStep::Stop);
    assert_eq!(eval_loop_step(&done, true), EvalStep::Stop);
    assert_eq!(eval_loop_step(&open, false), EvalStep::WaitForFrame);
    assert_eq!(eval_loop_step(&open, true), EvalStep::Evaluate);
}

#[test]
fn evaluation_round_keeps_the_system_prompt_when_no_initial_image() {
    let mut s = new_eval_session("Judge.", vec![], "");
    assert_eq!(s.history.len(), 1);
    start_eval_turn(&mut s, "[]", "AAAA");
    assert_eq!(s.history.len(), 2);
    assert!(matches!(&s.history[0], Message::System { content, .. } if content == "Judge."));
    s.history.push(Message::Assistant { content: None, reasoning: None, name: None, tool_calls: None });
    s.history.push(Message::Assistant { content: None, reasoning: None, name: None, tool_calls: None });
    start_eval_turn(&mut s, "[1]", "BBBB");
    assert_eq!(s.history.len(), 3);
    assert!(matches!(&s.history[0], Message::System { .. }));
}

#[test]
fn capture_clock_counts_from_the_first_frame() {
    let mut clock = CaptureClock::new();
    assert_eq!(clock.capture_offset(5_000), 0);
    assert_eq!(clock.first_stamp, Some(5_000));
    assert_eq!(clock.capture_offset(7_500), 2_500);
    assert_eq!(clock.capture_offset(4_000), 0);
    assert_eq!(clock.first_stamp, Some(5_000));
}

#[test]
fn encoded_frame_is_whole_base64_groups() {
    let b64 = encode_frame(8, 6, vec![200u8; 8 * 6 * 3]).expect("frame encodes");
    assert!(!b64.is_empty());
    assert_eq!(b64.len() % 4, 0);
    assert_eq!(encode_base64(b"abcde").unwrap().len(), 8);
}

#[test]
fn a_broken_stream_reports_the_error_and_keeps_what_came() {
    let lines = vec![
        DataLine::Chunk(chunk(None, Some("Hal"), None, None)),
        DataLine::Broken("API Error 500: down".to_string()),
        DataLine::Chunk(chunk(None, Some("f"), None, None)),
    ];
    let (g, seen) = feed(lines);
    assert_eq!(g.content, "Hal");
    assert_eq!(seen.len(), 2);
    assert_eq!(seen[1], format!("{:?}", StreamEvent::Error("API Error 500: down".to_string())));
    let mut acc = StreamAccumulator::new();
    match acc.take_line(DataLine::Broken("x".to_string())) {
        LineOutcome::Broken(StreamEvent::Error(m)) => assert_eq!(m, "x"),
        other => panic!("unexpected {:?}", other),
    }
}

#[test]
fn frames_far_from_the_window_shape_are_filled() {
    let strip = fill_frame(1920, 20, vec![7u8; 1920 * 20 * 3]).expect("strip fills");
    assert_eq!(strip.len(), 640 * 480 * 3);
    assert!(strip.iter().all(|b| *b == 7));
    let b64 = encode_frame(200, 2, vec![50u8; 200 * 2 * 3]).expect("strip encodes");
    assert_eq!(b64.len() % 4, 0);
}
