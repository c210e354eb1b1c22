//! The state of the chat screen and how keys, mouse wheel and streamed events
//! change it: the lines shown, the buffers of the reply being streamed, the
//! plan, the usage figures and the scroll position.

use vstd::prelude::*;

use crate::events::{parse_spec, EventKind, UserAction};
use crate::message::{Role, Usage};
use crate::session::{plan_view, StreamEvent, StreamEventView, Task, TaskStatus, TaskView};
use crate::skill::SkillRegistry;
use crate::text::{decimal, join, join_with, lines_of, push_decimal, split_lines, trim, trimmed};

verus! {

/// One entry of the chat history as shown.
#[derive(Clone, Debug)]
pub enum DisplayLine {
    /// A message after the label of its role; an empty message shows the label only.
    Labeled { role: Role, message: String },
    /// An error, after an `Error: ` label.
    Error(String),
    /// Markdown text, shown dimmed where it is the model's reasoning.
    Markdown { text: String, dimmed: bool },
    /// An empty separating line.
    Blank,
}

pub enum DisplayLineView {
    Labeled { role: Role, message: Seq<char> },
    Error(Seq<char>),
    Markdown { text: Seq<char>, dimmed: bool },
    Blank,
}

impl View for DisplayLine {
    type V = DisplayLineView;

    open spec fn view(&self) -> DisplayLineView {
        match self {
            DisplayLine::Labeled { role, message } => DisplayLineView::Labeled {
                role: *role,
                message: message@,
            },
            DisplayLine::Error(e) => DisplayLineView::Error(e@),
            DisplayLine::Markdown { text, dimmed } => DisplayLineView::Markdown {
                text: text@,
                dimmed: *dimmed,
            },
            DisplayLine::Blank => DisplayLineView::Blank,
        }
    }
}

pub open spec fn display_view(d: Seq<DisplayLine>) -> Seq<DisplayLineView> {
    d.map_values(|l: DisplayLine| l@)
}

/// The state of the chat screen.
pub struct ChatState {
    pub exit: bool,
    pub is_generating: bool,
    pub was_reasoning: bool,
    pub plan: Vec<Task>,
    pub goal: Option<String>,
    pub active_reasoning_buffer: String,
    pub active_content_buffer: String,
    pub last_usage: Usage,
    pub last_latency_ms: Option<u128>,
    pub chat_display: Vec<DisplayLine>,
    pub last_event_kind: EventKind,
    pub scroll: u16,
    pub auto_scroll: bool,
}

pub struct ChatView {
    pub exit: bool,
    pub is_generating: bool,
    pub was_reasoning: bool,
    pub plan: Seq<TaskView>,
    pub goal: Option<Seq<char>>,
    pub reasoning: Seq<char>,
    pub content: Seq<char>,
    pub last_usage: Usage,
    pub last_latency_ms: Option<u128>,
    pub display: Seq<DisplayLineView>,
    pub last_event_kind: EventKind,
    pub scroll: u16,
    pub auto_scroll: bool,
}

impl View for ChatState {
    type V = ChatView;

    open spec fn view(&self) -> ChatView {
        ChatView {
            exit: self.exit,
            is_generating: self.is_generating,
            was_reasoning: self.was_reasoning,
            plan: plan_view(self.plan@),
            goal: crate::message::opt_view(self.goal),
            reasoning: self.active_reasoning_buffer@,
            content: self.active_content_buffer@,
            last_usage: self.last_usage,
            last_latency_ms: self.last_latency_ms,
            display: display_view(self.chat_display@),
            last_event_kind: self.last_event_kind,
            scroll: self.scroll,
            auto_scroll: self.auto_scroll,
        }
    }
}

/// The kind of a streamed event: reasoning, content and tool runs each have
/// their own, every other event is `Other`.
pub open spec fn kind_of(e: StreamEventView) -> EventKind {
    match e {
        StreamEventView::Reasoning(_) => EventKind::Reasoning,
        StreamEventView::Content(_) => EventKind::Content,
        StreamEventView::ToolExecution { .. } => EventKind::Tool,
        _ => EventKind::Other,
    }
}

/// The chat after the streamed buffers are moved into the shown history:
/// the reasoning (dimmed) and the content as markdown where not empty, then a
/// blank line; both buffers end empty.
pub open spec fn commit_spec(v: ChatView) -> ChatView {
    let d1 = if v.reasoning.len() > 0 {
        v.display.push(DisplayLineView::Markdown { text: v.reasoning, dimmed: true })
    } else {
        v.display
    };
    let d2 = if v.content.len() > 0 {
        d1.push(DisplayLineView::Markdown { text: v.content, dimmed: false })
    } else {
        d1
    };
    ChatView {
        display: d2.push(DisplayLineView::Blank),
        reasoning: Seq::empty(),
        content: Seq::empty(),
        ..v
    }
}

pub open spec fn labeled(v: ChatView, role: Role, message: Seq<char>) -> ChatView {
    ChatView { display: v.display.push(DisplayLineView::Labeled { role, message }), ..v }
}

pub open spec fn with_error(v: ChatView, e: Seq<char>) -> ChatView {
    ChatView { display: v.display.push(DisplayLineView::Error(e)), ..v }
}

pub open spec fn tool_run_text(name: Seq<char>, args: Seq<char>) -> Seq<char> {
    "\nExecuting "@ + name + " with "@ + args + "\n"@
}

pub open spec fn tool_error_text(name: Seq<char>, args: Seq<char>, error: Seq<char>) -> Seq<
    char,
> {
    "\nFailed "@ + name + " with "@ + args + ", "@ + error + "\n"@
}

pub open spec fn evaluating_text() -> Seq<char> {
    "\nEvaluating Plan Progress"@
}

/// The chat after the streamed event `e`, and whether the prompt input is
/// to be cleared. A change of the kind of reasoning, content or tool event
/// first commits the buffers.
pub open spec fn stream_step(v: ChatView, e: StreamEventView) -> (ChatView, bool) {
    let k = kind_of(e);
    let v1 = if k != EventKind::Other && v.last_event_kind != k {
        commit_spec(v)
    } else {
        v
    };
    let v2 = if k != EventKind::Other {
        ChatView { last_event_kind: k, ..v1 }
    } else {
        v1
    };
    match e {
        StreamEventView::Reasoning(t) => (ChatView { reasoning: v2.reasoning + t, ..v2 }, false),
        StreamEventView::Content(t) => (ChatView { content: v2.content + t, ..v2 }, false),
        StreamEventView::ToolExecution { name, args } => (
            labeled(v2, Role::Tool, tool_run_text(name, args)),
            false,
        ),
        StreamEventView::ToolError { name, args, error } => (
            with_error(v2, tool_error_text(name, args, error)),
            false,
        ),
        StreamEventView::PlanUpdated(p) => (ChatView { plan: p, ..v2 }, false),
        StreamEventView::EvaluateStart => (labeled(v2, Role::Info, evaluating_text()), false),
        StreamEventView::Usage(u) => (ChatView { last_usage: u, ..v2 }, false),
        StreamEventView::Latency(ms) => (ChatView { last_latency_ms: Some(ms), ..v2 }, false),
        StreamEventView::Error(err) => (
            ChatView { is_generating: false, ..with_error(v2, err) },
            true,
        ),
        StreamEventView::Done => (ChatView { is_generating: false, ..commit_spec(v2) }, true),
    }
}

/// A key that the chat reacts to.
#[derive(Clone, Copy, Debug, PartialEq, Eq, Structural)]
pub enum KeyInput {
    Esc,
    PageUp,
    PageDown,
    Enter,
    /// Any other key press, which goes to the prompt input.
    Other,
}

/// A mouse event that the chat reacts to.
#[derive(Clone, Copy, Debug, PartialEq, Eq, Structural)]
pub enum MouseInput {
    ScrollUp,
    ScrollDown,
    Other,
}

/// What the caller does after a key.
#[derive(Debug)]
pub enum KeyOutcome {
    /// Nothing more.
    Nothing,
    /// Hand the key to the prompt input.
    ForwardToInput,
    /// Clear the prompt input and start the action.
    Submit(UserAction),
}

pub open spec fn sat_sub(a: u16, b: u16) -> u16 {
    if a >= b {
        (a - b) as u16
    } else {
        0
    }
}

pub open spec fn sat_add(a: u16, b: u16) -> u16 {
    if a + b <= u16::MAX {
        (a + b) as u16
    } else {
        u16::MAX
    }
}

/// The chat after the prompt `raw` is submitted: the prompt after the user's
/// label, an empty assistant line, and generation under way.
pub open spec fn submitted(v: ChatView, raw: Seq<char>) -> ChatView {
    ChatView {
        is_generating: true,
        was_reasoning: false,
        auto_scroll: true,
        ..labeled(labeled(v, Role::User, raw), Role::Assistant, Seq::empty())
    }
}

/// The number of screen rows a line of width `w` takes in `inner` columns.
pub open spec fn rows_of(w: nat, inner: nat) -> nat {
    (if w >= 1 {
        (w - 1) as nat
    } else {
        0nat
    }) / inner + 1
}

pub open spec fn total_rows(widths: Seq<usize>, inner: nat) -> nat
    decreases widths.len(),
{
    if widths.len() == 0 {
        0
    } else {
        total_rows(widths.drop_last(), inner) + rows_of(widths.last() as nat, inner)
    }
}

/// The columns inside the history's border, at least one.
pub open spec fn inner_width(area_width: u16) -> nat {
    if area_width >= 3 {
        (area_width - 2) as nat
    } else {
        1
    }
}

/// The greatest scroll offset: the rows past those that fit inside the border.
pub open spec fn max_scroll(widths: Seq<usize>, area_width: u16, area_height: u16) -> u16 {
    sat_sub(total_rows(widths, inner_width(area_width)) as u16, sat_sub(area_height, 2))
}

pub open spec fn plan_prefix(s: TaskStatus) -> Seq<char> {
    match s {
        TaskStatus::Completed => "[x] "@,
        TaskStatus::InProgress => "[>] "@,
        TaskStatus::Pending => "[ ] "@,
    }
}

pub open spec fn role_label(role: Role) -> Seq<char> {
    match role {
        Role::User => "User: "@,
        Role::Assistant => "Assistant: "@,
        Role::System => "System: "@,
        Role::Tool => "Tool: "@,
        Role::Info => "INFO: "@,
    }
}

/// The footer of the history: the token counts of the last completion, the
/// end-to-end latency of the last evaluation where known, then `metrics`.
pub open spec fn footer_spec(u: Usage, latency_ms: Option<u128>, metrics: Seq<char>) -> Seq<char> {
    " In: "@ + decimal(u.prompt_tokens as nat) + " | Out: "@ + decimal(u.completion_tokens as nat)
        + " | Total: "@ + decimal(u.total_tokens as nat) + match latency_ms {
        Some(ms) => " | End-to-end: "@ + decimal(ms as nat) + "ms"@,
        None => Seq::empty(),
    } + metrics + " "@
}

/// The footer of the history (see `footer_spec`); `metrics` is the text of
/// the timing figures, empty where there are none.
pub fn footer_text(usage: Usage, latency_ms: Option<u128>, metrics: &str) -> (r: String)
    ensures
        r@ == footer_spec(usage, latency_ms, metrics@),
{
    let mut r = String::from_str(" In: ");
    push_decimal(&mut r, usage.prompt_tokens as u128);
    r.append(" | Out: ");
    push_decimal(&mut r, usage.completion_tokens as u128);
    r.append(" | Total: ");
    push_decimal(&mut r, usage.total_tokens as u128);
    let ghost before = r@;
    match latency_ms {
        Some(ms) => {
            r.append(" | End-to-end: ");
            push_decimal(&mut r, ms);
            r.append("ms");
        },
        None => {},
    }
    let ghost tail = match latency_ms {
        Some(ms) => " | End-to-end: "@ + decimal(ms as nat) + "ms"@,
        None => Seq::<char>::empty(),
    };
    assert(r@ =~= before + tail);
    r.append(metrics);
    r.append(" ");
    r
}

/// The label shown before a message of `role`.
pub fn role_prefix(role: Role) -> (r: &'static str)
    ensures
        r@ == role_label(role),
{
    match role {
        Role::User => "User: ",
        Role::Assistant => "Assistant: ",
        Role::System => "System: ",
        Role::Tool => "Tool: ",
        Role::Info => "INFO: ",
    }
}

/// The line of the plan panel for `task`: a check box for its status, then
/// its description.
pub fn plan_line(task: &Task) -> (r: String)
    ensures
        r@ == plan_prefix(task.status) + task.description@,
{
    let mut r = match task.status {
        TaskStatus::Completed => String::from_str("[x] "),
        TaskStatus::InProgress => String::from_str("[>] "),
        TaskStatus::Pending => String::from_str("[ ] "),
    };
    r.append(task.description.as_str());
    r
}

/// The rows that lines of the widths `widths` take in `inner` columns.
fn count_rows(widths: &Vec<usize>, inner: usize) -> (r: u16)
    requires
        inner >= 1,
        total_rows(widths@, inner as nat) <= u16::MAX,
    ensures
        r == total_rows(widths@, inner as nat),
{
    let mut total: u16 = 0;
    let mut i: usize = 0;
    while i < widths.len()
        invariant
            inner >= 1,
            i <= widths.len(),
            total_rows(widths@, inner as nat) <= u16::MAX,
            total == total_rows(widths@.take(i as int), inner as nat),
        decreases widths.len() - i,
    {
        proof {
            lemma_rows_prefix(widths@, inner as nat, i as int + 1);
        }
        assert(widths@.take(i + 1).drop_last() =~= widths@.take(i as int));
        let w = widths[i];
        let before = if w >= 1 {
            w - 1
        } else {
            0
        };
        let rows = (before / inner) + 1;
        total = total + (rows as u16);
        i = i + 1;
    }
    assert(widths@.take(widths.len() as int) =~= widths@);
    total
}

proof fn lemma_rows_prefix(widths: Seq<usize>, inner: nat, n: int)
    requires
        inner >= 1,
        0 <= n <= widths.len(),
    ensures
        total_rows(widths.take(n), inner) <= total_rows(widths, inner),
    decreases widths.len() - n,
{
    if n < widths.len() {
        lemma_rows_prefix(widths, inner, n + 1);
        assert(widths.take(n + 1).drop_last() =~= widths.take(n));
    } else {
        assert(widths.take(n) =~= widths);
    }
}

impl ChatState {
    /// A chat with nothing shown yet, showing `plan`, scrolled to the end.
    pub fn new(plan: Vec<Task>) -> (r: ChatState)
        ensures
            r@ == (ChatView {
                exit: false,
                is_generating: false,
                was_reasoning: false,
                plan: plan_view(plan@),
                goal: None,
                reasoning: Seq::empty(),
                content: Seq::empty(),
                last_usage: Usage { prompt_tokens: 0, completion_tokens: 0, total_tokens: 0 },
                last_latency_ms: None,
                display: Seq::empty(),
                last_event_kind: EventKind::Nothing,
                scroll: 0,
                auto_scroll: true,
            }),
    {
        let r = ChatState {
            exit: false,
            is_generating: false,
            was_reasoning: false,
            plan,
            goal: None,
            active_reasoning_buffer: String::new(),
            active_content_buffer: String::new(),
            last_usage: Usage { prompt_tokens: 0, completion_tokens: 0, total_tokens: 0 },
            last_latency_ms: None,
            chat_display: Vec::new(),
            last_event_kind: EventKind::Nothing,
            scroll: 0,
            auto_scroll: true,
        };
        assert(r@.display =~= Seq::<DisplayLineView>::empty());
        r
    }

    /// What shows the reply being streamed: the reasoning after a
    /// `Thinking: ` label where there is any, then the lines of the content.
    pub fn streaming_lines(&self) -> (r: (Option<String>, Vec<String>))
        ensures
            match r.0 {
                Some(t) => self@.reasoning.len() > 0 && t@ == "Thinking: "@ + self@.reasoning,
                None => self@.reasoning.len() == 0,
            },
            r.1@.map_values(|l: String| l@) == lines_of(self@.content),
    {
        let thinking = if self.active_reasoning_buffer.as_str().unicode_len() > 0 {
            let mut t = String::from_str("Thinking: ");
            t.append(self.active_reasoning_buffer.as_str());
            Some(t)
        } else {
            None
        };
        (thinking, split_lines(self.active_content_buffer.as_str()))
    }

    /// Asks the main loop to stop.
    pub fn exit(&mut self)
        ensures
            final(self)@ == (ChatView { exit: true, ..old(self)@ }),
    {
        self.exit = true;
    }

    /// Shows `message` after the label of `role`.
    pub fn append_chat_display(&mut self, role: Role, message: String)
        ensures
            final(self)@ == labeled(old(self)@, role, message@),
    {
        self.chat_display.push(DisplayLine::Labeled { role, message });
        assert(final(self)@.display =~= old(self)@.display.push(
            DisplayLineView::Labeled { role, message: message@ },
        ));
    }

    /// Shows the error `err`.
    pub fn append_error(&mut self, err: &str)
        ensures
            final(self)@ == with_error(old(self)@, err@),
    {
        self.chat_display.push(DisplayLine::Error(String::from_str(err)));
        assert(final(self)@.display =~= old(self)@.display.push(DisplayLineView::Error(err@)));
    }

    /// Moves the streamed reasoning and content into the shown history, as
    /// markdown, followed by a blank line.
    pub fn commit_markdown_buffers(&mut self)
        ensures
            final(self)@ == commit_spec(old(self)@),
    {
        let ghost v = self@;
        if self.active_reasoning_buffer.as_str().unicode_len() > 0 {
            let mut text = String::new();
            std::mem::swap(&mut text, &mut self.active_reasoning_buffer);
            self.chat_display.push(DisplayLine::Markdown { text, dimmed: true });
        }
        let ghost d1 = self@.display;
        assert(d1 =~= (if v.reasoning.len() > 0 {
            v.display.push(DisplayLineView::Markdown { text: v.reasoning, dimmed: true })
        } else {
            v.display
        }));
        if self.active_content_buffer.as_str().unicode_len() > 0 {
            let mut text = String::new();
            std::mem::swap(&mut text, &mut self.active_content_buffer);
            self.chat_display.push(DisplayLine::Markdown { text, dimmed: false });
        }
        let ghost d2 = self@.display;
        assert(d2 =~= (if v.content.len() > 0 {
            d1.push(DisplayLineView::Markdown { text: v.content, dimmed: false })
        } else {
            d1
        }));
        self.chat_display.push(DisplayLine::Blank);
        assert(self@.display =~= d2.push(DisplayLineView::Blank));
        assert(self@.reasoning =~= Seq::<char>::empty());
        assert(self@.content =~= Seq::<char>::empty());
    }

    /// Applies a streamed event to the chat; returns whether the prompt input
    /// is to be cleared.
    pub fn handle_stream_event(&mut self, event: StreamEvent) -> (r: bool)
        ensures
            (final(self)@, r) == stream_step(old(self)@, event@),
    {
        let kind = match &event {
            StreamEvent::Reasoning(_) => EventKind::Reasoning,
            StreamEvent::Content(_) => EventKind::Content,
            StreamEvent::ToolExecution { .. } => EventKind::Tool,
            _ => EventKind::Other,
        };
        if kind != EventKind::Other && self.last_event_kind != kind {
            self.commit_markdown_buffers();
        }
        if kind != EventKind::Other {
            self.last_event_kind = kind;
        }
        match event {
            StreamEvent::Reasoning(text) => {
                self.active_reasoning_buffer.append(text.as_str());
                false
            },
            StreamEvent::Content(text) => {
                self.active_content_buffer.append(text.as_str());
                false
            },
            StreamEvent::ToolExecution { name, args } => {
                let mut m = String::from_str("\nExecuting ");
                m.append(name.as_str());
                m.append(" with ");
                m.append(args.as_str());
                m.append("\n");
                self.append_chat_display(Role::Tool, m);
                false
            },
            StreamEvent::ToolError { name, args, error } => {
                let mut m = String::from_str("\nFailed ");
                m.append(name.as_str());
                m.append(" with ");
                m.append(args.as_str());
                m.append(", ");
                m.append(error.as_str());
                m.append("\n");
                self.append_error(m.as_str());
                false
            },
            StreamEvent::PlanUpdated(new_plan) => {
                self.plan = new_plan;
                false
            },
            StreamEvent::EvaluateStart => {
                self.append_chat_display(Role::Info, String::from_str("\nEvaluating Plan Progress"));
                false
            },
            StreamEvent::Usage(usage) => {
                self.last_usage = usage;
                false
            },
            StreamEvent::Latency(ms) => {
                self.last_latency_ms = Some(ms);
                false
            },
            StreamEvent::Error(err) => {
                self.append_error(err.as_str());
                self.is_generating = false;
                true
            },
            StreamEvent::Done => {
                self.commit_markdown_buffers();
                self.is_generating = false;
                true
            },
        }
    }

    /// Scrolls with the mouse wheel by three rows; scrolling up stops
    /// following the end of the history.
    pub fn handle_mouse_event(&mut self, mouse: MouseInput)
        ensures
            final(self)@ == match mouse {
                MouseInput::ScrollUp => ChatView {
                    auto_scroll: false,
                    scroll: sat_sub(old(self)@.scroll, 3),
                    ..old(self)@
                },
                MouseInput::ScrollDown => ChatView {
                    scroll: sat_add(old(self)@.scroll, 3),
                    ..old(self)@
                },
                MouseInput::Other => old(self)@,
            },
    {
        match mouse {
            MouseInput::ScrollUp => {
                self.auto_scroll = false;
                self.scroll = self.scroll.saturating_sub(3);
            },
            MouseInput::ScrollDown => {
                self.scroll = self.scroll.saturating_add(3);
            },
            MouseInput::Other => {},
        }
    }

    /// Reacts to a key: Esc quits, the page keys scroll by five rows, Enter
    /// submits the prompt made of `input_lines` unless a reply is being
    /// generated or the prompt is blank, any other key goes to the input
    /// unless a reply is being generated.
    pub fn handle_key_event(
        &mut self,
        key: KeyInput,
        input_lines: &Vec<String>,
        registry: &SkillRegistry,
    ) -> (r: KeyOutcome)
        ensures
            ({
                let v = old(self)@;
                let raw = join(input_lines@.map_values(|l: String| l@), "\n"@);
                match key {
                    KeyInput::Esc => final(self)@ == (ChatView { exit: true, ..v })
                        && r is Nothing,
                    KeyInput::PageUp => final(self)@ == (ChatView {
                        auto_scroll: false,
                        scroll: sat_sub(v.scroll, 5),
                        ..v
                    }) && r is Nothing,
                    KeyInput::PageDown => final(self)@ == (ChatView {
                        scroll: sat_add(v.scroll, 5),
                        ..v
                    }) && r is Nothing,
                    KeyInput::Enter => if v.is_generating || trim(raw).len() == 0 {
                        final(self)@ == v && r is Nothing
                    } else {
                        &&& final(self)@ == submitted(v, raw)
                        &&& r matches KeyOutcome::Submit(a) && a@ == parse_spec(raw, registry@)
                    },
                    KeyInput::Other => final(self)@ == v && if v.is_generating {
                        r is Nothing
                    } else {
                        r is ForwardToInput
                    },
                }
            }),
    {
        match key {
            KeyInput::Esc => {
                self.exit();
                KeyOutcome::Nothing
            },
            KeyInput::PageUp => {
                self.auto_scroll = false;
                self.scroll = self.scroll.saturating_sub(5);
                KeyOutcome::Nothing
            },
            KeyInput::PageDown => {
                self.scroll = self.scroll.saturating_add(5);
                KeyOutcome::Nothing
            },
            KeyInput::Enter => {
                if self.is_generating {
                    return KeyOutcome::Nothing;
                }
                let raw_prompt = join_with(input_lines, "\n");
                let t = trimmed(raw_prompt.as_str());
                if t.as_str().unicode_len() == 0 {
                    return KeyOutcome::Nothing;
                }
                self.append_chat_display(Role::User, raw_prompt.clone());
                self.append_chat_display(Role::Assistant, String::new());
                let action = UserAction::parse(raw_prompt.as_str(), registry);
                self.is_generating = true;
                self.was_reasoning = false;
                self.auto_scroll = true;
                KeyOutcome::Submit(action)
            },
            KeyInput::Other => {
                if self.is_generating {
                    KeyOutcome::Nothing
                } else {
                    KeyOutcome::ForwardToInput
                }
            },
        }
    }

    /// Fits the scroll offset to the history lines of widths `line_widths`
    /// in an area of `area_width` by `area_height` with a border: following
    /// the end, it scrolls to the end; else it stays within the end, and
    /// follows the end again once it reaches it.
    pub fn fit_scroll(&mut self, line_widths: &Vec<usize>, area_width: u16, area_height: u16)
        requires
            total_rows(line_widths@, inner_width(area_width)) <= u16::MAX,
        ensures
            ({
                let v = old(self)@;
                let m = max_scroll(line_widths@, area_width, area_height);
                if v.auto_scroll {
                    final(self)@ == (ChatView { scroll: m, ..v })
                } else {
                    let s = if v.scroll <= m {
                        v.scroll
                    } else {
                        m
                    };
                    final(self)@ == (ChatView { scroll: s, auto_scroll: s == m, ..v })
                }
            }),
    {
        let inner = if area_width >= 3 {
            (area_width - 2) as usize
        } else {
            1
        };
        let total = count_rows(line_widths, inner);
        let height = area_height.saturating_sub(2);
        let max = total.saturating_sub(height);
        if self.auto_scroll {
            self.scroll = max;
        } else {
            self.scroll = if self.scroll <= max {
                self.scroll
            } else {
                max
            };
            if self.scroll == max {
                self.auto_scroll = true;
            }
        }
    }
}

/// The chat after the content events with the texts `ts`, in order.
pub open spec fn after_contents(v: ChatView, ts: Seq<Seq<char>>) -> ChatView
    decreases ts.len(),
{
    if ts.len() == 0 {
        v
    } else {
        after_contents(stream_step(v, StreamEventView::Content(ts[0])).0, ts.drop_first())
    }
}

/// The texts `ts` joined in order.
pub open spec fn joined(ts: Seq<Seq<char>>) -> Seq<char>
    decreases ts.len(),
{
    if ts.len() == 0 {
        Seq::empty()
    } else {
        ts[0] + joined(ts.drop_first())
    }
}

/// Law: a content event that follows content appends its text to the reply
/// being streamed; the shown lines and the reasoning stay as they were.
pub proof fn law_content_appends(v: ChatView, t: Seq<char>)
    requires
        v.last_event_kind == EventKind::Content,
    ensures
        ({
            let w = stream_step(v, StreamEventView::Content(t)).0;
            &&& w.content == v.content + t
            &&& w.reasoning == v.reasoning
            &&& w.display == v.display
            &&& w.last_event_kind == EventKind::Content
        }),
{
}

/// Law: a run of content events leaves the reply being streamed as it was,
/// followed by every text of the run in order.
pub proof fn law_content_run(v: ChatView, ts: Seq<Seq<char>>)
    requires
        v.last_event_kind == EventKind::Content,
    ensures
        after_contents(v, ts).content == v.content + joined(ts),
        after_contents(v, ts).display == v.display,
    decreases ts.len(),
{
    if ts.len() == 0 {
        assert(v.content + Seq::<char>::empty() =~= v.content);
    } else {
        let w = stream_step(v, StreamEventView::Content(ts[0])).0;
        law_content_appends(v, ts[0]);
        law_content_run(w, ts.drop_first());
        assert(v.content + (ts[0] + joined(ts.drop_first())) =~= (v.content + ts[0]) + joined(
            ts.drop_first(),
        ));
    }
}

/// Law: the end of a reply moves the streamed content, where there is some
/// and no reasoning, into the shown lines as one markdown line followed by
/// a blank line, and empties the buffers.
pub proof fn law_done_commits_content(v: ChatView)
    requires
        v.reasoning.len() == 0,
        v.content.len() > 0,
    ensures
        ({
            let w = stream_step(v, StreamEventView::Done).0;
            &&& w.display == v.display.push(
                DisplayLineView::Markdown { text: v.content, dimmed: false },
            ).push(DisplayLineView::Blank)
            &&& w.content.len() == 0
            &&& w.reasoning.len() == 0
            &&& !w.is_generating
        }),
{
}

/// Law: a reasoning event that follows reasoning appends its text to the
/// reasoning being streamed; the shown lines and the content stay as they
/// were.
pub proof fn law_reasoning_appends(v: ChatView, t: Seq<char>)
    requires
        v.last_event_kind == EventKind::Reasoning,
    ensures
        ({
            let w = stream_step(v, StreamEventView::Reasoning(t)).0;
            &&& w.reasoning == v.reasoning + t
            &&& w.content == v.content
            &&& w.display == v.display
        }),
{
}

} // verus!
