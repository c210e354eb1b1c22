//! The agent loop: ask the model for a reply, record it, run the tools it
//! calls and record their outputs, and ask again while a tool's outcome needs
//! the model to see it. The caller performs each action and reports what
//! came of it; this module decides what happens next.

use vstd::prelude::*;

use crate::message::{
    calls_view, history_view, lemma_history_push, Message, MessageView, ToolCall,
    ToolCallView, Usage,
};
use crate::session::{StreamEvent, StreamEventView};

verus! {

/// What the model produced for one request.
#[derive(Debug)]
pub struct GenerationResult {
    pub reasoning: String,
    pub content: String,
    pub tool_calls: Vec<ToolCall>,
    pub usage: Option<Usage>,
}

pub struct GenerationView {
    pub reasoning: Seq<char>,
    pub content: Seq<char>,
    pub tool_calls: Seq<ToolCallView>,
    pub usage: Option<Usage>,
}

impl View for GenerationResult {
    type V = GenerationView;

    open spec fn view(&self) -> GenerationView {
        GenerationView {
            reasoning: self.reasoning@,
            content: self.content@,
            tool_calls: calls_view(self.tool_calls@),
            usage: self.usage,
        }
    }
}

/// The assistant message that records a reply: empty content is left out,
/// reasoning is kept only beside tool calls, and no tool calls are left out.
pub open spec fn assistant_view(g: GenerationView) -> MessageView {
    MessageView::Assistant {
        content: if g.content.len() == 0 {
            None
        } else {
            Some(g.content)
        },
        reasoning: if g.tool_calls.len() == 0 || g.reasoning.len() == 0 {
            None
        } else {
            Some(g.reasoning)
        },
        name: None,
        tool_calls: if g.tool_calls.len() == 0 {
            None
        } else {
            Some(g.tool_calls)
        },
    }
}

/// The assistant message that records the reply `result`.
pub fn assistant_message(result: &GenerationResult) -> (r: Message)
    ensures
        r@ == assistant_view(result@),
{
    let no_calls = result.tool_calls.len() == 0;
    let content = if result.content.as_str().unicode_len() == 0 {
        None
    } else {
        Some(result.content.clone())
    };
    let reasoning = if no_calls || result.reasoning.as_str().unicode_len() == 0 {
        None
    } else {
        Some(result.reasoning.clone())
    };
    let tool_calls = if no_calls {
        None
    } else {
        Some(crate::message::copy_calls(&result.tool_calls))
    };
    Message::Assistant { content, reasoning, name: None, tool_calls }
}

pub open spec fn or_empty(o: Option<Seq<char>>) -> Seq<char> {
    match o {
        Some(s) => s,
        None => Seq::empty(),
    }
}

/// `o.unwrap_or_default()` for an optional string.
fn text_or_empty(o: &Option<String>) -> (r: String)
    ensures
        r@ == or_empty(crate::message::opt_view(*o)),
{
    match o {
        Some(s) => s.clone(),
        None => String::new(),
    }
}

/// Where the loop stands.
#[derive(Clone, Copy, Debug, PartialEq, Eq, Structural)]
pub enum Phase {
    /// Waiting for the model's reply.
    Generating,
    /// Waiting for the outcome of the current tool call.
    RunningTool,
    /// Finished or failed.
    Over,
}

/// What the caller reports.
#[derive(Debug)]
pub enum AgentEvent {
    /// The model replied.
    Generated(GenerationResult),
    /// The request to the model failed with this error.
    GenerationFailed(String),
    /// No tool of the current call's name is registered.
    ToolMissing,
    /// The current tool ran; `roundtrip_on_success` is what the tool says of
    /// whether a success needs another reply of the model.
    ToolFinished { outcome: Result<String, String>, roundtrip_on_success: bool },
}

pub enum AgentEventView {
    Generated(GenerationView),
    GenerationFailed(Seq<char>),
    ToolMissing,
    ToolFinished { outcome: Result<Seq<char>, Seq<char>>, roundtrip_on_success: bool },
}

impl View for AgentEvent {
    type V = AgentEventView;

    open spec fn view(&self) -> AgentEventView {
        match self {
            AgentEvent::Generated(g) => AgentEventView::Generated(g@),
            AgentEvent::GenerationFailed(e) => AgentEventView::GenerationFailed(e@),
            AgentEvent::ToolMissing => AgentEventView::ToolMissing,
            AgentEvent::ToolFinished { outcome, roundtrip_on_success } => {
                AgentEventView::ToolFinished {
                    outcome: match outcome {
                        Ok(m) => Ok(m@),
                        Err(e) => Err(e@),
                    },
                    roundtrip_on_success: *roundtrip_on_success,
                }
            },
        }
    }
}

/// What the caller does next.
#[derive(Debug)]
pub enum AgentAction {
    /// Send the history to the model.
    Generate,
    /// Report that the tool `name` runs with `args`, then look it up and run it.
    RunTool { name: String, args: String },
    /// Report that the loop is done; the loop succeeded.
    Finish,
    /// The loop failed with this error.
    Fail(String),
}

pub enum AgentActionView {
    Generate,
    RunTool { name: Seq<char>, args: Seq<char> },
    Finish,
    Fail(Seq<char>),
}

impl View for AgentAction {
    type V = AgentActionView;

    open spec fn view(&self) -> AgentActionView {
        match self {
            AgentAction::Generate => AgentActionView::Generate,
            AgentAction::RunTool { name, args } => AgentActionView::RunTool {
                name: name@,
                args: args@,
            },
            AgentAction::Finish => AgentActionView::Finish,
            AgentAction::Fail(e) => AgentActionView::Fail(e@),
        }
    }
}

/// The state of one run of the agent loop.
pub struct AgentLoop {
    phase: Phase,
    calls: Vec<ToolCall>,
    next: usize,
    requires_roundtrip: bool,
}

pub struct AgentLoopView {
    pub phase: Phase,
    pub calls: Seq<ToolCallView>,
    pub next: nat,
    pub requires_roundtrip: bool,
}

impl View for AgentLoop {
    type V = AgentLoopView;

    closed spec fn view(&self) -> AgentLoopView {
        AgentLoopView {
            phase: self.phase,
            calls: calls_view(self.calls@),
            next: self.next as nat,
            requires_roundtrip: self.requires_roundtrip,
        }
    }
}

pub open spec fn call_name(c: ToolCallView) -> Seq<char> {
    or_empty(c.name)
}

pub open spec fn call_args(c: ToolCallView) -> Seq<char> {
    or_empty(c.arguments)
}

pub open spec fn call_id(c: ToolCallView) -> Seq<char> {
    or_empty(c.id)
}

pub open spec fn missing_tool_error(name: Seq<char>) -> Seq<char> {
    "Tool '"@ + name + "' not found in registry"@
}

/// The well-formed states: while a tool runs, its call is one of the calls.
pub open spec fn loop_wf(s: AgentLoopView) -> bool {
    s.phase == Phase::RunningTool ==> s.next < s.calls.len()
}

/// Whether `e` is what the caller can report in the state `s`.
pub open spec fn accepts(s: AgentLoopView, e: AgentEventView) -> bool {
    match s.phase {
        Phase::Generating => e is Generated || e is GenerationFailed,
        Phase::RunningTool => e is ToolMissing || e is ToolFinished,
        Phase::Over => false,
    }
}

/// The next state, the message recorded in the history (if any), the action
/// and the event reported to the user interface (if any).
pub open spec fn step_spec(s: AgentLoopView, e: AgentEventView) -> (
    AgentLoopView,
    Option<MessageView>,
    AgentActionView,
    Option<StreamEventView>,
) {
    match e {
        AgentEventView::Generated(g) => if g.tool_calls.len() == 0 {
            (
                AgentLoopView { phase: Phase::Over, ..s },
                Some(assistant_view(g)),
                AgentActionView::Finish,
                None,
            )
        } else {
            (
                AgentLoopView {
                    phase: Phase::RunningTool,
                    calls: g.tool_calls,
                    next: 0,
                    requires_roundtrip: false,
                },
                Some(assistant_view(g)),
                AgentActionView::RunTool {
                    name: call_name(g.tool_calls[0]),
                    args: call_args(g.tool_calls[0]),
                },
                None,
            )
        },
        AgentEventView::GenerationFailed(err) => (
            AgentLoopView { phase: Phase::Over, ..s },
            None,
            AgentActionView::Fail(err),
            None,
        ),
        AgentEventView::ToolMissing => (
            AgentLoopView { phase: Phase::Over, ..s },
            None,
            AgentActionView::Fail(missing_tool_error(call_name(s.calls[s.next as int]))),
            None,
        ),
        AgentEventView::ToolFinished { outcome, roundtrip_on_success } => {
            let c = s.calls[s.next as int];
            let rr = match outcome {
                Ok(_) => s.requires_roundtrip || roundtrip_on_success,
                Err(_) => true,
            };
            let output = match outcome {
                Ok(m) => m,
                Err(err) => err,
            };
            let notice = match outcome {
                Ok(_) => None,
                Err(err) => Some(
                    StreamEventView::ToolError { name: call_name(c), args: call_args(c), error: err },
                ),
            };
            let n = s.next + 1;
            let msg = Some(MessageView::Tool { content: output, tool_call_id: call_id(c) });
            if n < s.calls.len() {
                (
                    AgentLoopView { next: n, requires_roundtrip: rr, ..s },
                    msg,
                    AgentActionView::RunTool {
                        name: call_name(s.calls[n as int]),
                        args: call_args(s.calls[n as int]),
                    },
                    notice,
                )
            } else if rr {
                (
                    AgentLoopView {
                        phase: Phase::Generating,
                        next: n,
                        requires_roundtrip: rr,
                        ..s
                    },
                    msg,
                    AgentActionView::Generate,
                    notice,
                )
            } else {
                (
                    AgentLoopView { phase: Phase::Over, next: n, requires_roundtrip: rr, ..s },
                    msg,
                    AgentActionView::Finish,
                    notice,
                )
            }
        },
    }
}

/// Law: a tool that fails always brings the loop back to the model: after it
/// the loop runs the next tool of the reply or asks the model again, and
/// never finishes.
pub proof fn law_tool_error_roundtrips(s: AgentLoopView, err: Seq<char>, rs: bool)
    requires
        loop_wf(s),
        s.phase == Phase::RunningTool,
    ensures
        ({
            let (t, _, a, _) = step_spec(
                s,
                AgentEventView::ToolFinished { outcome: Err(err), roundtrip_on_success: rs },
            );
            &&& !(a is Finish)
            &&& a is Generate ==> t.phase == Phase::Generating
            &&& t.requires_roundtrip
        }),
{
}

/// Law: every tool outcome is recorded as a tool message answering the
/// current call's id, with the output on success and the error on failure.
pub proof fn law_tool_output_recorded(
    s: AgentLoopView,
    outcome: Result<Seq<char>, Seq<char>>,
    rs: bool,
)
    requires
        loop_wf(s),
        s.phase == Phase::RunningTool,
    ensures
        step_spec(s, AgentEventView::ToolFinished { outcome, roundtrip_on_success: rs }).1
            == Some(
            MessageView::Tool {
                content: match outcome {
                    Ok(m) => m,
                    Err(e) => e,
                },
                tool_call_id: call_id(s.calls[s.next as int]),
            },
        ),
{
}

/// Whether a tool outcome needs another reply of the model: it failed, or
/// it succeeded and the tool asks for one.
pub open spec fn asks_again(o: (Result<Seq<char>, Seq<char>>, bool)) -> bool {
    o.0 is Err || o.1
}

/// The output recorded for a tool outcome.
pub open spec fn output_of(o: Result<Seq<char>, Seq<char>>) -> Seq<char> {
    match o {
        Ok(m) => m,
        Err(e) => e,
    }
}

/// The state and the messages after the outcomes `outs` (outcome and the
/// tool's `roundtrip_on_success`) of the calls still to run.
pub open spec fn finish_calls(
    s: AgentLoopView,
    outs: Seq<(Result<Seq<char>, Seq<char>>, bool)>,
) -> (AgentLoopView, Seq<MessageView>)
    decreases outs.len(),
{
    if outs.len() == 0 {
        (s, Seq::empty())
    } else {
        let (t, m, _, _) = step_spec(
            s,
            AgentEventView::ToolFinished { outcome: outs[0].0, roundtrip_on_success: outs[0].1 },
        );
        let (u, ms) = finish_calls(t, outs.drop_first());
        (u, seq![m->0] + ms)
    }
}

/// Law: once the model has asked for tools, running all of them records one
/// tool message per call, in the order of the calls, each answering its
/// call's id with the tool's output or error; then the loop asks the model
/// again exactly when some tool failed or asked for it, and else finishes.
pub proof fn law_every_call_answered_in_order(
    s: AgentLoopView,
    outs: Seq<(Result<Seq<char>, Seq<char>>, bool)>,
)
    requires
        s.phase == Phase::RunningTool,
        s.next + outs.len() == s.calls.len(),
        outs.len() > 0,
    ensures
        ({
            let (u, ms) = finish_calls(s, outs);
            &&& ms.len() == outs.len()
            &&& forall|i: int|
                0 <= i < outs.len() ==> ms[i] == MessageView::Tool {
                    content: output_of(outs[i].0),
                    tool_call_id: call_id(s.calls[s.next + i]),
                }
            &&& u.phase == if s.requires_roundtrip || exists|i: int|
                0 <= i < outs.len() && asks_again(outs[i]) {
                Phase::Generating
            } else {
                Phase::Over
            }
        }),
    decreases outs.len(),
{
    let e = AgentEventView::ToolFinished { outcome: outs[0].0, roundtrip_on_success: outs[0].1 };
    let (t, m, _, _) = step_spec(s, e);
    assert(m == Some(
        MessageView::Tool { content: output_of(outs[0].0), tool_call_id: call_id(s.calls[s.next as int]) },
    ));
    assert(t.requires_roundtrip == (s.requires_roundtrip || asks_again(outs[0])));
    let rest = outs.drop_first();
    if outs.len() == 1 {
        assert(finish_calls(t, rest) == (t, Seq::<MessageView>::empty()));
        if s.requires_roundtrip || asks_again(outs[0]) {
        } else {
            assert(!(exists|i: int| 0 <= i < outs.len() && asks_again(outs[i])));
        }
    } else {
        law_every_call_answered_in_order(t, rest);
        let (u, ms) = finish_calls(t, rest);
        assert forall|i: int| 0 <= i < outs.len() implies (seq![m->0] + ms)[i] == MessageView::Tool {
            content: output_of(outs[i].0),
            tool_call_id: call_id(s.calls[s.next + i]),
        } by {
            if i > 0 {
                assert(rest[i - 1] == outs[i]);
            }
        }
        let any_rest = exists|i: int| 0 <= i < rest.len() && asks_again(rest[i]);
        let any_all = exists|i: int| 0 <= i < outs.len() && asks_again(outs[i]);
        if any_rest {
            let i = choose|i: int| 0 <= i < rest.len() && asks_again(rest[i]);
            assert(asks_again(outs[i + 1]));
        }
        if any_all && !asks_again(outs[0]) {
            let i = choose|i: int| 0 <= i < outs.len() && asks_again(outs[i]);
            assert(i > 0);
            assert(asks_again(rest[i - 1]));
        }
    }
}

impl AgentLoop {
    /// A new run: the first action is to ask the model.
    pub fn start() -> (r: (AgentLoop, AgentAction))
        ensures
            r.0@.phase == Phase::Generating,
            r.0@.calls.len() == 0,
            r.0@.next == 0,
            !r.0@.requires_roundtrip,
            r.1 is Generate,
    {
        (
            AgentLoop { phase: Phase::Generating, calls: Vec::new(), next: 0, requires_roundtrip: false },
            AgentAction::Generate,
        )
    }

    /// Whether the run is over.
    pub fn is_over(&self) -> (r: bool)
        ensures
            r == (self@.phase == Phase::Over),
    {
        self.phase == Phase::Over
    }

    /// The current tool call's name, arguments and id, each empty where absent.
    fn current_call(&self) -> (r: (String, String, String))
        requires
            self.next < self.calls.len(),
        ensures
            r.0@ == call_name(self@.calls[self@.next as int]),
            r.1@ == call_args(self@.calls[self@.next as int]),
            r.2@ == call_id(self@.calls[self@.next as int]),
    {
        let c = &self.calls[self.next];
        (text_or_empty(&c.function.name), text_or_empty(&c.function.arguments), text_or_empty(&c.id))
    }

    /// Takes the caller's report `event`, records what it brings in `history`,
    /// and says what to do next and what to report to the user interface.
    pub fn step(&mut self, history: &mut Vec<Message>, event: AgentEvent) -> (r: (
        AgentAction,
        Option<StreamEvent>,
    ))
        requires
            loop_wf(old(self)@),
            accepts(old(self)@, event@),
        ensures
            ({
                let (t, m, a, n) = step_spec(old(self)@, event@);
                &&& final(self)@ == t
                &&& loop_wf(t)
                &&& history_view(final(history)@) == match m {
                    Some(msg) => history_view(old(history)@).push(msg),
                    None => history_view(old(history)@),
                }
                &&& r.0@ == a
                &&& match (r.1, n) {
                    (Some(x), Some(y)) => x@ == y,
                    (None, None) => true,
                    _ => false,
                }
            }),
    {
        match event {
            AgentEvent::Generated(result) => {
                let msg = assistant_message(&result);
                proof {
                    lemma_history_push(history@, msg);
                }
                history.push(msg);
                if result.tool_calls.len() == 0 {
                    self.phase = Phase::Over;
                    (AgentAction::Finish, None)
                } else {
                    self.calls = result.tool_calls;
                    self.next = 0;
                    self.requires_roundtrip = false;
                    self.phase = Phase::RunningTool;
                    let (name, args, _) = self.current_call();
                    (AgentAction::RunTool { name, args }, None)
                }
            },
            AgentEvent::GenerationFailed(err) => {
                self.phase = Phase::Over;
                (AgentAction::Fail(err), None)
            },
            AgentEvent::ToolMissing => {
                let (name, _, _) = self.current_call();
                self.phase = Phase::Over;
                let mut e = String::from_str("Tool '");
                e.append(name.as_str());
                e.append("' not found in registry");
                (AgentAction::Fail(e), None)
            },
            AgentEvent::ToolFinished { outcome, roundtrip_on_success } => {
                assert(self.next < self.calls.len());
                let (name, args, id) = self.current_call();
                let (output, notice) = match outcome {
                    Ok(m) => {
                        if roundtrip_on_success {
                            self.requires_roundtrip = true;
                        }
                        (m, None)
                    },
                    Err(e) => {
                        self.requires_roundtrip = true;
                        let notice = StreamEvent::ToolError { name, args, error: e.clone() };
                        (e, Some(notice))
                    },
                };
                let msg = Message::Tool { content: output, tool_call_id: id };
                proof {
                    lemma_history_push(history@, msg);
                }
                history.push(msg);
                self.next = self.next + 1;
                if self.next < self.calls.len() {
                    let (next_name, next_args, _) = self.current_call();
                    (AgentAction::RunTool { name: next_name, args: next_args }, notice)
                } else if self.requires_roundtrip {
                    self.phase = Phase::Generating;
                    (AgentAction::Generate, notice)
                } else {
                    self.phase = Phase::Over;
                    (AgentAction::Finish, notice)
                }
            },
        }
    }
}

/// Law: a reply's tools alone decide whether the model is asked again: from
/// any state, after a reply with tool calls and an outcome for each, the
/// loop asks the model again exactly when one of those outcomes failed or
/// asked for it, and otherwise it is over, whatever earlier replies did.
pub proof fn law_reply_decides_roundtrip(
    s: AgentLoopView,
    g: GenerationView,
    outs: Seq<(Result<Seq<char>, Seq<char>>, bool)>,
)
    requires
        s.phase == Phase::Generating,
        g.tool_calls.len() > 0,
        outs.len() == g.tool_calls.len(),
    ensures
        ({
            let (t, _, a, _) = step_spec(s, AgentEventView::Generated(g));
            &&& t.phase == Phase::RunningTool
            &&& t.next == 0
            &&& !t.requires_roundtrip
            &&& a == AgentActionView::RunTool {
                name: call_name(g.tool_calls[0]),
                args: call_args(g.tool_calls[0]),
            }
            &&& finish_calls(t, outs).0.phase == if exists|i: int|
                0 <= i < outs.len() && asks_again(outs[i]) {
                Phase::Generating
            } else {
                Phase::Over
            }
        }),
{
    let t = step_spec(s, AgentEventView::Generated(g)).0;
    law_every_call_answered_in_order(t, outs);
}

} // verus!
