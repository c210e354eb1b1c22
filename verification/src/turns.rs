//! The turns that a submitted action starts: a prompt for the agent, with the
//! camera frame where the action needs one, or the evaluation loop, which
//! keeps asking an isolated evaluator whether the task in progress is done.

use vstd::prelude::*;

use crate::events::{UserAction, UserActionView};
use crate::message::{
    blocks_view, history_view, lemma_history_push, BlockView, Content, ContentBlock, ContentView,
    ImageUrlPayload, Message, MessageView,
};
use crate::session::{plan_view, SessionData, Task};
use crate::plan::{plan_done, plan_finished};
use crate::skill::{Skill, SkillView};

verus! {

/// What the user interface starts for a submitted action.
#[derive(Debug)]
pub enum Submission {
    /// The evaluation loop.
    EvalLoop,
    /// One run of the agent on `prompt`, under `skill`, with the camera frame
    /// where `requires_frame`.
    AgentTask { prompt: String, skill: Option<Skill>, requires_frame: bool },
}

pub enum SubmissionView {
    EvalLoop,
    AgentTask { prompt: Seq<char>, skill: Option<SkillView>, requires_frame: bool },
}

impl View for Submission {
    type V = SubmissionView;

    open spec fn view(&self) -> SubmissionView {
        match self {
            Submission::EvalLoop => SubmissionView::EvalLoop,
            Submission::AgentTask { prompt, skill, requires_frame } => SubmissionView::AgentTask {
                prompt: prompt@,
                skill: match skill {
                    Some(s) => Some(s@),
                    None => None,
                },
                requires_frame: *requires_frame,
            },
        }
    }
}

pub open spec fn submission_spec(a: UserActionView) -> SubmissionView {
    match a {
        UserActionView::Eval => SubmissionView::EvalLoop,
        UserActionView::Standard { prompt, skill } => SubmissionView::AgentTask {
            prompt,
            skill,
            requires_frame: false,
        },
        UserActionView::Planner { goal, skill } => SubmissionView::AgentTask {
            prompt: goal,
            skill: Some(skill),
            requires_frame: true,
        },
        UserActionView::Frame { prompt } => SubmissionView::AgentTask {
            prompt,
            skill: None,
            requires_frame: true,
        },
    }
}

/// What to start for `action`: planning and frame questions take the camera
/// frame, plain prompts do not.
pub fn handle_submission(action: UserAction) -> (r: Submission)
    ensures
        r@ == submission_spec(action@),
{
    match action {
        UserAction::Eval => Submission::EvalLoop,
        UserAction::Standard { prompt, skill } => Submission::AgentTask {
            prompt,
            skill,
            requires_frame: false,
        },
        UserAction::Planner { goal, skill } => Submission::AgentTask {
            prompt: goal,
            skill: Some(skill),
            requires_frame: true,
        },
        UserAction::Frame { prompt } => Submission::AgentTask {
            prompt,
            skill: None,
            requires_frame: true,
        },
    }
}

pub open spec fn data_url(b64: Seq<char>) -> Seq<char> {
    "data:image/jpeg;base64,"@ + b64
}

pub open spec fn image_block(b64: Seq<char>) -> BlockView {
    BlockView::Image { url: data_url(b64), detail: None }
}

/// The data URL of a base64-encoded JPEG image.
pub fn image_data_url(b64: &str) -> (r: String)
    ensures
        r@ == data_url(b64@),
{
    let mut r = String::from_str("data:image/jpeg;base64,");
    r.append(b64);
    r
}

fn image_part(b64: &str) -> (r: ContentBlock)
    ensures
        r@ == image_block(b64@),
{
    ContentBlock::ImageUrl { image_url: ImageUrlPayload { url: image_data_url(b64), detail: None } }
}

/// The parts of a prompt: its text, then the frame where one was taken.
pub open spec fn prompt_blocks(prompt: Seq<char>, frame_b64: Seq<char>) -> Seq<BlockView> {
    if frame_b64.len() == 0 {
        seq![BlockView::Text(prompt)]
    } else {
        seq![BlockView::Text(prompt), image_block(frame_b64)]
    }
}

/// The messages that start an agent turn: the skill's instructions as a
/// system message where there is a skill, then the user's prompt.
pub open spec fn turn_messages(
    prompt: Seq<char>,
    skill: Option<SkillView>,
    frame_b64: Seq<char>,
) -> Seq<MessageView> {
    let user = MessageView::User {
        content: ContentView::Blocks(prompt_blocks(prompt, frame_b64)),
        name: None,
    };
    match skill {
        Some(s) => seq![MessageView::System { content: s.instructions, name: None }, user],
        None => seq![user],
    }
}

/// Records the start of an agent turn in `history`; `frame_b64` is the
/// encoded camera frame, empty where none was taken.
pub fn start_agent_turn(
    history: &mut Vec<Message>,
    prompt: String,
    skill: Option<Skill>,
    frame_b64: &str,
)
    ensures
        history_view(final(history)@) == history_view(old(history)@) + turn_messages(
            prompt@,
            match skill {
                Some(s) => Some(s@),
                None => None,
            },
            frame_b64@,
        ),
{
    let ghost p = prompt@;
    let mut blocks: Vec<ContentBlock> = Vec::new();
    blocks.push(ContentBlock::Text { text: prompt });
    if frame_b64.unicode_len() > 0 {
        blocks.push(image_part(frame_b64));
    }
    assert(blocks_view(blocks@) =~= prompt_blocks(p, frame_b64@));
    let ghost h0 = history_view(history@);
    match skill {
        Some(s) => {
            let m = Message::System { content: s.instructions, name: None };
            proof {
                lemma_history_push(history@, m);
            }
            history.push(m);
        },
        None => {},
    }
    let u = Message::User { content: Content::Blocks(blocks), name: None };
    proof {
        lemma_history_push(history@, u);
    }
    history.push(u);
    assert(history_view(history@) =~= h0 + turn_messages(
        p,
        match skill {
            Some(s) => Some(s@),
            None => None,
        },
        frame_b64@,
    ));
}

pub open spec fn default_eval_prompt() -> Seq<char> {
    "Evaluate the current scene against the plan."@
}

/// The system prompt of the evaluator: the evaluator skill's instructions,
/// or a default prompt where there is no such skill.
pub fn eval_instructions(skill: Option<Skill>) -> (r: String)
    ensures
        r@ == match skill {
            Some(s) => s@.instructions,
            None => default_eval_prompt(),
        },
{
    match skill {
        Some(s) => s.instructions,
        None => String::from_str("Evaluate the current scene against the plan."),
    }
}

/// The isolated session of the evaluator: its system prompt, the plan, and
/// the first frame as the initial image where one was taken.
pub fn new_eval_session(instructions: &str, plan: Vec<Task>, initial_frame_b64: &str) -> (r:
    SessionData)
    ensures
        r.plan_v() == plan_view(plan@),
        r.history_v() == seq![MessageView::System { content: instructions@, name: None }] + if initial_frame_b64@.len() == 0 {
            Seq::<MessageView>::empty()
        } else {
            seq![
                MessageView::User {
                    content: ContentView::Blocks(
                        seq![BlockView::Text("Initial Image"@), image_block(initial_frame_b64@)],
                    ),
                    name: None,
                },
            ]
        },
{
    let mut s = SessionData::new(instructions);
    s.plan = plan;
    if initial_frame_b64.unicode_len() > 0 {
        let mut blocks: Vec<ContentBlock> = Vec::new();
        blocks.push(ContentBlock::Text { text: String::from_str("Initial Image") });
        blocks.push(image_part(initial_frame_b64));
        assert(blocks_view(blocks@) =~= seq![
            BlockView::Text("Initial Image"@),
            image_block(initial_frame_b64@),
        ]);
        let u = Message::User { content: Content::Blocks(blocks), name: None };
        proof {
            lemma_history_push(s.history@, u);
        }
        s.history.push(u);
    }
    assert(s.history_v() =~= seq![MessageView::System { content: instructions@, name: None }] + if initial_frame_b64@.len() == 0 {
        Seq::<MessageView>::empty()
    } else {
        seq![
            MessageView::User {
                content: ContentView::Blocks(
                    seq![BlockView::Text("Initial Image"@), image_block(initial_frame_b64@)],
                ),
                name: None,
            },
        ]
    });
    s
}

/// The message of one evaluation round: the plan as JSON and the current frame.
pub open spec fn eval_turn_message(plan_json: Seq<char>, frame_b64: Seq<char>) -> MessageView {
    MessageView::User {
        content: ContentView::Blocks(
            seq![
                BlockView::Text("Current plan: "@ + plan_json),
                BlockView::Text("Current Image"@),
                image_block(frame_b64),
            ],
        ),
        name: None,
    }
}

/// The evaluator's history for a round: the history `h` cut back to its
/// first two messages, then the round's message.
pub open spec fn eval_round(h: Seq<MessageView>, plan_json: Seq<char>, frame_b64: Seq<char>) -> Seq<
    MessageView,
> {
    h.take(
        if h.len() < 2 {
            h.len() as int
        } else {
            2
        },
    ).push(eval_turn_message(plan_json, frame_b64))
}

/// Law: whatever the evaluator's runs appended to its history `start +
/// appended`, a round asks it with at most three messages: the first message
/// of `start` (the system prompt) first, the round's message last; where
/// `start` holds the initial image too, the round is exactly `start` and the
/// round's message.
pub proof fn law_eval_round_shape(
    start: Seq<MessageView>,
    appended: Seq<MessageView>,
    plan_json: Seq<char>,
    frame_b64: Seq<char>,
)
    requires
        1 <= start.len() <= 2,
    ensures
        ({
            let t = eval_round(start + appended, plan_json, frame_b64);
            &&& t.len() <= 3
            &&& t[0] == start[0]
            &&& t.last() == eval_turn_message(plan_json, frame_b64)
            &&& start.len() == 2 ==> t == start.push(eval_turn_message(plan_json, frame_b64))
        }),
{
    let h = start + appended;
    let t = eval_round(h, plan_json, frame_b64);
    assert(h[0] == start[0]);
    if start.len() == 2 {
        assert(h.take(2) =~= start);
    }
}

/// What the evaluation loop does next.
#[derive(Clone, Copy, Debug, PartialEq, Eq, Structural)]
pub enum EvalStep {
    /// The plan is empty or done: the loop ends.
    Stop,
    /// No frame has come yet: wait and look again.
    WaitForFrame,
    /// Evaluate the current frame against the plan.
    Evaluate,
}

/// The evaluation loop's decision before a round, from the user's plan and
/// whether a camera frame is there: it stops once the plan is empty or every
/// task is completed; otherwise it evaluates where there is a frame and
/// waits for one where there is not.
pub fn eval_loop_step(plan: &Vec<Task>, frame_ready: bool) -> (r: EvalStep)
    ensures
        r == if plan_done(plan_view(plan@)) {
            EvalStep::Stop
        } else if frame_ready {
            EvalStep::Evaluate
        } else {
            EvalStep::WaitForFrame
        },
{
    if plan_finished(plan) {
        EvalStep::Stop
    } else if frame_ready {
        EvalStep::Evaluate
    } else {
        EvalStep::WaitForFrame
    }
}

/// Starts one evaluation round: the history is cut back to its first two
/// messages (the system prompt and the initial image) and the plan, given as
/// JSON text, and the current frame are added.
pub fn start_eval_turn(session: &mut SessionData, plan_json: &str, frame_b64: &str)
    ensures
        final(session).plan_v() == old(session).plan_v(),
        final(session).history_v() == eval_round(old(session).history_v(), plan_json@, frame_b64@),
{
    session.history.truncate(2);
    let mut text = String::from_str("Current plan: ");
    text.append(plan_json);
    let mut blocks: Vec<ContentBlock> = Vec::new();
    blocks.push(ContentBlock::Text { text });
    blocks.push(ContentBlock::Text { text: String::from_str("Current Image") });
    blocks.push(image_part(frame_b64));
    assert(blocks_view(blocks@) =~= seq![
        BlockView::Text("Current plan: "@ + plan_json@),
        BlockView::Text("Current Image"@),
        image_block(frame_b64@),
    ]);
    let ghost cut = session.history_v();
    let u = Message::User { content: Content::Blocks(blocks), name: None };
    proof {
        lemma_history_push(session.history@, u);
    }
    session.history.push(u);
    assert(cut =~= old(session).history_v().take(
        if old(session).history_v().len() < 2 {
            old(session).history_v().len() as int
        } else {
            2
        },
    ));
}

/// Law: a plain prompt or a skill command starts an agent turn with the
/// action's own prompt and skill and without the camera frame, so that the
/// turn begins with the skill's instructions as a system message where the
/// command named a skill, and with the user's prompt otherwise.
pub proof fn law_standard_turn_keeps_skill(
    prompt: Seq<char>,
    skill: Option<SkillView>,
    frame_b64: Seq<char>,
)
    ensures
        ({
            let sub = submission_spec(UserActionView::Standard { prompt, skill });
            &&& sub matches SubmissionView::AgentTask { prompt: p, skill: k, requires_frame: f }
            &&& p == prompt
            &&& k == skill
            &&& !f
            &&& turn_messages(p, k, frame_b64)[0] == match skill {
                Some(s) => MessageView::System { content: s.instructions, name: None },
                None => MessageView::User {
                    content: ContentView::Blocks(prompt_blocks(prompt, frame_b64)),
                    name: None,
                },
            }
        }),
{
}

} // verus!
