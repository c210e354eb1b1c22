//! The session: the chat history sent to the model, the plan of atomic tasks,
//! and the events that the model's streamed reply and the tools report.

use vstd::prelude::*;

use crate::message::{history_view, Message, MessageView, Usage};

verus! {

/// The execution status of one task of the plan.
#[derive(Clone, Copy, Debug, PartialEq, Eq, Structural)]
pub enum TaskStatus {
    Pending,
    InProgress,
    Completed,
}

/// One atomic task of the plan.
#[derive(Clone, Debug)]
pub struct Task {
    pub id: String,
    pub description: String,
    pub status: TaskStatus,
}

pub struct TaskView {
    pub id: Seq<char>,
    pub description: Seq<char>,
    pub status: TaskStatus,
}

impl View for Task {
    type V = TaskView;

    open spec fn view(&self) -> TaskView {
        TaskView { id: self.id@, description: self.description@, status: self.status }
    }
}

pub open spec fn plan_view(plan: Seq<Task>) -> Seq<TaskView> {
    plan.map_values(|t: Task| t@)
}

impl Task {
    pub fn duplicate(&self) -> (r: Task)
        ensures
            r@ == self@,
    {
        Task { id: self.id.clone(), description: self.description.clone(), status: self.status }
    }
}

/// A copy of a plan.
pub fn copy_plan(plan: &Vec<Task>) -> (r: Vec<Task>)
    ensures
        plan_view(r@) == plan_view(plan@),
{
    let mut r: Vec<Task> = Vec::new();
    let mut i: usize = 0;
    while i < plan.len()
        invariant
            i <= plan.len(),
            r.len() == i,
            forall|k: int| 0 <= k < i ==> (#[trigger] r@[k])@ == plan@[k]@,
        decreases plan.len() - i,
    {
        r.push(plan[i].duplicate());
        i = i + 1;
    }
    assert(plan_view(r@) =~= plan_view(plan@));
    r
}

/// What the agent loop and the tools report to the user interface.
#[derive(Clone, Debug)]
pub enum StreamEvent {
    Reasoning(String),
    Content(String),
    ToolExecution { name: String, args: String },
    ToolError { name: String, args: String, error: String },
    PlanUpdated(Vec<Task>),
    EvaluateStart,
    Usage(Usage),
    /// The time from frame capture to the end of an evaluation, in milliseconds.
    Latency(u128),
    Error(String),
    Done,
}

pub enum StreamEventView {
    Reasoning(Seq<char>),
    Content(Seq<char>),
    ToolExecution { name: Seq<char>, args: Seq<char> },
    ToolError { name: Seq<char>, args: Seq<char>, error: Seq<char> },
    PlanUpdated(Seq<TaskView>),
    EvaluateStart,
    Usage(Usage),
    Latency(u128),
    Error(Seq<char>),
    Done,
}

impl View for StreamEvent {
    type V = StreamEventView;

    open spec fn view(&self) -> StreamEventView {
        match self {
            StreamEvent::Reasoning(t) => StreamEventView::Reasoning(t@),
            StreamEvent::Content(t) => StreamEventView::Content(t@),
            StreamEvent::ToolExecution { name, args } => StreamEventView::ToolExecution {
                name: name@,
                args: args@,
            },
            StreamEvent::ToolError { name, args, error } => StreamEventView::ToolError {
                name: name@,
                args: args@,
                error: error@,
            },
            StreamEvent::PlanUpdated(p) => StreamEventView::PlanUpdated(plan_view(p@)),
            StreamEvent::EvaluateStart => StreamEventView::EvaluateStart,
            StreamEvent::Usage(u) => StreamEventView::Usage(*u),
            StreamEvent::Latency(ms) => StreamEventView::Latency(*ms),
            StreamEvent::Error(e) => StreamEventView::Error(e@),
            StreamEvent::Done => StreamEventView::Done,
        }
    }
}

/// The state of one conversation: its history and its plan.
#[derive(Debug)]
pub struct SessionData {
    pub history: Vec<Message>,
    pub plan: Vec<Task>,
}

/// What was found at the session file's place.
pub enum SessionFile {
    /// No file exists there.
    Missing,
    /// The file exists but could not be read; the reason.
    Unreadable(String),
    /// The file's text, decoded as a whole session and as a bare history
    /// (`None` where it does not decode as that).
    Read { as_session: Option<SessionData>, as_history: Option<Vec<Message>> },
}

/// The result of loading a session from the file at `path`.
pub open spec fn loaded(path: Seq<char>, file: SessionFile) -> Result<
    (Seq<MessageView>, Seq<TaskView>),
    Seq<char>,
> {
    match file {
        SessionFile::Missing => Err("Session file not found: "@ + path),
        SessionFile::Unreadable(e) => Err(e@),
        SessionFile::Read { as_session, as_history } => match as_session {
            Some(d) => Ok((history_view(d.history@), plan_view(d.plan@))),
            None => match as_history {
                Some(h) => Ok((history_view(h@), Seq::empty())),
                None => Err("Failed to parse session file"@),
            },
        },
    }
}

impl SessionData {
    pub open spec fn history_v(&self) -> Seq<MessageView> {
        history_view(self.history@)
    }

    pub open spec fn plan_v(&self) -> Seq<TaskView> {
        plan_view(self.plan@)
    }

    /// A session whose history is the one system message `system_prompt`
    /// and whose plan is empty.
    pub fn new(system_prompt: &str) -> (r: SessionData)
        ensures
            r.history_v() == seq![
                MessageView::System { content: system_prompt@, name: None },
            ],
            r.plan_v() == Seq::<TaskView>::empty(),
    {
        let mut history: Vec<Message> = Vec::new();
        history.push(Message::System { content: String::from_str(system_prompt), name: None });
        let r = SessionData { history, plan: Vec::new() };
        assert(r.history_v() =~= seq![
            MessageView::System { content: system_prompt@, name: None },
        ]);
        assert(r.plan_v() =~= Seq::<TaskView>::empty());
        r
    }

    /// Loads the session from the file at `path`: the whole session where the
    /// text decodes as one, else a bare history with an empty plan.
    pub fn load_from_path(path: &str, file: SessionFile) -> (r: Result<SessionData, String>)
        ensures
            match (r, loaded(path@, file)) {
                (Ok(d), Ok((h, p))) => d.history_v() == h && d.plan_v() == p,
                (Err(e), Err(e2)) => e@ == e2,
                _ => false,
            },
    {
        match file {
            SessionFile::Missing => {
                let mut e = String::from_str("Session file not found: ");
                e.append(path);
                Err(e)
            },
            SessionFile::Unreadable(e) => Err(e),
            SessionFile::Read { as_session, as_history } => match as_session {
                Some(d) => Ok(d),
                None => match as_history {
                    Some(h) => {
                        let r = SessionData { history: h, plan: Vec::new() };
                        assert(r.plan_v() =~= Seq::<TaskView>::empty());
                        Ok(r)
                    },
                    None => Err(String::from_str("Failed to parse session file")),
                },
            },
        }
    }

    /// Loads the session kept for the current directory: `location` is the
    /// session file's path, or why it could not be found; `file` is what was
    /// found at that path.
    pub fn load(location: Result<String, String>, file: SessionFile) -> (r: Result<
        SessionData,
        String,
    >)
        ensures
            match location {
                Err(e) => r matches Err(e2) && e2@ == e@,
                Ok(path) => match (r, loaded(path@, file)) {
                    (Ok(d), Ok((h, p))) => d.history_v() == h && d.plan_v() == p,
                    (Err(e), Err(e2)) => e@ == e2,
                    _ => false,
                },
            },
    {
        match location {
            Err(e) => Err(e),
            Ok(path) => Self::load_from_path(path.as_str(), file),
        }
    }
}

/// The file name under which the session of the directory `folder` is kept.
pub fn session_file_name(folder: &str) -> (r: String)
    ensures
        r@ == folder@ + ".json"@,
{
    let mut r = String::from_str(folder);
    r.append(".json");
    r
}

} // verus!
