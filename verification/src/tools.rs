//! The tools the model may call, and the registry that finds them by name and
//! describes them to the model.

use vstd::prelude::*;

use crate::schema::{as_api_tool, copy_json, declared_parameters, json_view, JsonValue, JsonView, Tool};
use crate::text::same_text;

verus! {

/// The tools of the harness.
#[derive(Clone, Copy, Debug, PartialEq, Eq, Structural)]
pub enum ToolKind {
    /// Reads a file of the local file system.
    ReadFile,
    /// Replaces the whole plan.
    UpdatePlan,
    /// Creates the plan from task descriptions.
    CreatePlan,
    /// Marks one task of the plan completed.
    UpdateTaskStatus,
}

pub open spec fn tool_name(k: ToolKind) -> Seq<char> {
    match k {
        ToolKind::ReadFile => "read_file"@,
        ToolKind::UpdatePlan => "update_plan"@,
        ToolKind::CreatePlan => "create_plan"@,
        ToolKind::UpdateTaskStatus => "update_task_status"@,
    }
}

pub open spec fn tool_description(k: ToolKind) -> Seq<char> {
    match k {
        ToolKind::ReadFile => "Read the contents of a file from the local filesystem."@,
        ToolKind::UpdatePlan => "Overwrites the active execution plan. You must provide the entire array of tasks, not just the modified ones."@,
        ToolKind::CreatePlan => "Overwrites the active execution plan. You must provide the entire array of tasks, not just the modified ones."@,
        ToolKind::UpdateTaskStatus => "Updates the status of a single existing task by its unique ID. Use this to transition a task to 'completed'"@,
    }
}

/// Whether a success of the tool needs another reply of the model: only
/// reading a file does; the plan tools end the turn.
pub open spec fn tool_roundtrips(k: ToolKind) -> bool {
    k == ToolKind::ReadFile
}

impl ToolKind {
    /// The name under which the model calls the tool.
    pub fn name(&self) -> (r: &'static str)
        ensures
            r@ == tool_name(*self),
    {
        match self {
            ToolKind::ReadFile => "read_file",
            ToolKind::UpdatePlan => "update_plan",
            ToolKind::CreatePlan => "create_plan",
            ToolKind::UpdateTaskStatus => "update_task_status",
        }
    }

    /// What the model is told the tool does.
    pub fn description(&self) -> (r: &'static str)
        ensures
            r@ == tool_description(*self),
    {
        match self {
            ToolKind::ReadFile => "Read the contents of a file from the local filesystem.",
            ToolKind::UpdatePlan => "Overwrites the active execution plan. You must provide the entire array of tasks, not just the modified ones.",
            ToolKind::CreatePlan => "Overwrites the active execution plan. You must provide the entire array of tasks, not just the modified ones.",
            ToolKind::UpdateTaskStatus => "Updates the status of a single existing task by its unique ID. Use this to transition a task to 'completed'",
        }
    }

    /// Whether a success of the tool needs another reply of the model.
    pub fn roundtrip_on_success(&self) -> (r: bool)
        ensures
            r == tool_roundtrips(*self),
    {
        match self {
            ToolKind::ReadFile => true,
            _ => false,
        }
    }
}

/// The error for a call of a tool that is not registered.
pub fn tool_not_found(name: &str) -> (r: String)
    ensures
        r@ == crate::agent::missing_tool_error(name@),
{
    let mut r = String::from_str("Tool '");
    r.append(name);
    r.append("' not found in registry");
    r
}

/// One registered tool: its kind and the JSON schema of its arguments.
#[derive(Debug)]
pub struct RegisteredTool {
    pub kind: ToolKind,
    pub parameters: JsonValue,
}

/// The tool registered under `name` among `s`: the first of that name.
pub open spec fn lookup_tool(s: Seq<(ToolKind, JsonView)>, name: Seq<char>) -> Option<ToolKind>
    decreases s.len(),
{
    if s.len() == 0 {
        None
    } else if tool_name(s[0].0) == name {
        Some(s[0].0)
    } else {
        lookup_tool(s.drop_first(), name)
    }
}

pub open spec fn tool_pos(s: Seq<(ToolKind, JsonView)>, name: Seq<char>) -> int
    decreases s.len(),
{
    if s.len() == 0 {
        0
    } else if tool_name(s[0].0) == name {
        0
    } else {
        1 + tool_pos(s.drop_first(), name)
    }
}

/// The registry after `k` is registered with `p`: in place of the tool of its
/// name, or last.
pub open spec fn registered(s: Seq<(ToolKind, JsonView)>, k: ToolKind, p: JsonView) -> Seq<
    (ToolKind, JsonView),
> {
    let i = tool_pos(s, tool_name(k));
    if i < s.len() {
        s.update(i, (k, p))
    } else {
        s.push((k, p))
    }
}

pub struct ApiToolView {
    pub tool_type: Seq<char>,
    pub name: Seq<char>,
    pub description: Seq<char>,
    pub parameters: JsonView,
    pub strict: Option<bool>,
}

pub open spec fn api_tool_view(t: Tool) -> ApiToolView {
    ApiToolView {
        tool_type: t.tool_type@,
        name: t.function.name@,
        description: t.function.description@,
        parameters: json_view(t.function.parameters),
        strict: t.function.strict,
    }
}

/// How the registered tool `e` is described to the model.
pub open spec fn described(e: (ToolKind, JsonView)) -> ApiToolView {
    ApiToolView {
        tool_type: "function"@,
        name: tool_name(e.0),
        description: tool_description(e.0),
        parameters: declared_parameters(e.1),
        strict: Some(true),
    }
}

proof fn lemma_tool_pos(s: Seq<(ToolKind, JsonView)>, name: Seq<char>)
    ensures
        0 <= tool_pos(s, name) <= s.len(),
        tool_pos(s, name) < s.len() ==> tool_name(s[tool_pos(s, name)].0) == name && lookup_tool(
            s,
            name,
        ) == Some(s[tool_pos(s, name)].0),
        tool_pos(s, name) == s.len() ==> lookup_tool(s, name) is None,
        forall|k: int| 0 <= k < tool_pos(s, name) ==> tool_name(s[k].0) != name,
    decreases s.len(),
{
    if s.len() > 0 && tool_name(s[0].0) != name {
        lemma_tool_pos(s.drop_first(), name);
        assert forall|k: int| 0 <= k < tool_pos(s, name) implies tool_name(s[k].0) != name by {
            if k > 0 {
                assert(s[k] == s.drop_first()[k - 1]);
            }
        }
    }
}

proof fn lemma_lookup_tool_frame(
    s: Seq<(ToolKind, JsonView)>,
    t: Seq<(ToolKind, JsonView)>,
    name: Seq<char>,
)
    requires
        s.len() == t.len(),
        forall|k: int| 0 <= k < s.len() ==> (tool_name(s[k].0) == name <==> tool_name(t[k].0) == name),
        forall|k: int| 0 <= k < s.len() && tool_name(s[k].0) == name ==> s[k].0 == t[k].0,
    ensures
        lookup_tool(s, name) == lookup_tool(t, name),
    decreases s.len(),
{
    if s.len() > 0 {
        lemma_lookup_tool_frame(s.drop_first(), t.drop_first(), name);
    }
}

proof fn lemma_lookup_tool_push(s: Seq<(ToolKind, JsonView)>, x: (ToolKind, JsonView), name: Seq<char>)
    requires
        lookup_tool(s, name) is Some || tool_name(x.0) != name,
    ensures
        lookup_tool(s.push(x), name) == lookup_tool(s, name),
    decreases s.len(),
{
    let t = s.push(x);
    if s.len() > 0 {
        assert(t.drop_first() =~= s.drop_first().push(x));
        assert(t[0] == s[0]);
        if tool_name(s[0].0) != name {
            lemma_lookup_tool_push(s.drop_first(), x, name);
        }
    } else {
        assert(t.drop_first() =~= Seq::<(ToolKind, JsonView)>::empty());
        assert(t[0] == x);
        assert(lookup_tool(t.drop_first(), name) is None);
    }
}

/// Law: after a tool is registered, its name finds it and every other name
/// finds what it found before (the laws of a map's insert).
pub proof fn law_registered_lookup(s: Seq<(ToolKind, JsonView)>, k: ToolKind, p: JsonView, name: Seq<char>)
    ensures
        lookup_tool(registered(s, k, p), name) == if name == tool_name(k) {
            Some(k)
        } else {
            lookup_tool(s, name)
        },
{
    lemma_tool_pos(s, tool_name(k));
    let i = tool_pos(s, tool_name(k));
    let t = registered(s, k, p);
    if name == tool_name(k) {
        lemma_tool_pos(t, name);
        if i < s.len() {
            if tool_pos(t, name) < i {
                assert(tool_name(s[tool_pos(t, name)].0) == name);
            }
            if tool_pos(t, name) > i {
                assert(tool_name(t[i].0) == name);
            }
            assert(tool_pos(t, name) == i);
            assert(t[i] == (k, p));
        } else {
            if tool_pos(t, name) < s.len() {
                assert(t[tool_pos(t, name)] == s[tool_pos(t, name)]);
                assert(tool_name(s[tool_pos(t, name)].0) == name);
            }
            assert(t[s.len() as int] == (k, p));
        }
    } else {
        if i < s.len() {
            lemma_lookup_tool_frame(s, t, name);
        } else {
            lemma_lookup_tool_push(s, (k, p), name);
        }
    }
}

/// The tools, found by name.
pub struct ToolRegistry {
    tools: Vec<RegisteredTool>,
}

impl View for ToolRegistry {
    type V = Seq<(ToolKind, JsonView)>;

    closed spec fn view(&self) -> Seq<(ToolKind, JsonView)> {
        self.tools@.map_values(|t: RegisteredTool| (t.kind, json_view(t.parameters)))
    }
}

impl ToolRegistry {
    /// A registry without tools.
    pub fn new() -> (r: ToolRegistry)
        ensures
            r@ == Seq::<(ToolKind, JsonView)>::empty(),
    {
        let r = ToolRegistry { tools: Vec::new() };
        assert(r@ =~= Seq::<(ToolKind, JsonView)>::empty());
        r
    }

    fn find(&self, name: &str) -> (r: usize)
        ensures
            r == tool_pos(self@, name@),
    {
        let ghost s = self@;
        let mut i: usize = 0;
        assert(s.subrange(0, s.len() as int) =~= s);
        while i < self.tools.len() && !same_text(self.tools[i].kind.name(), name)
            invariant
                s == self@,
                s.len() == self.tools.len(),
                i <= self.tools.len(),
                tool_pos(s, name@) == i + tool_pos(s.subrange(i as int, s.len() as int), name@),
            decreases self.tools.len() - i,
        {
            assert(s.subrange(i as int, s.len() as int).drop_first() =~= s.subrange(
                i + 1,
                s.len() as int,
            ));
            i = i + 1;
        }
        i
    }

    /// Registers the tool `kind`, whose arguments follow the schema
    /// `parameters`, in place of a tool of the same name.
    pub fn register(&mut self, kind: ToolKind, parameters: JsonValue)
        ensures
            final(self)@ == registered(old(self)@, kind, json_view(parameters)),
    {
        let ghost p = json_view(parameters);
        let i = self.find(kind.name());
        if i < self.tools.len() {
            self.tools.set(i, RegisteredTool { kind, parameters });
        } else {
            self.tools.push(RegisteredTool { kind, parameters });
        }
        assert(self@ =~= registered(old(self)@, kind, p));
    }

    /// The tool registered under `name`.
    pub fn get_tool(&self, name: &str) -> (r: Option<ToolKind>)
        ensures
            r == lookup_tool(self@, name@),
    {
        proof {
            lemma_tool_pos(self@, name@);
        }
        let i = self.find(name);
        if i < self.tools.len() {
            Some(self.tools[i].kind)
        } else {
            None
        }
    }

    /// Where a call of the tool `name` goes: the tool registered under that
    /// name, or the error that no tool has it.
    pub fn dispatch(&self, name: &str) -> (r: Result<ToolKind, String>)
        ensures
            match lookup_tool(self@, name@) {
                Some(k) => r matches Ok(found) && found == k,
                None => r matches Err(e) && e@ == crate::agent::missing_tool_error(name@),
            },
    {
        match self.get_tool(name) {
            Some(kind) => Ok(kind),
            None => Err(tool_not_found(name)),
        }
    }

    /// The descriptions of all registered tools for the model, in the order
    /// of registration.
    pub fn get_api_tools(&self) -> (r: Vec<Tool>)
        ensures
            r@.map_values(|t: Tool| api_tool_view(t)) == self@.map_values(
                |e: (ToolKind, JsonView)| described(e),
            ),
    {
        let mut out: Vec<Tool> = Vec::new();
        let mut i: usize = 0;
        while i < self.tools.len()
            invariant
                i <= self.tools.len(),
                out.len() == i,
                forall|j: int|
                    0 <= j < i ==> api_tool_view(#[trigger] out@[j]) == described(self@[j]),
            decreases self.tools.len() - i,
        {
            let t = &self.tools[i];
            out.push(as_api_tool(t.kind.name(), t.kind.description(), copy_json(&t.parameters)));
            i = i + 1;
        }
        assert(out@.map_values(|t: Tool| api_tool_view(t)) =~= self@.map_values(
            |e: (ToolKind, JsonView)| described(e),
        ));
        out
    }
}

} // verus!
