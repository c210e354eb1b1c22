use robot_harness::plan::{
    create_plan, plan_finished, run_plan_tool, update_plan, update_task_status, NewTask, PlanToolCall,
    TaskStatusArgs, UpdateTaskStatusArgs,
};
use robot_harness::schema::{as_api_tool, enforce_strict_schema, JsonMember, JsonValue};
use robot_harness::request::{reasoning_effort, request_tools, ReasoningEffort};
use robot_harness::session::{Task, TaskStatus};
use robot_harness::tools::{ToolKind, ToolRegistry};

fn task(id: &str, description: &str, status: TaskStatus) -> Task {
    Task { id: id.to_string(), description: description.to_string(), status }
}

fn complete(id: &str) -> UpdateTaskStatusArgs {
    UpdateTaskStatusArgs { task_id: id.to_string(), status: TaskStatusArgs::Completed }
}

fn statuses(plan: &[Task]) -> Vec<TaskStatus> {
    plan.iter().map(|t| t.status).collect()
}

fn member(key: &str, value: JsonValue) -> JsonMember {
    JsonMember { key: key.to_string(), value }
}

fn string_schema(description: &str) -> JsonValue {
    JsonValue::Object(vec![
        member("description", JsonValue::Str(description.to_string())),
        member("type", JsonValue::Str("string".to_string())),
    ])
}

/// The schema that schemars gives for a struct with one string field.
fn args_schema(title: &str, field: &str) -> JsonValue {
    JsonValue::Object(vec![
        member("$schema", JsonValue::Str("https://json-schema.org/draft/2020-12/schema".to_string())),
        member(
            "properties",
            JsonValue::Object(vec![member(field, string_schema("The relative or absolute path to the file."))]),
        ),
        member("required", JsonValue::Array(vec![JsonValue::Str(field.to_string())])),
        member("title", JsonValue::Str(title.to_string())),
        member("type", JsonValue::Str("object".to_string())),
    ])
}

fn get<'a>(v: &'a JsonValue, key: &str) -> Option<&'a JsonValue> {
    match v {
        JsonValue::Object(ms) => ms.iter().find(|m| m.key == key).map(|m| &m.value),
        _ => None,
    }
}

#[test]
fn test_create_plan_api_tool_output() {
    let kind = ToolKind::CreatePlan;
    let api_tool = as_api_tool(kind.name(), kind.description(), args_schema("UpdatePlanArgs", "tasks"));
    assert_eq!(api_tool.function.name, "create_plan");
}

#[test]
fn test_read_file_api_tool_output() {
    let kind = ToolKind::ReadFile;
    let api_tool = as_api_tool(kind.name(), kind.description(), args_schema("ReadFileArgs", "path"));
    assert_eq!(api_tool.function.name, "read_file");
}

#[test]
fn test_update_plan_api_tool_output() {
    let kind = ToolKind::UpdatePlan;
    let api_tool = as_api_tool(kind.name(), kind.description(), args_schema("UpdatePlanArgs", "tasks"));
    assert_eq!(api_tool.function.name, "update_plan");
}

#[test]
fn api_tool_is_strict_and_drops_schema_and_title() {
    let tool = as_api_tool("read_file", "Read a file.", args_schema("ReadFileArgs", "path"));
    assert_eq!(tool.tool_type, "function");
    assert_eq!(tool.function.description, "Read a file.");
    assert_eq!(tool.function.strict, Some(true));
    let p = &tool.function.parameters;
    assert!(get(p, "$schema").is_none());
    assert!(get(p, "title").is_none());
    assert!(matches!(get(p, "additionalProperties"), Some(JsonValue::Bool(false))));
    match get(p, "required") {
        Some(JsonValue::Array(items)) => {
            assert_eq!(items.len(), 1);
            assert!(matches!(&items[0], JsonValue::Str(s) if s == "path"));
        }
        _ => panic!("required is missing"),
    }
    // the string schema of the property has no properties, so it stays as it was
    let prop = get(get(p, "properties").unwrap(), "path").unwrap();
    assert!(get(prop, "additionalProperties").is_none());
    assert!(get(prop, "required").is_none());
}

#[test]
fn nested_object_schemas_become_strict() {
    let inner = JsonValue::Object(vec![
        member("properties", JsonValue::Object(vec![member("description", string_schema("d"))])),
        member("type", JsonValue::Str("object".to_string())),
    ]);
    let schema = JsonValue::Object(vec![
        member("items", JsonValue::Array(vec![inner])),
        member("properties", JsonValue::Object(vec![member("a", string_schema("x")), member("b", string_schema("y"))])),
        member("required", JsonValue::Array(vec![])),
    ]);
    let tool = as_api_tool("t", "d", schema);
    let p = &tool.function.parameters;
    match get(p, "required") {
        Some(JsonValue::Array(items)) => {
            let names: Vec<&str> = items
                .iter()
                .map(|v| match v {
                    JsonValue::Str(s) => s.as_str(),
                    _ => panic!("not a string"),
                })
                .collect();
            assert_eq!(names, vec!["a", "b"]);
        }
        _ => panic!("required is missing"),
    }
    match get(p, "items") {
        Some(JsonValue::Array(items)) => {
            assert!(matches!(get(&items[0], "additionalProperties"), Some(JsonValue::Bool(false))));
            assert!(matches!(get(&items[0], "required"), Some(JsonValue::Array(r)) if r.len() == 1));
        }
        _ => panic!("items are missing"),
    }
}

#[test]
fn registry_finds_tools_and_describes_them_in_order() {
    let mut registry = ToolRegistry::new();
    registry.register(ToolKind::ReadFile, args_schema("ReadFileArgs", "path"));
    registry.register(ToolKind::UpdatePlan, args_schema("UpdatePlanArgs", "tasks"));
    registry.register(ToolKind::ReadFile, JsonValue::Object(vec![]));
    assert_eq!(registry.get_tool("read_file"), Some(ToolKind::ReadFile));
    assert_eq!(registry.get_tool("update_plan"), Some(ToolKind::UpdatePlan));
    assert_eq!(registry.get_tool("create_plan"), None);
    let tools = registry.get_api_tools();
    let names: Vec<&str> = tools.iter().map(|t| t.function.name.as_str()).collect();
    assert_eq!(names, vec!["read_file", "update_plan"]);
    assert!(ToolKind::ReadFile.roundtrip_on_success());
    assert!(!ToolKind::UpdatePlan.roundtrip_on_success());
    assert!(!ToolKind::UpdateTaskStatus.roundtrip_on_success());
    assert_eq!(robot_harness::tools::tool_not_found("grab"), "Tool 'grab' not found in registry");
}

#[test]
fn update_plan_rejects_two_tasks_in_progress() {
    let mut plan = vec![task("task_1", "old", TaskStatus::Pending)];
    let tasks = vec![
        task("task_1", "pick up the cube", TaskStatus::InProgress),
        task("task_2", "place the cube", TaskStatus::InProgress),
    ];
    let r = update_plan(&mut plan, tasks);
    assert_eq!(
        r,
        Err("Constraint violation: at most one task may be 'in_progress' at a time, but found 2. You must mark previous tasks as 'completed' or 'pending' before advancing the plan.".to_string())
    );
    assert_eq!(plan.len(), 1);
    assert_eq!(plan[0].description, "old");
}

#[test]
fn update_plan_replaces_the_plan() {
    let mut plan = Vec::new();
    let tasks = vec![
        task("task_1", "pick up the cube", TaskStatus::Completed),
        task("task_2", "place the cube", TaskStatus::InProgress),
    ];
    assert_eq!(update_plan(&mut plan, tasks), Ok("Plan updated successfully.".to_string()));
    assert_eq!(statuses(&plan), vec![TaskStatus::Completed, TaskStatus::InProgress]);
}

#[test]
fn create_plan_numbers_tasks_and_starts_the_first() {
    let mut plan = Vec::new();
    let descriptions: Vec<NewTask> =
        (0..12).map(|i| NewTask { description: format!("step {}", i) }).collect();
    assert_eq!(create_plan(&mut plan, descriptions), Ok("Plan updated successfully.".to_string()));
    assert_eq!(plan.len(), 12);
    assert_eq!(plan[0].id, "task_1");
    assert_eq!(plan[9].id, "task_10");
    assert_eq!(plan[11].id, "task_12");
    assert_eq!(plan[11].description, "step 11");
    assert_eq!(plan[0].status, TaskStatus::InProgress);
    assert!(plan[1..].iter().all(|t| t.status == TaskStatus::Pending));
}

#[test]
fn completing_a_task_advances_the_plan() {
    let mut plan = vec![
        task("task_1", "pick up", TaskStatus::InProgress),
        task("task_2", "place", TaskStatus::Pending),
        task("task_3", "push", TaskStatus::InProgress),
    ];
    let r = update_task_status(&mut plan, &complete("task_1"));
    assert_eq!(r, Ok("Successfully updated task 'task_1' and recalculated active states.".to_string()));
    assert_eq!(
        statuses(&plan),
        vec![TaskStatus::Completed, TaskStatus::InProgress, TaskStatus::Pending]
    );
    // completing a later task first: the earliest open task is in progress
    let r = update_task_status(&mut plan, &complete("task_3"));
    assert!(r.is_ok());
    assert_eq!(
        statuses(&plan),
        vec![TaskStatus::Completed, TaskStatus::InProgress, TaskStatus::Completed]
    );
    assert_eq!(plan[2].description, "push");
}

#[test]
fn completing_twice_is_completing_once() {
    let mut once = vec![
        task("a", "1", TaskStatus::Pending),
        task("b", "2", TaskStatus::InProgress),
        task("c", "3", TaskStatus::Pending),
    ];
    update_task_status(&mut once, &complete("b")).unwrap();
    let first = statuses(&once);
    update_task_status(&mut once, &complete("b")).unwrap();
    assert_eq!(statuses(&once), first);
    assert_eq!(first, vec![TaskStatus::InProgress, TaskStatus::Completed, TaskStatus::Pending]);
}

#[test]
fn completing_an_unknown_task_keeps_the_plan() {
    let mut plan = vec![task("task_1", "pick up", TaskStatus::InProgress)];
    let r = update_task_status(&mut plan, &complete("task_9"));
    assert_eq!(r, Err("Task ID 'task_9' not found in the current plan.".to_string()));
    assert_eq!(statuses(&plan), vec![TaskStatus::InProgress]);
}

#[test]
fn evaluation_is_over_when_every_task_is_completed() {
    assert!(plan_finished(&vec![]));
    assert!(plan_finished(&vec![task("a", "x", TaskStatus::Completed)]));
    assert!(!plan_finished(&vec![
        task("a", "x", TaskStatus::Completed),
        task("b", "y", TaskStatus::Pending)
    ]));
}

#[test]
fn request_options() {
    assert!(request_tools(vec![]).is_none());
    let t = as_api_tool("read_file", "d", JsonValue::Null);
    assert_eq!(request_tools(vec![t]).map(|v| v.len()), Some(1));
    assert_eq!(reasoning_effort(true), ReasoningEffort::Off);
    assert_eq!(reasoning_effort(false), ReasoningEffort::High);
}

#[test]
fn dispatch_finds_the_tool_or_names_the_missing_one() {
    let mut registry = ToolRegistry::new();
    registry.register(ToolKind::CreatePlan, args_schema("CreatePlanArgs", "tasks"));
    assert_eq!(registry.dispatch("create_plan"), Ok(ToolKind::CreatePlan));
    assert_eq!(registry.dispatch("read_file"), Err("Tool 'read_file' not found in registry".to_string()));
}

#[test]
fn plan_tools_say_when_the_plan_is_shown() {
    let mut plan: Vec<Task> = vec![];
    let (r, shown) = run_plan_tool(
        &mut plan,
        PlanToolCall::CreatePlan(vec![NewTask { description: "a".to_string() }, NewTask { description: "b".to_string() }]),
    );
    assert_eq!(r, Ok("Plan updated successfully.".to_string()));
    assert!(shown);
    assert_eq!(statuses(&plan), vec![TaskStatus::InProgress, TaskStatus::Pending]);
    let (r, shown) = run_plan_tool(&mut plan, PlanToolCall::UpdateTaskStatus(complete("task_9")));
    assert_eq!(r, Err("Task ID 'task_9' not found in the current plan.".to_string()));
    assert!(!shown);
    let (r, shown) = run_plan_tool(&mut plan, PlanToolCall::UpdateTaskStatus(complete("task_1")));
    assert!(r.is_ok());
    assert!(shown);
    assert_eq!(statuses(&plan), vec![TaskStatus::Completed, TaskStatus::InProgress]);
    let two = vec![task("x", "x", TaskStatus::InProgress), task("y", "y", TaskStatus::InProgress)];
    let (r, shown) = run_plan_tool(&mut plan, PlanToolCall::UpdatePlan(two));
    assert!(r.is_err());
    assert!(!shown);
    assert_eq!(plan.len(), 2);
    let (r, shown) = run_plan_tool(&mut plan, PlanToolCall::UpdatePlan(vec![task("x", "x", TaskStatus::Pending)]));
    assert!(r.is_ok());
    assert!(shown);
    assert_eq!(plan.len(), 1);
}

#[test]
fn completing_leaves_one_task_in_progress_and_the_rest_pending() {
    let mut plan = vec![
        task("task_1", "a", TaskStatus::Pending),
        task("task_2", "b", TaskStatus::InProgress),
        task("task_3", "c", TaskStatus::InProgress),
        task("task_4", "d", TaskStatus::Completed),
        task("task_5", "e", TaskStatus::InProgress),
    ];
    update_task_status(&mut plan, &complete("task_2")).unwrap();
    assert_eq!(
        statuses(&plan),
        vec![
            TaskStatus::InProgress,
            TaskStatus::Completed,
            TaskStatus::Pending,
            TaskStatus::Completed,
            TaskStatus::Pending,
        ]
    );
    let ids: Vec<&str> = plan.iter().map(|t| t.id.as_str()).collect();
    assert_eq!(ids, vec!["task_1", "task_2", "task_3", "task_4", "task_5"]);
}

#[test]
fn making_a_schema_strict_twice_is_making_it_strict_once() {
    let inner = JsonValue::Object(vec![
        member("properties", JsonValue::Object(vec![member("description", string_schema("d"))])),
        member("type", JsonValue::Str("object".to_string())),
    ]);
    let mut schema = JsonValue::Object(vec![
        member("items", JsonValue::Array(vec![inner])),
        member("properties", JsonValue::Object(vec![member("a", string_schema("x")), member("b", string_schema("y"))])),
    ]);
    enforce_strict_schema(&mut schema);
    let once = format!("{:?}", schema);
    enforce_strict_schema(&mut schema);
    assert_eq!(format!("{:?}", schema), once);
}
