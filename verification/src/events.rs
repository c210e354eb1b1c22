//! What the user typed, read as an action: a plain prompt, a prompt under a
//! skill, a planning request, a single-frame question or the evaluation loop.

use vstd::prelude::*;

use crate::skill::{lookup, Skill, SkillRegistry, SkillView};
use crate::text::{
    find_char, index_of, lemma_index_of_bounds, same_text, strip_leading,
    strip_leading_char, trim, trimmed,
};

verus! {

/// The kind of the latest streamed event that the chat shows.
#[derive(Clone, Copy, Debug, PartialEq, Eq, Structural)]
pub enum EventKind {
    /// No event yet.
    Nothing,
    Reasoning,
    Content,
    Tool,
    Other,
}

/// What a submitted prompt asks for.
#[derive(Debug)]
pub enum UserAction {
    Standard { prompt: String, skill: Option<Skill> },
    Planner { goal: String, skill: Skill },
    Eval,
    Frame { prompt: String },
}

pub enum UserActionView {
    Standard { prompt: Seq<char>, skill: Option<SkillView> },
    Planner { goal: Seq<char>, skill: SkillView },
    Eval,
    Frame { prompt: Seq<char> },
}

impl View for UserAction {
    type V = UserActionView;

    open spec fn view(&self) -> UserActionView {
        match self {
            UserAction::Standard { prompt, skill } => UserActionView::Standard {
                prompt: prompt@,
                skill: match skill {
                    Some(s) => Some(s@),
                    None => None,
                },
            },
            UserAction::Planner { goal, skill } => UserActionView::Planner {
                goal: goal@,
                skill: skill@,
            },
            UserAction::Eval => UserActionView::Eval,
            UserAction::Frame { prompt } => UserActionView::Frame { prompt: prompt@ },
        }
    }
}

/// Whether `c` opens a command: a backslash, the usual form (`\planner
/// <goal>`, `\eval_loop`), or a slash.
pub open spec fn is_command_mark(c: char) -> bool {
    c == '\\' || c == '/'
}

/// The command word of the trimmed prompt `p`, which starts with a command
/// mark: what stands before its first space, without the leading marks of
/// that kind.
pub open spec fn command_of(p: Seq<char>) -> Seq<char>
    recommends
        p.len() > 0,
{
    strip_leading(p.subrange(0, index_of(p, ' ')), p[0])
}

/// The arguments of the trimmed prompt `p`: what follows its first space,
/// trimmed; empty where it has no space.
pub open spec fn arguments_of(p: Seq<char>) -> Seq<char> {
    let sp = index_of(p, ' ');
    if sp < p.len() {
        trim(p.subrange(sp + 1, p.len() as int))
    } else {
        Seq::empty()
    }
}

/// Whether the command word `cmd` starts the evaluation loop: `eval_loop`,
/// or its short form `eval`.
pub open spec fn is_eval_command(cmd: Seq<char>) -> bool {
    cmd == "eval_loop"@ || cmd == "eval"@
}

/// The action that the prompt `raw` asks for, with the skills `skills`.
pub open spec fn parse_spec(raw: Seq<char>, skills: Seq<SkillView>) -> UserActionView {
    let p = trim(raw);
    if !(p.len() > 0 && is_command_mark(p[0])) {
        UserActionView::Standard { prompt: p, skill: None }
    } else {
        let cmd = command_of(p);
        let args = arguments_of(p);
        if is_eval_command(cmd) {
            UserActionView::Eval
        } else if cmd == "frame"@ {
            UserActionView::Frame { prompt: args }
        } else if cmd == "planner"@ {
            match lookup(skills, cmd) {
                Some(s) => UserActionView::Planner { goal: "Goal: "@ + args, skill: s },
                None => UserActionView::Standard { prompt: args, skill: None },
            }
        } else {
            match lookup(skills, cmd) {
                Some(s) => UserActionView::Standard { prompt: args, skill: Some(s) },
                None => UserActionView::Standard { prompt: p, skill: None },
            }
        }
    }
}

impl UserAction {
    /// Reads a submitted prompt. A command starts with `\` (or `/`); a
    /// prompt that starts with neither is sent as it is (trimmed).
    /// `\eval_loop` (or `\eval`) starts the evaluation loop; `\frame args`
    /// asks about the current camera frame; `\planner args` plans the goal
    /// `args` with the planner skill; `\name args` sends `args` under the
    /// skill `name`; an unknown command is sent as it is.
    pub fn parse(raw_prompt: &str, registry: &SkillRegistry) -> (r: UserAction)
        ensures
            r@ == parse_spec(raw_prompt@, registry@),
    {
        let prompt = trimmed(raw_prompt);
        let n = prompt.as_str().unicode_len();
        if n == 0 {
            return UserAction::Standard { prompt, skill: None };
        }
        let mark = prompt.as_str().get_char(0);
        if mark != '\\' && mark != '/' {
            return UserAction::Standard { prompt, skill: None };
        }
        let sp = find_char(prompt.as_str(), ' ');
        proof {
            lemma_index_of_bounds(prompt@, ' ');
        }
        let cmd = strip_leading_char(prompt.as_str().substring_char(0, sp), mark);
        let args = if sp < n {
            trimmed(prompt.as_str().substring_char(sp + 1, n))
        } else {
            String::new()
        };
        assert(cmd@ == command_of(prompt@));
        assert(args@ == arguments_of(prompt@));
        if same_text(cmd.as_str(), "eval_loop") || same_text(cmd.as_str(), "eval") {
            UserAction::Eval
        } else if same_text(cmd.as_str(), "frame") {
            UserAction::Frame { prompt: args }
        } else if same_text(cmd.as_str(), "planner") {
            match registry.get(cmd.as_str()) {
                Some(skill) => {
                    let mut goal = String::from_str("Goal: ");
                    goal.append(args.as_str());
                    UserAction::Planner { goal, skill }
                },
                None => UserAction::Standard { prompt: args, skill: None },
            }
        } else {
            match registry.get(cmd.as_str()) {
                Some(skill) => UserAction::Standard { prompt: args, skill: Some(skill) },
                None => UserAction::Standard { prompt, skill: None },
            }
        }
    }
}

} // verus!
