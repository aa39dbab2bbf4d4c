//! The standard tools of a sandboxed agent.
use crate::ir_hash::{record2, record3, record4};
use crate::json::{Json, JsonV};
use crate::tool;
use vstd::prelude::*;

verus! {

/// A standard tool.
#[derive(Debug, Clone, Copy, PartialEq, Eq, Structural)]
pub enum StandardTool {
    Shell,
    Skill,
    Notify,
    Stop,
}

impl StandardTool {
    pub open spec fn text(self) -> Seq<char> {
        match self {
            StandardTool::Shell => "shell"@,
            StandardTool::Skill => "skill"@,
            StandardTool::Notify => "notify"@,
            StandardTool::Stop => "stop"@,
        }
    }

    pub open spec fn about(self) -> Seq<char> {
        match self {
            StandardTool::Shell => "Execute a command string using the SHELL environment variable."@,
            StandardTool::Skill => "agentd integration hook stub for skill discovery/loading."@,
            StandardTool::Notify => "agentd integration hook stub for progress notifications."@,
            StandardTool::Stop =>
                "agentd integration hook stub for explicit done/waiting/blocked stop signals."@,
        }
    }

    /// The schema of the arguments.
    pub open spec fn schema(self) -> JsonV {
        match self {
            StandardTool::Shell => tool::object_schema(
                JsonV::Object(seq![("command"@, tool::typed("string"@))]),
                seq!["command"@],
            ),
            StandardTool::Skill => JsonV::Object(
                seq![
                    (
                        "properties"@,
                        JsonV::Object(
                            seq![
                                ("operation"@, tool::typed("string"@)),
                                ("query"@, tool::typed("string"@)),
                            ],
                        ),
                    ),
                    ("type"@, JsonV::Str("object"@)),
                ],
            ),
            StandardTool::Notify => tool::object_schema(
                JsonV::Object(
                    seq![("level"@, tool::typed("string"@)), ("text"@, tool::typed("string"@))],
                ),
                seq!["text"@],
            ),
            StandardTool::Stop => tool::object_schema(
                JsonV::Object(
                    seq![("message"@, tool::typed("string"@)), ("reason"@, tool::typed("string"@))],
                ),
                seq!["reason"@],
            ),
        }
    }

    pub fn name(self) -> (r: &'static str)
        ensures
            r@ == self.text(),
    {
        match self {
            StandardTool::Shell => "shell",
            StandardTool::Skill => "skill",
            StandardTool::Notify => "notify",
            StandardTool::Stop => "stop",
        }
    }

    pub fn description(self) -> (r: &'static str)
        ensures
            r@ == self.about(),
    {
        match self {
            StandardTool::Shell => "Execute a command string using the SHELL environment variable.",
            StandardTool::Skill => "agentd integration hook stub for skill discovery/loading.",
            StandardTool::Notify => "agentd integration hook stub for progress notifications.",
            StandardTool::Stop =>
                "agentd integration hook stub for explicit done/waiting/blocked stop signals.",
        }
    }

    pub fn parameters(self) -> (r: Json)
        ensures
            r@ == self.schema(),
    {
        match self {
            StandardTool::Shell => tool::make_schema(
                crate::ir_hash::record1("command", tool::make_typed("string")),
                tool::texts1("command"),
            ),
            StandardTool::Skill => record2(
                "properties",
                record2(
                    "operation",
                    tool::make_typed("string"),
                    "query",
                    tool::make_typed("string"),
                ),
                "type",
                Json::text("object"),
            ),
            StandardTool::Notify => tool::make_schema(
                record2("level", tool::make_typed("string"), "text", tool::make_typed("string")),
                tool::texts1("text"),
            ),
            StandardTool::Stop => tool::make_schema(
                record2(
                    "message",
                    tool::make_typed("string"),
                    "reason",
                    tool::make_typed("string"),
                ),
                tool::texts1("reason"),
            ),
        }
    }

    /// What a tool that only stands for a hook answers; the shell has no such
    /// answer.
    pub fn stub_answer(self, args: &Json) -> (r: Option<Json>)
        ensures
            match r {
                Some(v) => self != StandardTool::Shell && v@ == stubbed(self, args@),
                None => self == StandardTool::Shell,
            },
    {
        match self {
            StandardTool::Shell => None,
            _ => {
                let ok = match self {
                    StandardTool::Skill => false,
                    _ => true,
                };
                Some(
                    record4(
                        "args",
                        args.clone(),
                        "ok",
                        Json::Bool(ok),
                        "stub",
                        Json::Bool(true),
                        "tool",
                        Json::text(self.name()),
                    ),
                )
            },
        }
    }
}

/// What a tool that only stands for a hook answers.
pub open spec fn stubbed(t: StandardTool, args: JsonV) -> JsonV {
    JsonV::Object(
        seq![
            ("args"@, args),
            ("ok"@, JsonV::Bool(t != StandardTool::Skill)),
            ("stub"@, JsonV::Bool(true)),
            ("tool"@, JsonV::Str(t.text())),
        ],
    )
}

/// The standard tools by name.
pub open spec fn standard() -> Seq<StandardTool> {
    seq![StandardTool::Shell, StandardTool::Skill, StandardTool::Notify, StandardTool::Stop]
}

/// The standard tools, each under its name.
pub fn standard_tools() -> (r: Vec<(String, StandardTool)>)
    ensures
        r@.len() == standard().len(),
        forall|i: int|
            0 <= i < r@.len() ==> (#[trigger] r@[i]).1 == standard()[i] && r@[i].0@
                == standard()[i].text(),
{
    let mut out: Vec<(String, StandardTool)> = Vec::new();
    out.push(("shell".to_owned(), StandardTool::Shell));
    out.push(("skill".to_owned(), StandardTool::Skill));
    out.push(("notify".to_owned(), StandardTool::Notify));
    out.push(("stop".to_owned(), StandardTool::Stop));
    out
}

/// The command that the shell is called with.
pub fn shell_command(args: &Json) -> (r: Result<String, String>)
    ensures
        match r {
            Ok(s) => args@.text_field("command"@) == Some(s@),
            Err(e) => args@.text_field("command"@) is None && e@
                == "shell.command must be a string"@,
        },
{
    match args.get_str("command") {
        Some(s) => Ok(s.to_owned()),
        None => Err("shell.command must be a string".to_owned()),
    }
}

/// The exit code of a command, if it has one.
pub open spec fn status_json(status: Option<i32>) -> JsonV {
    match status {
        Some(n) => JsonV::Int(n as int),
        None => JsonV::Null,
    }
}

/// What a finished command answers.
pub open spec fn shell_result(status: Option<i32>, stdout: Seq<char>, stderr: Seq<char>) -> JsonV {
    JsonV::Object(
        seq![
            ("status"@, status_json(status)),
            ("stderr"@, JsonV::Str(stderr)),
            ("stdout"@, JsonV::Str(stdout)),
        ],
    )
}

/// What a finished command answers.
pub fn shell_answer(status: Option<i32>, stdout: &str, stderr: &str) -> (r: Json)
    ensures
        r@ == shell_result(status, stdout@, stderr@),
{
    let code = match status {
        Some(n) => Json::Int(n as i128),
        None => Json::Null,
    };
    record3("status", code, "stderr", Json::text(stderr), "stdout", Json::text(stdout))
}

} // verus!
