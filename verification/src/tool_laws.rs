//! What tools are offered, and how their schemas and answers read.
use crate::ir_hash;
use crate::json;
use crate::json::{Fields, JsonV};
use crate::naming;
use crate::naming::mark;
use crate::provider::ToolSpecV;
use crate::text;
use crate::tool;
use crate::tool::{NativeToolV, ToolGuidanceV};
use crate::tools;
use crate::tools::StandardTool;
use vstd::prelude::*;

verus! {

/// The names in schemas and answers tell themselves apart.
proof fn schema_names()
    ensures
        mark("properties"@) == (10nat, 'p', 's', 'r'),
        mark("required"@) == (8nat, 'r', 'd', 'i'),
        mark("type"@) == (4nat, 't', 'e', 'p'),
        mark("command"@) == (7nat, 'c', 'd', 'm'),
        mark("content"@) == (7nat, 'c', 't', 't'),
        mark("query"@) == (5nat, 'q', 'y', 'e'),
        mark("model"@) == (5nat, 'm', 'l', 'd'),
        mark("prompt"@) == (6nat, 'p', 't', 'm'),
        mark("context_refs"@) == (12nat, 'c', 's', 't'),
        mark("name"@) == (4nat, 'n', 'e', 'm'),
        mark("description"@) == (11nat, 'd', 'n', 'i'),
        mark("items"@) == (5nat, 'i', 's', 'e'),
        mark("enum"@) == (4nat, 'e', 'm', 'u'),
        mark("text"@) == (4nat, 't', 't', 'x'),
        mark("level"@) == (5nat, 'l', 'l', 'v'),
        mark("reason"@) == (6nat, 'r', 'n', 's'),
        mark("message"@) == (7nat, 'm', 'e', 's'),
        mark("status"@) == (6nat, 's', 's', 't'),
        mark("stdout"@) == (6nat, 's', 't', 'o'),
        mark("stderr"@) == (6nat, 's', 'r', 'e'),
        mark("args"@) == (4nat, 'a', 's', 'g'),
        mark("ok"@) == (2nat, 'o', 'k', 'k'),
        mark("stub"@) == (4nat, 's', 'b', 'u'),
        mark("tool"@) == (4nat, 't', 'l', 'o'),
        mark("shell"@) == (5nat, 's', 'l', 'e'),
        mark("infer"@) == (5nat, 'i', 'r', 'f'),
        mark("remember"@) == (8nat, 'r', 'r', 'm'),
        mark("recall"@) == (6nat, 'r', 'l', 'a'),
        mark("skill"@) == (5nat, 's', 'l', 'i'),
        mark("notify"@) == (6nat, 'n', 'y', 'i'),
        mark("stop"@) == (4nat, 's', 'p', 'o'),
{
    reveal_strlit("properties");
    reveal_strlit("required");
    reveal_strlit("type");
    reveal_strlit("command");
    reveal_strlit("content");
    reveal_strlit("query");
    reveal_strlit("model");
    reveal_strlit("prompt");
    reveal_strlit("context_refs");
    reveal_strlit("name");
    reveal_strlit("description");
    reveal_strlit("items");
    reveal_strlit("enum");
    reveal_strlit("text");
    reveal_strlit("level");
    reveal_strlit("reason");
    reveal_strlit("message");
    reveal_strlit("status");
    reveal_strlit("stdout");
    reveal_strlit("stderr");
    reveal_strlit("args");
    reveal_strlit("ok");
    reveal_strlit("stub");
    reveal_strlit("tool");
    reveal_strlit("shell");
    reveal_strlit("infer");
    reveal_strlit("remember");
    reveal_strlit("recall");
    reveal_strlit("skill");
    reveal_strlit("notify");
    reveal_strlit("stop");
}

/// A schema for objects is one, with the properties that it is made of and the
/// names of those that are required, in their order.
pub proof fn object_schemas_read(properties: JsonV, required: Seq<Seq<char>>)
    ensures
        ({
            let s = tool::object_schema(properties, required);
            &&& s.field("type"@) == Some(JsonV::Str("object"@))
            &&& s.field("properties"@) == Some(properties)
            &&& s.field("required"@) matches Some(JsonV::Array(l))
            &&& l.len() == required.len()
            &&& forall|i: int| 0 <= i < l.len() ==> #[trigger] l[i] == JsonV::Str(required[i])
        }),
{
    broadcast use naming::group_naming;

    schema_names();
    let s = tool::object_schema(properties, required);
    let f = Seq::empty().push(("properties"@, properties)).push(
        ("required"@, ir_hash::texts_json(required)),
    ).push(("type"@, JsonV::Str("object"@)));
    assert(s->Object_0 =~= f);
}

/// Whether a tool takes a property and needs it.
pub open spec fn needs(t: ToolSpecV, name: Seq<char>) -> bool {
    &&& t.function.parameters.field("required"@) matches Some(JsonV::Array(l))
    &&& l.contains(JsonV::Str(name))
    &&& t.function.parameters.field("properties"@) matches Some(p)
    &&& p.field(name) is Some
}

proof fn needed(t: ToolSpecV, properties: Fields, required: Seq<Seq<char>>, i: int)
    requires
        t.function.parameters == tool::object_schema(JsonV::Object(properties), required),
        0 <= i < required.len(),
        json::lookup(properties, required[i]) is Some,
    ensures
        needs(t, required[i]),
{
    object_schemas_read(JsonV::Object(properties), required);
    let l = t.function.parameters.field("required"@)->0->Array_0;
    assert(l[i] == JsonV::Str(required[i]));
}

/// The shell needs a command, an inner inference a model and a prompt, a new
/// memory its content and a recall its query; each goes by its own name.
pub proof fn tools_need_their_arguments(g: ToolGuidanceV)
    ensures
        tool::shell_tool().function.name == "shell"@,
        needs(tool::shell_tool(), "command"@),
        tool::infer_tool(g).function.name == "infer"@,
        tool::infer_tool(g).function.description == g.infer,
        needs(tool::infer_tool(g), "model"@),
        needs(tool::infer_tool(g), "prompt"@),
        tool::remember_tool(g).function.name == "remember"@,
        tool::remember_tool(g).function.description == g.remember,
        needs(tool::remember_tool(g), "content"@),
        tool::recall_tool(g).function.name == "recall"@,
        tool::recall_tool(g).function.description == g.recall,
        needs(tool::recall_tool(g), "query"@),
{
    broadcast use naming::group_naming;

    schema_names();
    let text = tool::typed("string"@);
    let f = Seq::empty().push(("command"@, text));
    assert(seq![("command"@, text)] =~= f);
    needed(tool::shell_tool(), seq![("command"@, text)], seq!["command"@], 0);
    let refs = JsonV::Object(
        seq![
            ("description"@, JsonV::Str(g.infer_context_refs)),
            ("items"@, tool::typed("string"@)),
            ("type"@, JsonV::Str("array"@)),
        ],
    );
    let p = seq![("context_refs"@, refs), ("model"@, text), ("prompt"@, text)];
    let f = Seq::empty().push(("context_refs"@, refs)).push(("model"@, text)).push(
        ("prompt"@, text),
    );
    assert(p =~= f);
    needed(tool::infer_tool(g), p, seq!["model"@, "prompt"@], 0);
    needed(tool::infer_tool(g), p, seq!["model"@, "prompt"@], 1);
    let f = Seq::empty().push(("query"@, text));
    assert(seq![("query"@, text)] =~= f);
    needed(tool::recall_tool(g), seq![("query"@, text)], seq!["query"@], 0);
    let kinds = JsonV::Object(
        seq![
            (
                "enum"@,
                ir_hash::texts_json(seq!["user"@, "feedback"@, "project"@, "reference"@]),
            ),
            ("type"@, JsonV::Str("string"@)),
        ],
    );
    let a = tool::described("the fact to keep"@);
    let b = tool::described("one-line summary used for recall relevance"@);
    let c = tool::described(
        "optional kebab-case slug; derived from the description or content when omitted"@,
    );
    let p = seq![("content"@, a), ("description"@, b), ("name"@, c), ("type"@, kinds)];
    let f = Seq::empty().push(("content"@, a)).push(("description"@, b)).push(("name"@, c)).push(
        ("type"@, kinds),
    );
    assert(p =~= f);
    needed(tool::remember_tool(g), p, seq!["content"@], 0);
}

/// The tools for memories are offered exactly where there is a memory; the shell
/// and the inner inference always are, and they come first.
pub proof fn memory_tools_need_a_memory(g: ToolGuidanceV, memory: bool, i: int)
    requires
        0 <= i < tool::built_in(memory, g).len(),
    ensures
        tool::built_in(memory, g)[0].function.name == "shell"@,
        tool::built_in(memory, g)[1].function.name == "infer"@,
        memory <==> tool::built_in(memory, g).len() == 4,
        !memory <==> tool::built_in(memory, g).len() == 2,
        memory ==> tool::built_in(memory, g)[2].function.name == "remember"@ && tool::built_in(
            memory,
            g,
        )[3].function.name == "recall"@,
        tool::reserved(tool::built_in(memory, g)[i].function.name),
{
}

/// The names of the built-in tools are taken, and no other name is.
pub proof fn built_in_names_are_taken(name: Seq<char>)
    ensures
        tool::reserved("shell"@),
        tool::reserved("infer"@),
        tool::reserved("remember"@),
        tool::reserved("recall"@),
        tool::reserved(name) ==> name == "shell"@ || name == "infer"@ || name == "remember"@ || name
            == "recall"@,
{
}

/// A registered tool is found under its name, and advertised as it was described;
/// every other tool stays what it was.
pub proof fn registered_tools_are_found(list: Seq<NativeToolV>, t: NativeToolV, name: Seq<char>)
    requires
        tool::in_order(list),
        tool::find(list, t.name) is None,
    ensures
        tool::find(tool::placed(list, t), t.name) == Some(t),
        name != t.name ==> tool::find(tool::placed(list, t), name) == tool::find(list, name),
        tool::in_order(tool::placed(list, t)),
        tool::placed(list, t).len() == list.len() + 1,
{
    tool::placing_keeps_order(list, t);
    placing_finds(list, t);
}

proof fn placing_finds(list: Seq<NativeToolV>, t: NativeToolV)
    requires
        tool::find(list, t.name) is None,
    ensures
        tool::find(tool::placed(list, t), t.name) == Some(t),
        tool::placed(list, t).len() == list.len() + 1,
    decreases list.len(),
{
    let p = tool::placed(list, t);
    if list.len() > 0 && !text::text_lt(t.name, list[0].name) {
        placing_finds(list.drop_first(), t);
        assert(p.drop_first() =~= tool::placed(list.drop_first(), t));
        assert(p[0] == list[0]);
    }
}

/// A tool is advertised under its name, with its description and its parameters,
/// as a function.
pub proof fn tools_are_advertised_as_they_are(list: Seq<NativeToolV>, i: int)
    requires
        0 <= i < list.len(),
    ensures
        tool::advertised(list).len() == list.len(),
        tool::advertised(list)[i].kind == "function"@,
        tool::advertised(list)[i].function.name == list[i].name,
        tool::advertised(list)[i].function.description == list[i].description,
        tool::advertised(list)[i].function.parameters == list[i].parameters,
{
}

/// A list of names offers the tools of those names and no other, in the order in
/// which there are tools; names of no tool add nothing.
pub proof fn offers_are_narrowed_by_name(specs: Seq<ToolSpecV>, names: Seq<Seq<char>>, t: ToolSpecV)
    ensures
        tool::narrowed(specs, names).contains(t) <==> specs.contains(t) && names.contains(
            t.function.name,
        ),
        tool::narrowed(specs, names).len() <= specs.len(),
        (forall|i: int| 0 <= i < specs.len() ==> names.contains((#[trigger] specs[i]).function.name))
            ==> tool::narrowed(specs, names) == specs,
    decreases specs.len(),
{
    if specs.len() > 0 {
        let less = specs.drop_last();
        let last = specs.last();
        offers_are_narrowed_by_name(less, names, t);
        let a = tool::narrowed(less, names);
        let b = tool::narrowed(specs, names);
        if a.contains(t) {
            let k = choose|k: int| 0 <= k < a.len() && a[k] == t;
            assert(b[k] == t);
        }
        if less.contains(t) {
            let k = choose|k: int| 0 <= k < less.len() && less[k] == t;
            assert(specs[k] == t);
        }
        if t == last {
            assert(specs[specs.len() - 1] == t);
            if names.contains(t.function.name) {
                assert(b[b.len() - 1] == t);
            }
        }
        if specs.contains(t) {
            let k = choose|k: int| 0 <= k < specs.len() && specs[k] == t;
            if k < less.len() {
                assert(less[k] == t);
            }
        }
        if b.contains(t) {
            let k = choose|k: int| 0 <= k < b.len() && b[k] == t;
            if k < a.len() {
                assert(a[k] == t);
            }
        }
        if forall|i: int|
            0 <= i < specs.len() ==> names.contains((#[trigger] specs[i]).function.name) {
            assert forall|i: int| 0 <= i < less.len() implies names.contains(
                (#[trigger] less[i]).function.name,
            ) by {
                assert(less[i] == specs[i]);
            }
            assert(names.contains(specs[specs.len() - 1].function.name));
            assert(less.push(last) =~= specs);
        }
    }
}

/// What a finished command answers says how it ended and what it printed, each
/// under its own name; a command that was cut off has no exit code.
pub proof fn answers_of_commands_read(n: i32, stdout: Seq<char>, stderr: Seq<char>)
    ensures
        ({
            let r = tools::shell_result(Some(n), stdout, stderr);
            &&& r.field("status"@) == Some(JsonV::Int(n as int))
            &&& r.field("stdout"@) == Some(JsonV::Str(stdout))
            &&& r.field("stderr"@) == Some(JsonV::Str(stderr))
            &&& tools::shell_result(None, stdout, stderr).field("status"@) == Some(JsonV::Null)
        }),
{
    broadcast use naming::group_naming;

    schema_names();
    let r = tools::shell_result(Some(n), stdout, stderr);
    let f = Seq::empty().push(("status"@, JsonV::Int(n as int))).push(
        ("stderr"@, JsonV::Str(stderr)),
    ).push(("stdout"@, JsonV::Str(stdout)));
    assert(r->Object_0 =~= f);
    let q = tools::shell_result(None, stdout, stderr);
    let f = Seq::empty().push(("status"@, JsonV::Null)).push(("stderr"@, JsonV::Str(stderr))).push(
        ("stdout"@, JsonV::Str(stdout)),
    );
    assert(q->Object_0 =~= f);
}

/// A tool that only stands for a hook says so, names itself and hands back what
/// it was given.
pub proof fn stubs_say_what_they_are(t: StandardTool, args: JsonV)
    ensures
        ({
            let r = tools::stubbed(t, args);
            &&& r.field("stub"@) == Some(JsonV::Bool(true))
            &&& r.field("args"@) == Some(args)
            &&& r.field("tool"@) == Some(JsonV::Str(t.text()))
            &&& r.field("ok"@) == Some(JsonV::Bool(t != StandardTool::Skill))
        }),
{
    broadcast use naming::group_naming;

    schema_names();
    let r = tools::stubbed(t, args);
    let f = Seq::empty().push(("args"@, args)).push(
        ("ok"@, JsonV::Bool(t != StandardTool::Skill)),
    ).push(("stub"@, JsonV::Bool(true))).push(("tool"@, JsonV::Str(t.text())));
    assert(r->Object_0 =~= f);
}

/// The standard tools have names of their own, and each needs what it works on.
pub proof fn standard_tools_are_told_apart(a: StandardTool, b: StandardTool)
    ensures
        a.text() == b.text() ==> a == b,
        StandardTool::Shell.text() == "shell"@,
        StandardTool::Skill.text() == "skill"@,
        StandardTool::Notify.text() == "notify"@,
        StandardTool::Stop.text() == "stop"@,
        tools::standard().contains(a),
        StandardTool::Shell.schema().field("required"@) == Some(
            ir_hash::texts_json(seq!["command"@]),
        ),
        StandardTool::Notify.schema().field("required"@) == Some(
            ir_hash::texts_json(seq!["text"@]),
        ),
        StandardTool::Stop.schema().field("required"@) == Some(
            ir_hash::texts_json(seq!["reason"@]),
        ),
        StandardTool::Skill.schema().field("required"@) is None,
{
    broadcast use naming::group_naming;

    schema_names();
    let all = tools::standard();
    assert(all[0] == StandardTool::Shell && all[1] == StandardTool::Skill);
    assert(all[2] == StandardTool::Notify && all[3] == StandardTool::Stop);
    object_schemas_read(
        JsonV::Object(seq![("command"@, tool::typed("string"@))]),
        seq!["command"@],
    );
    let s = StandardTool::Skill.schema()->Object_0;
    let f = Seq::empty().push(s[0]).push(s[1]);
    assert(s =~= f);
    schema_requires(StandardTool::Shell.schema(), seq!["command"@]);
    schema_requires(StandardTool::Notify.schema(), seq!["text"@]);
    schema_requires(StandardTool::Stop.schema(), seq!["reason"@]);
}

proof fn schema_requires(s: JsonV, required: Seq<Seq<char>>)
    requires
        s is Object,
        s->Object_0.len() == 3,
        s == tool::object_schema(s->Object_0[0].1, required),
    ensures
        s.field("required"@) == Some(ir_hash::texts_json(required)),
{
    broadcast use naming::group_naming;

    schema_names();
    let f = Seq::empty().push(("properties"@, s->Object_0[0].1)).push(
        ("required"@, ir_hash::texts_json(required)),
    ).push(("type"@, JsonV::Str("object"@)));
    assert(s->Object_0 =~= f);
}

/// Whether a tool needs nothing but one property, a text.
pub open spec fn needs_only(schema: JsonV, name: Seq<char>) -> bool {
    &&& schema.field("type"@) == Some(JsonV::Str("object"@))
    &&& schema.field("required"@) matches Some(JsonV::Array(l))
    &&& l.len() == 1 && l[0] == JsonV::Str(name)
    &&& schema.field("properties"@) matches Some(p)
    &&& p.field(name) matches Some(t)
    &&& t.field("type"@) == Some(JsonV::Str("string"@))
}

/// The standard tools ask for one text each and no more: a command, what is to be
/// told, and why a run stops; a look for skills asks for nothing that it needs.
pub proof fn standard_tools_ask_for_one_text()
    ensures
        needs_only(StandardTool::Shell.schema(), "command"@),
        needs_only(StandardTool::Notify.schema(), "text"@),
        needs_only(StandardTool::Stop.schema(), "reason"@),
        needs_only(tool::shell_tool().function.parameters, "command"@),
        StandardTool::Skill.schema().field("required"@) is None,
        StandardTool::Skill.schema().field("type"@) == Some(JsonV::Str("object"@)),
        StandardTool::Skill.schema().field("properties"@) matches Some(p) && p.field(
            "operation"@,
        ) is Some && p.field("query"@) is Some,
{
    broadcast use naming::group_naming;

    schema_names();
    reveal_strlit("text");
    reveal_strlit("level");
    reveal_strlit("reason");
    reveal_strlit("message");
    reveal_strlit("operation");
    assert(mark("text"@) == (4nat, 't', 't', 'x'));
    assert(mark("level"@) == (5nat, 'l', 'l', 'v'));
    assert(mark("reason"@) == (6nat, 'r', 'n', 's'));
    assert(mark("message"@) == (7nat, 'm', 'e', 's'));
    assert(mark("operation"@) == (9nat, 'o', 'n', 'a'));
    assert(mark("query"@) == (5nat, 'q', 'y', 'e'));
    let t = tool::typed("string"@);
    let f = Seq::empty().push(("type"@, JsonV::Str("string"@)));
    assert(t->Object_0 =~= f);
    let command = seq![("command"@, t)];
    assert(command =~= Seq::empty().push(("command"@, t)));
    object_schemas_read(JsonV::Object(command), seq!["command"@]);
    let told = seq![("level"@, t), ("text"@, t)];
    assert(told =~= Seq::empty().push(("level"@, t)).push(("text"@, t)));
    object_schemas_read(JsonV::Object(told), seq!["text"@]);
    let why = seq![("message"@, t), ("reason"@, t)];
    assert(why =~= Seq::empty().push(("message"@, t)).push(("reason"@, t)));
    object_schemas_read(JsonV::Object(why), seq!["reason"@]);
    let asked = seq![("operation"@, t), ("query"@, t)];
    assert(asked =~= Seq::empty().push(("operation"@, t)).push(("query"@, t)));
    let skill = StandardTool::Skill.schema();
    let g = Seq::empty().push(("properties"@, JsonV::Object(asked))).push(
        ("type"@, JsonV::Str("object"@)),
    );
    assert(skill->Object_0 =~= g);
}

/// What the standard tools say of themselves.
pub proof fn standard_tools_describe_themselves()
    ensures
        StandardTool::Shell.about()
            == "Execute a command string using the SHELL environment variable."@,
        StandardTool::Skill.about()
            == "agentd integration hook stub for skill discovery/loading."@,
        StandardTool::Notify.about()
            == "agentd integration hook stub for progress notifications."@,
        StandardTool::Stop.about()
            == "agentd integration hook stub for explicit done/waiting/blocked stop signals."@,
        tool::shell_tool().function.description
            == "Execute a command string using the configured shell."@,
{
}

/// Narrowing tools keeps their order: one tool more is offered behind the others, if
/// its name is listed.
pub proof fn narrowing_keeps_the_order(specs: Seq<ToolSpecV>, names: Seq<Seq<char>>, t: ToolSpecV)
    ensures
        tool::narrowed(Seq::empty(), names).len() == 0,
        names.contains(t.function.name) ==> tool::narrowed(specs.push(t), names) == tool::narrowed(
            specs,
            names,
        ).push(t),
        !names.contains(t.function.name) ==> tool::narrowed(specs.push(t), names) == tool::narrowed(
            specs,
            names,
        ),
{
    assert(specs.push(t).drop_last() =~= specs);
}

} // verus!
