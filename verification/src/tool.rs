//! Native tools: their registry, and the tools that a loop offers.
use crate::ir_hash;
use crate::ir_hash::{encode_texts, record1, record2, record3, record4};
use crate::json::{Json, JsonV};
use crate::op;
use crate::op::push_string;
use crate::provider;
use crate::provider::{ToolSpec, ToolSpecV};
use crate::text;
use crate::text::{debug_quoted, is_blank, precedes, same_text};
use vstd::prelude::*;

verus! {

/// A tool as it is registered: what the model is told of it.
#[derive(Debug)]
pub struct NativeTool {
    pub name: String,
    pub description: String,
    pub parameters: Json,
}

/// The model of a native tool.
pub struct NativeToolV {
    pub name: Seq<char>,
    pub description: Seq<char>,
    pub parameters: JsonV,
}

impl NativeTool {
    pub open spec fn view(&self) -> NativeToolV {
        NativeToolV {
            name: self.name@,
            description: self.description@,
            parameters: self.parameters@,
        }
    }
}

impl NativeTool {
    pub fn new(name: String, description: String, parameters: Json) -> (r: NativeTool)
        ensures
            r@ == (NativeToolV {
                name: name@,
                description: description@,
                parameters: parameters@,
            }),
    {
        NativeTool { name, description, parameters }
    }
}

impl Clone for NativeTool {
    fn clone(&self) -> (r: Self)
        ensures
            r@ == self@,
    {
        NativeTool {
            name: self.name.clone(),
            description: self.description.clone(),
            parameters: self.parameters.clone(),
        }
    }
}

/// Whether a name belongs to a built-in tool.
pub open spec fn reserved(name: Seq<char>) -> bool {
    name == "shell"@ || name == "infer"@ || name == "remember"@ || name == "recall"@
}

/// Whether a name belongs to a built-in tool.
pub fn is_reserved(name: &str) -> (r: bool)
    ensures
        r == reserved(name@),
{
    same_text(name, "shell") || same_text(name, "infer") || same_text(name, "remember")
        || same_text(name, "recall")
}

/// The names of the built-in tools.
pub fn reserved_tool_names() -> (r: Vec<String>)
    ensures
        op::texts(r@) == seq!["shell"@, "infer"@, "remember"@, "recall"@],
        forall|i: int| 0 <= i < r@.len() ==> reserved((#[trigger] r@[i])@),
{
    let mut out: Vec<String> = Vec::new();
    out.push("shell".to_owned());
    out.push("infer".to_owned());
    out.push("remember".to_owned());
    out.push("recall".to_owned());
    assert(op::texts(out@) =~= seq!["shell"@, "infer"@, "remember"@, "recall"@]);
    out
}

/// Why a tool is not registered.
#[derive(Debug)]
pub enum RegisterError {
    /// The name is blank.
    Empty,
    /// The name belongs to a built-in tool.
    Reserved(String),
    /// The name is taken.
    Duplicate(String),
}

/// The text of a refusal.
pub open spec fn register_error_text(e: RegisterError) -> Seq<char> {
    match e {
        RegisterError::Empty => "native tool name must be non-empty"@,
        RegisterError::Reserved(name) => "native tool name "@ + text::quoted(name@)
            + " is reserved by a built-in tool (shell, infer, remember, recall)"@,
        RegisterError::Duplicate(name) => "native tool "@ + text::quoted(name@)
            + " is already registered"@,
    }
}

impl RegisterError {
    /// The text of the refusal.
    pub fn message(&self) -> (r: String)
        ensures
            r@ == register_error_text(*self),
    {
        match self {
            RegisterError::Empty => "native tool name must be non-empty".to_owned(),
            RegisterError::Reserved(name) => {
                let mut out = "native tool name ".to_owned();
                out.append(debug_quoted(name.as_str()).as_str());
                out.append(" is reserved by a built-in tool (shell, infer, remember, recall)");
                out
            },
            RegisterError::Duplicate(name) => {
                let mut out = "native tool ".to_owned();
                out.append(debug_quoted(name.as_str()).as_str());
                out.append(" is already registered");
                out
            },
        }
    }
}

/// The native tools of a runtime, by name.
#[derive(Debug)]
pub struct ToolRegistry {
    tools: Vec<NativeTool>,
}

/// Tools in the order of their names, no name twice.
pub open spec fn in_order(list: Seq<NativeToolV>) -> bool {
    forall|i: int, j: int|
        0 <= i < j < list.len() ==> text::text_lt(#[trigger] list[i].name, #[trigger] list[j].name)
}

/// The tool with a name.
pub open spec fn find(list: Seq<NativeToolV>, name: Seq<char>) -> Option<NativeToolV>
    decreases list.len(),
{
    if list.len() == 0 {
        None
    } else if list[0].name == name {
        Some(list[0])
    } else {
        find(list.drop_first(), name)
    }
}

/// The tools with one more, placed by its name.
pub open spec fn placed(list: Seq<NativeToolV>, t: NativeToolV) -> Seq<NativeToolV>
    decreases list.len(),
{
    if list.len() == 0 {
        seq![t]
    } else if text::text_lt(t.name, list[0].name) {
        seq![t] + list
    } else {
        seq![list[0]] + placed(list.drop_first(), t)
    }
}

/// The models of a list of tools.
pub open spec fn tools_of(list: Seq<NativeTool>) -> Seq<NativeToolV> {
    Seq::new(list.len(), |i: int| list[i]@)
}

proof fn placed_at(list: Seq<NativeToolV>, t: NativeToolV, i: int)
    requires
        0 <= i <= list.len(),
        forall|j: int| 0 <= j < i ==> !text::text_lt(t.name, (#[trigger] list[j]).name),
        i < list.len() ==> text::text_lt(t.name, list[i].name),
    ensures
        placed(list, t) == list.insert(i, t),
    decreases i,
{
    if i == 0 {
        if list.len() == 0 {
            assert(list.insert(0, t) =~= seq![t]);
        } else {
            assert(list.insert(0, t) =~= seq![t] + list);
        }
    } else {
        let rest = list.drop_first();
        assert(!text::text_lt(t.name, list[0].name));
        assert forall|j: int| 0 <= j < i - 1 implies !text::text_lt(
            t.name,
            (#[trigger] rest[j]).name,
        ) by {
            assert(!text::text_lt(t.name, list[j + 1].name));
        }
        placed_at(rest, t, i - 1);
        assert(seq![list[0]] + rest.insert(i - 1, t) =~= list.insert(i, t));
    }
}

proof fn found_at(list: Seq<NativeToolV>, name: Seq<char>)
    ensures
        match find(list, name) {
            Some(t) => t.name == name && list.contains(t),
            None => forall|i: int| 0 <= i < list.len() ==> (#[trigger] list[i]).name != name,
        },
    decreases list.len(),
{
    if list.len() > 0 {
        found_at(list.drop_first(), name);
        let rest = list.drop_first();
        match find(list, name) {
            Some(t) => {
                if list[0].name == name {
                    assert(list[0] == t);
                } else {
                    let i = choose|i: int| 0 <= i < rest.len() && rest[i] == t;
                    assert(list[i + 1] == t);
                }
            },
            None => {
                assert forall|i: int| 0 <= i < list.len() implies (#[trigger] list[i]).name
                    != name by {
                    if i > 0 {
                        assert(rest[i - 1].name != name);
                    }
                }
            },
        }
    }
}

/// Placing a new name keeps the order.
pub proof fn placing_keeps_order(list: Seq<NativeToolV>, t: NativeToolV)
    requires
        in_order(list),
        find(list, t.name) is None,
    ensures
        in_order(placed(list, t)),
        find(placed(list, t), t.name) == Some(t),
        forall|name: Seq<char>|
            name != t.name ==> #[trigger] find(placed(list, t), name) == find(list, name),
    decreases list.len(),
{
    found_at(list, t.name);
    if list.len() == 0 {
        assert(seq![t].drop_first() =~= list);
        assert forall|name: Seq<char>| name != t.name implies #[trigger] find(
            placed(list, t),
            name,
        ) == find(list, name) by {
            assert(find(list, name) is None);
        }
    } else if text::text_lt(t.name, list[0].name) {
        let p = seq![t] + list;
        assert(p.drop_first() =~= list);
        assert forall|name: Seq<char>| name != t.name implies #[trigger] find(
            placed(list, t),
            name,
        ) == find(list, name) by {
            assert(p[0].name != name);
        }
        assert forall|i: int, j: int| 0 <= i < j < p.len() implies text::text_lt(
            #[trigger] p[i].name,
            #[trigger] p[j].name,
        ) by {
            if i == 0 {
                assert(p[j] == list[j - 1]);
                if j > 1 {
                    assert(text::text_lt(list[0].name, list[j - 1].name));
                    text::text_lt_transitive(t.name, list[0].name, list[j - 1].name);
                }
            } else {
                assert(text::text_lt(list[i - 1].name, list[j - 1].name));
            }
        }
    } else {
        let rest = list.drop_first();
        assert forall|i: int, j: int| 0 <= i < j < rest.len() implies text::text_lt(
            #[trigger] rest[i].name,
            #[trigger] rest[j].name,
        ) by {
            assert(text::text_lt(list[i + 1].name, list[j + 1].name));
        }
        assert(list[0].name != t.name);
        text::text_lt_total(t.name, list[0].name);
        placing_keeps_order(rest, t);
        let q = placed(rest, t);
        let p = seq![list[0]] + q;
        assert(p.drop_first() =~= q);
        assert forall|name: Seq<char>| name != t.name implies #[trigger] find(
            placed(list, t),
            name,
        ) == find(list, name) by {
            assert(p[0] == list[0]);
            assert(find(q, name) == find(rest, name));
        }
        assert forall|i: int, j: int| 0 <= i < j < p.len() implies text::text_lt(
            #[trigger] p[i].name,
            #[trigger] p[j].name,
        ) by {
            if i == 0 {
                let x = p[j];
                assert(x == q[j - 1]);
                placed_holds(rest, t, j - 1);
                if x != t {
                    let k = choose|k: int| 0 <= k < rest.len() && rest[k] == x;
                    assert(text::text_lt(list[0].name, list[k + 1].name));
                }
            } else {
                assert(text::text_lt(q[i - 1].name, q[j - 1].name));
            }
        }
    }
}

proof fn placed_holds(list: Seq<NativeToolV>, t: NativeToolV, i: int)
    requires
        0 <= i < placed(list, t).len(),
    ensures
        placed(list, t)[i] == t || list.contains(placed(list, t)[i]),
    decreases list.len(),
{
    if list.len() == 0 {
    } else if text::text_lt(t.name, list[0].name) {
        if i > 0 {
            assert(list[i - 1] == placed(list, t)[i]);
        }
    } else {
        if i == 0 {
            assert(list[0] == placed(list, t)[i]);
        } else {
            let rest = list.drop_first();
            placed_holds(rest, t, i - 1);
            let x = placed(rest, t)[i - 1];
            if x != t {
                let k = choose|k: int| 0 <= k < rest.len() && rest[k] == x;
                assert(list[k + 1] == x);
            }
        }
    }
}

impl ToolRegistry {
    pub closed spec fn view(&self) -> Seq<NativeToolV> {
        tools_of(self.tools@)
    }

    /// The tools are in the order of their names, no name twice.
    #[verifier::type_invariant]
    spec fn wf(&self) -> bool {
        in_order(tools_of(self.tools@))
    }

    /// A registry without tools.
    pub fn new() -> (r: ToolRegistry)
        ensures
            r@ == Seq::<NativeToolV>::empty(),
    {
        let tools: Vec<NativeTool> = Vec::new();
        assert(tools_of(tools@) =~= Seq::empty());
        ToolRegistry { tools }
    }

    /// Registers a tool, unless its name is blank, reserved or taken.
    pub fn register(&mut self, tool: NativeTool) -> (r: Result<(), RegisterError>)
        ensures
            match r {
                Ok(_) => !text::blank(tool@.name) && !reserved(tool@.name) && find(
                    old(self)@,
                    tool@.name,
                ) is None && final(self)@ == placed(old(self)@, tool@),
                Err(RegisterError::Empty) => text::blank(tool@.name) && final(self)@ == old(self)@,
                Err(RegisterError::Reserved(name)) => name@ == tool@.name && !text::blank(
                    tool@.name,
                ) && reserved(tool@.name) && final(self)@ == old(self)@,
                Err(RegisterError::Duplicate(name)) => name@ == tool@.name && !text::blank(
                    tool@.name,
                ) && !reserved(tool@.name) && find(old(self)@, tool@.name) is Some && final(self)@
                    == old(self)@,
            },
    {
        if is_blank(tool.name.as_str()) {
            return Err(RegisterError::Empty);
        }
        if is_reserved(tool.name.as_str()) {
            return Err(RegisterError::Reserved(tool.name));
        }
        if self.get(tool.name.as_str()).is_some() {
            return Err(RegisterError::Duplicate(tool.name));
        }
        let ghost before = self@;
        let ghost t = tool@;
        let mut i: usize = 0;
        while i < self.tools.len() && !precedes(tool.name.as_str(), self.tools[i].name.as_str())
            invariant
                i <= self.tools@.len(),
                self@ == before,
                t == tool@,
                forall|j: int|
                    0 <= j < i ==> !text::text_lt(t.name, (#[trigger] before[j]).name),
            decreases self.tools@.len() - i,
        {
            i += 1;
        }
        proof {
            use_type_invariant(&*self);
            placed_at(before, t, i as int);
            placing_keeps_order(before, t);
        }
        let mut tools: Vec<NativeTool> = Vec::new();
        assert(tools_of(tools@) =~= Seq::empty());
        std::mem::swap(&mut tools, &mut self.tools);
        tools.insert(i, tool);
        assert(tools_of(tools@) =~= before.insert(i as int, t));
        self.tools = tools;
        Ok(())
    }

    /// The tool with a name.
    pub fn get(&self, name: &str) -> (r: Option<&NativeTool>)
        ensures
            match r {
                Some(t) => find(self@, name@) == Some(t@),
                None => find(self@, name@) is None,
            },
    {
        let ghost all = self@;
        let mut i: usize = 0;
        assert(all.skip(0) =~= all);
        while i < self.tools.len()
            invariant
                i <= self.tools@.len(),
                all == self@,
                find(all, name@) == find(all.skip(i as int), name@),
            decreases self.tools@.len() - i,
        {
            assert(all.skip(i as int)[0] == all[i as int]);
            if same_text(self.tools[i].name.as_str(), name) {
                return Some(&self.tools[i]);
            }
            assert(all.skip(i as int).drop_first() =~= all.skip(i + 1));
            i += 1;
        }
        None
    }

    pub fn is_empty(&self) -> (r: bool)
        ensures
            r == (self@.len() == 0),
    {
        self.tools.len() == 0
    }

    /// The names of the tools, in order.
    pub fn names(&self) -> (r: Vec<String>)
        ensures
            op::texts(r@) == Seq::new(self@.len(), |i: int| self@[i].name),
            in_order(self@),
    {
        proof {
            use_type_invariant(self);
        }
        let ghost goal = Seq::new(self@.len(), |i: int| self@[i].name);
        let mut out: Vec<String> = Vec::new();
        let mut i: usize = 0;
        assert(op::texts(out@) =~= goal.take(0));
        while i < self.tools.len()
            invariant
                i <= self.tools@.len(),
                goal == Seq::new(self@.len(), |i: int| self@[i].name),
                op::texts(out@) == goal.take(i as int),
            decreases self.tools@.len() - i,
        {
            push_string(&mut out, self.tools[i].name.clone());
            assert(goal.take(i + 1) =~= goal.take(i as int).push(goal[i as int]));
            i += 1;
        }
        assert(goal.take(i as int) =~= goal);
        out
    }

    /// What a provider is told of the tools, in the order of their names.
    pub fn specs(&self) -> (r: Vec<ToolSpec>)
        ensures
            provider::tool_specs(r@) == advertised(self@),
            in_order(self@),
    {
        proof {
            use_type_invariant(self);
        }
        let mut out: Vec<ToolSpec> = Vec::new();
        let mut i: usize = 0;
        while i < self.tools.len()
            invariant
                i <= self.tools@.len(),
                out@.len() == i,
                forall|j: int| 0 <= j < i ==> (#[trigger] out@[j])@ == advertised(self@)[j],
            decreases self.tools@.len() - i,
        {
            let t = &self.tools[i];
            out.push(
                ToolSpec::function(t.name.clone(), t.description.clone(), t.parameters.clone()),
            );
            i += 1;
        }
        assert(provider::tool_specs(out@) =~= advertised(self@));
        out
    }
}

/// What a provider is told of some tools.
pub open spec fn advertised(list: Seq<NativeToolV>) -> Seq<ToolSpecV> {
    Seq::new(
        list.len(),
        |i: int|
            provider::function_tool(list[i].name, list[i].description, list[i].parameters),
    )
}

/// A schema for values of one type.
pub open spec fn typed(t: Seq<char>) -> JsonV {
    JsonV::Object(seq![("type"@, JsonV::Str(t))])
}

/// A schema for texts, with a description.
pub open spec fn described(description: Seq<char>) -> JsonV {
    JsonV::Object(
        seq![("description"@, JsonV::Str(description)), ("type"@, JsonV::Str("string"@))],
    )
}

/// A schema for objects.
pub open spec fn object_schema(properties: JsonV, required: Seq<Seq<char>>) -> JsonV {
    JsonV::Object(
        seq![
            ("properties"@, properties),
            ("required"@, ir_hash::texts_json(required)),
            ("type"@, JsonV::Str("object"@)),
        ],
    )
}

pub(crate) fn make_typed(t: &str) -> (r: Json)
    ensures
        r@ == typed(t@),
{
    record1("type", Json::text(t))
}

fn make_described(description: &str) -> (r: Json)
    ensures
        r@ == described(description@),
{
    record2("description", Json::text(description), "type", Json::text("string"))
}

pub(crate) fn make_schema(properties: Json, required: Vec<String>) -> (r: Json)
    ensures
        r@ == object_schema(properties@, op::texts(required@)),
{
    record3(
        "properties",
        properties,
        "required",
        encode_texts(&required),
        "type",
        Json::text("object"),
    )
}

pub(crate) fn texts1(a: &str) -> (r: Vec<String>)
    ensures
        op::texts(r@) == seq![a@],
{
    let mut out: Vec<String> = Vec::new();
    out.push(a.to_owned());
    assert(op::texts(out@) =~= seq![a@]);
    out
}

fn texts2(a: &str, b: &str) -> (r: Vec<String>)
    ensures
        op::texts(r@) == seq![a@, b@],
{
    let mut out: Vec<String> = Vec::new();
    out.push(a.to_owned());
    out.push(b.to_owned());
    assert(op::texts(out@) =~= seq![a@, b@]);
    out
}

/// What a model is told of the built-in tools.
#[derive(Debug)]
pub struct ToolGuidance {
    pub infer: String,
    pub infer_context_refs: String,
    pub remember: String,
    pub recall: String,
}

/// The model of guidance.
pub struct ToolGuidanceV {
    pub infer: Seq<char>,
    pub infer_context_refs: Seq<char>,
    pub remember: Seq<char>,
    pub recall: Seq<char>,
}

impl ToolGuidance {
    pub open spec fn view(&self) -> ToolGuidanceV {
        ToolGuidanceV {
            infer: self.infer@,
            infer_context_refs: self.infer_context_refs@,
            remember: self.remember@,
            recall: self.recall@,
        }
    }
}

/// The shell, as a tool.
pub open spec fn shell_tool() -> ToolSpecV {
    provider::function_tool(
        "shell"@,
        "Execute a command string using the configured shell."@,
        object_schema(JsonV::Object(seq![("command"@, typed("string"@))]), seq!["command"@]),
    )
}

/// An inner inference, as a tool.
pub open spec fn infer_tool(g: ToolGuidanceV) -> ToolSpecV {
    provider::function_tool(
        "infer"@,
        g.infer,
        object_schema(
            JsonV::Object(
                seq![
                    (
                        "context_refs"@,
                        JsonV::Object(
                            seq![
                                ("description"@, JsonV::Str(g.infer_context_refs)),
                                ("items"@, typed("string"@)),
                                ("type"@, JsonV::Str("array"@)),
                            ],
                        ),
                    ),
                    ("model"@, typed("string"@)),
                    ("prompt"@, typed("string"@)),
                ],
            ),
            seq!["model"@, "prompt"@],
        ),
    )
}

/// Remembering, as a tool.
pub open spec fn remember_tool(g: ToolGuidanceV) -> ToolSpecV {
    provider::function_tool(
        "remember"@,
        g.remember,
        object_schema(
            JsonV::Object(
                seq![
                    ("content"@, described("the fact to keep"@)),
                    ("description"@, described("one-line summary used for recall relevance"@)),
                    (
                        "name"@,
                        described(
                            "optional kebab-case slug; derived from the description or content when omitted"@,
                        ),
                    ),
                    (
                        "type"@,
                        JsonV::Object(
                            seq![
                                (
                                    "enum"@,
                                    ir_hash::texts_json(
                                        seq!["user"@, "feedback"@, "project"@, "reference"@],
                                    ),
                                ),
                                ("type"@, JsonV::Str("string"@)),
                            ],
                        ),
                    ),
                ],
            ),
            seq!["content"@],
        ),
    )
}

/// Recalling, as a tool.
pub open spec fn recall_tool(g: ToolGuidanceV) -> ToolSpecV {
    provider::function_tool(
        "recall"@,
        g.recall,
        object_schema(JsonV::Object(seq![("query"@, typed("string"@))]), seq!["query"@]),
    )
}

fn make_shell_tool() -> (r: ToolSpec)
    ensures
        r@ == shell_tool(),
{
    ToolSpec::function(
        "shell".to_owned(),
        "Execute a command string using the configured shell.".to_owned(),
        make_schema(record1("command", make_typed("string")), texts1("command")),
    )
}

fn make_infer_tool(g: &ToolGuidance) -> (r: ToolSpec)
    ensures
        r@ == infer_tool(g@),
{
    let refs = record3(
        "description",
        Json::Str(g.infer_context_refs.clone()),
        "items",
        make_typed("string"),
        "type",
        Json::text("array"),
    );
    let properties = record3(
        "context_refs",
        refs,
        "model",
        make_typed("string"),
        "prompt",
        make_typed("string"),
    );
    ToolSpec::function(
        "infer".to_owned(),
        g.infer.clone(),
        make_schema(properties, texts2("model", "prompt")),
    )
}

fn make_remember_tool(g: &ToolGuidance) -> (r: ToolSpec)
    ensures
        r@ == remember_tool(g@),
{
    let mut kinds: Vec<String> = Vec::new();
    kinds.push("user".to_owned());
    kinds.push("feedback".to_owned());
    kinds.push("project".to_owned());
    kinds.push("reference".to_owned());
    assert(op::texts(kinds@) =~= seq!["user"@, "feedback"@, "project"@, "reference"@]);
    let properties = record4(
        "content",
        make_described("the fact to keep"),
        "description",
        make_described("one-line summary used for recall relevance"),
        "name",
        make_described(
            "optional kebab-case slug; derived from the description or content when omitted",
        ),
        "type",
        record2("enum", encode_texts(&kinds), "type", Json::text("string")),
    );
    ToolSpec::function(
        "remember".to_owned(),
        g.remember.clone(),
        make_schema(properties, texts1("content")),
    )
}

fn make_recall_tool(g: &ToolGuidance) -> (r: ToolSpec)
    ensures
        r@ == recall_tool(g@),
{
    ToolSpec::function(
        "recall".to_owned(),
        g.recall.clone(),
        make_schema(record1("query", make_typed("string")), texts1("query")),
    )
}

/// The built-in tools of a loop: the memory tools are offered exactly where
/// there is a memory.
pub open spec fn built_in(memory: bool, g: ToolGuidanceV) -> Seq<ToolSpecV> {
    if memory {
        seq![shell_tool(), infer_tool(g), remember_tool(g), recall_tool(g)]
    } else {
        seq![shell_tool(), infer_tool(g)]
    }
}

/// The tools that a loop offers: the built-in ones, then the native ones in
/// the order of their names.
pub fn ir_tool_specs(memory: bool, registry: &ToolRegistry, g: &ToolGuidance) -> (r: Vec<ToolSpec>)
    ensures
        provider::tool_specs(r@) == built_in(memory, g@) + advertised(registry@),
{
    let mut out: Vec<ToolSpec> = Vec::new();
    out.push(make_shell_tool());
    out.push(make_infer_tool(g));
    if memory {
        out.push(make_remember_tool(g));
        out.push(make_recall_tool(g));
    }
    let ghost first = built_in(memory, g@);
    assert(provider::tool_specs(out@) =~= first);
    let more = registry.specs();
    let ghost rest = provider::tool_specs(more@);
    let mut i: usize = 0;
    assert(first =~= first + rest.take(0));
    while i < more.len()
        invariant
            i <= more@.len(),
            rest == provider::tool_specs(more@),
            provider::tool_specs(out@) == first + rest.take(i as int),
        decreases more@.len() - i,
    {
        let ghost before = out@;
        let t = more[i].clone();
        out.push(t);
        assert(provider::tool_specs(out@) =~= provider::tool_specs(before).push(t@));
        assert(rest.take(i + 1) =~= rest.take(i as int).push(rest[i as int]));
        assert(provider::tool_specs(out@) =~= first + rest.take(i + 1));
        i += 1;
    }
    assert(rest.take(i as int) =~= rest);
    out
}

/// The tools among some whose names are listed.
pub open spec fn narrowed(specs: Seq<ToolSpecV>, names: Seq<Seq<char>>) -> Seq<ToolSpecV>
    decreases specs.len(),
{
    if specs.len() == 0 {
        Seq::empty()
    } else {
        let rest = narrowed(specs.drop_last(), names);
        if names.contains(specs.last().function.name) {
            rest.push(specs.last())
        } else {
            rest
        }
    }
}

/// The tools that an inference is offered: all of them, or those that it
/// lists.
pub fn offered(specs: &Vec<ToolSpec>, names: &Option<Vec<String>>) -> (r: Vec<ToolSpec>)
    ensures
        provider::tool_specs(r@) == match crate::ir::opt_texts(*names) {
            Some(n) => narrowed(provider::tool_specs(specs@), n),
            None => provider::tool_specs(specs@),
        },
{
    let ghost all = provider::tool_specs(specs@);
    let ghost listed = crate::ir::opt_texts(*names);
    let mut out: Vec<ToolSpec> = Vec::new();
    let mut i: usize = 0;
    assert(provider::tool_specs(out@) =~= Seq::empty());
    assert(all.take(0) =~= Seq::empty());
    while i < specs.len()
        invariant
            i <= specs@.len(),
            all == provider::tool_specs(specs@),
            listed == crate::ir::opt_texts(*names),
            provider::tool_specs(out@) == match listed {
                Some(n) => narrowed(all.take(i as int), n),
                None => all.take(i as int),
            },
        decreases specs@.len() - i,
    {
        assert(all.take(i + 1).drop_last() =~= all.take(i as int));
        let keep = match names {
            Some(n) => lists(n, specs[i].function.name.as_str()),
            None => true,
        };
        if keep {
            let ghost before = out@;
            let t = specs[i].clone();
            out.push(t);
            assert(provider::tool_specs(out@) =~= provider::tool_specs(before).push(t@));
        }
        assert(all.take(i + 1) =~= all.take(i as int).push(all[i as int]));
        i += 1;
    }
    assert(all.take(i as int) =~= all);
    out
}

fn lists(names: &Vec<String>, name: &str) -> (r: bool)
    ensures
        r == op::texts(names@).contains(name@),
{
    let ghost all = op::texts(names@);
    let mut i: usize = 0;
    while i < names.len()
        invariant
            i <= names@.len(),
            all == op::texts(names@),
            forall|j: int| 0 <= j < i ==> #[trigger] all[j] != name@,
        decreases names@.len() - i,
    {
        if same_text(names[i].as_str(), name) {
            assert(all[i as int] == name@);
            return true;
        }
        i += 1;
    }
    false
}

/// An empty list offers nothing.
pub proof fn empty_list_offers_nothing(specs: Seq<ToolSpecV>)
    ensures
        narrowed(specs, Seq::empty()) == Seq::<ToolSpecV>::empty(),
    decreases specs.len(),
{
    if specs.len() > 0 {
        empty_list_offers_nothing(specs.drop_last());
    }
}

} // verus!
