use agent_core::eval::eval_expr;
use agent_core::ir::{
    Block, BlockId, EffectErrorMode, EvalRequest, Expr, Instr, MatchArm, Pattern, Program,
    PromptRef, StoreOp, Terminator, Var,
};
use agent_core::ir_flow::{validate_program, validate_strict_ssa_program};
use agent_core::ir_hash::{canonical_program_hash, encode_program, program_hash};
use agent_core::ir_normalize::{
    add_edge_args, normalize_program, ordered_required_params, rename_expr,
};
use agent_core::json::{parse, Json};

fn var(name: &str) -> Var {
    Var(name.to_string())
}

fn read(name: &str) -> Box<Expr> {
    Box::new(Expr::Var(var(name)))
}

fn num(n: i128) -> Box<Expr> {
    Box::new(Expr::Value(Json::Int(n)))
}

fn bind(out: &str, expr: Box<Expr>) -> Instr {
    Instr::Let { out: var(out), expr: *expr }
}

fn loop_branch_program() -> Program {
    numbered_loop([10, 20, 30, 40], "loop")
}

/// The same loop with its blocks under other labels.
fn numbered_loop(label: [u32; 4], id: &str) -> Program {
    let mut blocks = vec![
        (
            BlockId(label[0]),
            Block {
                params: vec![],
                instructions: vec![bind("n", num(0))],
                terminator: Terminator::Goto { block: BlockId(label[1]), args: vec![] },
            },
        ),
        (
            BlockId(label[1]),
            Block {
                params: vec![],
                instructions: vec![bind(
                    "done",
                    Box::new(Expr::Lt { left: num(1), right: read("n") }),
                )],
                terminator: Terminator::If {
                    cond: *read("done"),
                    then_block: BlockId(label[3]),
                    then_args: vec![],
                    else_block: BlockId(label[2]),
                    else_args: vec![],
                },
            },
        ),
        (
            BlockId(label[2]),
            Block {
                params: vec![],
                instructions: vec![bind(
                    "next",
                    Box::new(Expr::Add { left: read("n"), right: num(1) }),
                )],
                terminator: Terminator::Goto { block: BlockId(label[1]), args: vec![] },
            },
        ),
        (
            BlockId(label[3]),
            Block {
                params: vec![],
                instructions: vec![bind(
                    "answer",
                    Box::new(Expr::Add { left: read("n"), right: num(40) }),
                )],
                terminator: Terminator::Return { value: *read("answer") },
            },
        ),
    ];
    blocks.sort_by_key(|(id, _)| id.0);
    Program { id: id.to_string(), entry: BlockId(label[0]), blocks }
}

fn one_variable(id: &str, name: &str) -> Program {
    Program {
        id: id.to_string(),
        entry: BlockId(0),
        blocks: vec![(
            BlockId(0),
            Block {
                params: vec![],
                instructions: vec![bind(name, num(1))],
                terminator: Terminator::Return { value: *read(name) },
            },
        )],
    }
}

fn text_of(p: &Program) -> String {
    encode_program(p).to_text()
}

#[test]
fn normalize_is_idempotent_and_strict_ssa() {
    let p = loop_branch_program();
    let n1 = normalize_program(&p).unwrap();
    let n2 = normalize_program(&n1).unwrap();
    assert_eq!(format!("{:?}", n1), format!("{:?}", n2));
    assert_eq!(text_of(&n1), text_of(&n2));
    validate_strict_ssa_program(&n1).unwrap();
}

#[test]
fn normal_form_passes_what_blocks_need_as_parameters() {
    let n = normalize_program(&loop_branch_program()).unwrap();
    let labels: Vec<u32> = n.blocks.iter().map(|(id, _)| id.0).collect();
    assert_eq!(labels, vec![0, 1, 2, 3]);
    let params: Vec<Vec<String>> = n
        .blocks
        .iter()
        .map(|(_, b)| b.params.iter().map(|v| v.0.clone()).collect())
        .collect();
    assert_eq!(
        params,
        vec![
            vec![],
            vec!["v1".to_string()],
            vec!["v3".to_string()],
            vec!["v5".to_string()],
        ]
    );
    // The visit of the then-branch comes first.
    assert!(matches!(n.blocks[2].1.terminator, Terminator::Return { .. }));
    match &n.blocks[0].1.terminator {
        Terminator::Goto { block, args } => {
            assert_eq!(block.0, 1);
            assert!(matches!(&args[0], Expr::Var(v) if v.0 == "v0"));
        }
        other => panic!("{:?}", other),
    }
}

#[test]
fn alpha_equivalent_programs_normalize_and_hash_equal() {
    let mut p1 = one_variable("a", "x");
    let p2 = one_variable("b", "renamed");
    p1.id = "different".to_string();
    assert_eq!(
        format!("{:?}", normalize_program(&p1).unwrap()),
        format!("{:?}", normalize_program(&p2).unwrap())
    );
    assert_eq!(canonical_program_hash(&p1).unwrap(), canonical_program_hash(&p2).unwrap());
    assert_ne!(program_hash(&p1), program_hash(&p2));
}

#[test]
fn block_renumbering_does_not_change_hash() {
    let p = loop_branch_program();
    let q = numbered_loop([300, 100, 400, 200], "renumbered");
    assert_eq!(canonical_program_hash(&p).unwrap(), canonical_program_hash(&q).unwrap());
    assert_ne!(program_hash(&p), program_hash(&q));
}

#[test]
fn the_listing_of_blocks_does_not_change_the_hash() {
    let p = numbered_loop([3, 10, 2, 7], "loop");
    let mut q = numbered_loop([3, 10, 2, 7], "loop");
    q.blocks.reverse();
    assert_eq!(text_of(&p), text_of(&q));
    assert_eq!(program_hash(&p), program_hash(&q));
    assert_eq!(canonical_program_hash(&p).unwrap(), canonical_program_hash(&q).unwrap());
    // Labels are in the order of numbers, not of texts.
    let at = |label: &str| text_of(&q).find(&format!("\"{label}\":{{\"params\"")).unwrap();
    assert!(at("2") < at("3") && at("3") < at("7") && at("7") < at("10"));
    // What is listed again under a label that is taken is not there.
    let mut again = numbered_loop([3, 10, 2, 7], "loop");
    let other = one_variable("other", "z").blocks.remove(0).1;
    again.blocks.push((BlockId(7), other));
    assert_eq!(program_hash(&p), program_hash(&again));
}

#[test]
fn invalid_program_errors() {
    let p = Program { id: "bad".to_string(), entry: BlockId(0), blocks: vec![] };
    assert!(normalize_program(&p).is_err());
    let message = validate_program(&p).unwrap_err().message();
    assert!(message.contains("entry"), "{message}");
}

#[test]
fn unknown_targets_and_wrong_arity_are_refused() {
    let mut p = one_variable("p", "x");
    p.blocks[0].1.terminator = Terminator::Goto { block: BlockId(7), args: vec![] };
    assert!(validate_program(&p).unwrap_err().message().contains('7'));
    let mut q = one_variable("q", "x");
    q.blocks[0].1.terminator = Terminator::Goto { block: BlockId(0), args: vec![*num(1)] };
    assert!(validate_program(&q).is_err());
}

#[test]
fn reading_before_definition_is_refused() {
    let mut p = one_variable("p", "x");
    p.blocks[0].1.terminator = Terminator::Return { value: *read("missing") };
    let message = validate_program(&p).unwrap_err().message();
    assert!(message.contains("used before definition"), "{message}");
    // A block that reads what another block defined is valid, and not strict.
    let l = loop_branch_program();
    validate_program(&l).unwrap();
    assert!(validate_strict_ssa_program(&l).is_err());
}

#[test]
fn unreached_blocks_leave_the_normal_form() {
    let mut p = one_variable("p", "x");
    p.blocks.push((
        BlockId(9),
        Block {
            params: vec![],
            instructions: vec![],
            terminator: Terminator::Return { value: *num(2) },
        },
    ));
    let n = normalize_program(&p).unwrap();
    assert_eq!(n.blocks.len(), 1);
    assert_eq!(
        canonical_program_hash(&p).unwrap(),
        canonical_program_hash(&one_variable("q", "y")).unwrap()
    );
}

#[test]
fn program_json_is_stable() {
    let p = one_variable("id", "x");
    assert_eq!(
        text_of(&p),
        concat_text(&[
            r#"{"entry":0,"blocks":{"0":{"params":[],"instructions":[{"Let":{"out":"x","#,
            r#""expr":{"Value":1}}}],"terminator":{"Return":{"value":{"Var":"x"}}}}}}"#,
        ])
    );
    assert!(program_hash(&p).starts_with("sha256:"));
    assert_eq!(program_hash(&p).len(), 7 + 64);
}

fn concat_text(parts: &[&str]) -> String {
    parts.concat()
}

#[test]
fn if_expr_selects_branch_lazily_and_rejects_non_bool_cond() {
    let env = vec![("flag".to_string(), Json::Bool(true))];
    let expr = Expr::If {
        cond: read("flag"),
        then_value: Box::new(Expr::Value(Json::Str("yes".to_string()))),
        // The branch that is not taken reads an unknown variable.
        else_value: read("missing"),
    };
    assert_eq!(eval_expr(&env, &expr).unwrap().as_str(), Some("yes"));

    let non_bool = Expr::If {
        cond: Box::new(Expr::Value(Json::Str("nope".to_string()))),
        then_value: Box::new(Expr::Value(Json::Null)),
        else_value: Box::new(Expr::Value(Json::Null)),
    };
    let err = eval_expr(&env, &non_bool).unwrap_err().message();
    assert!(err.contains("If.cond"), "got: {err}");
}

fn value(text: &str) -> Box<Expr> {
    Box::new(Expr::Value(parse(text).unwrap()))
}

fn eval(e: Expr) -> String {
    let env = vec![
        ("o".to_string(), parse(r#"{"a":1,"s":"text","l":[1,2,3]}"#).unwrap()),
        ("l".to_string(), parse("[10,20]").unwrap()),
    ];
    match eval_expr(&env, &e) {
        Ok(v) => v.to_text(),
        Err(e) => format!("error: {}", e.message()),
    }
}

#[test]
fn expressions_have_their_values() {
    assert_eq!(eval(Expr::Field { base: var("o"), field: "a".to_string() }), "1");
    assert_eq!(
        eval(Expr::FieldOr { base: var("o"), field: "zz".to_string(), default: num(5) }),
        "5"
    );
    assert_eq!(eval(Expr::Index { base: var("l"), index: num(1) }), "20");
    assert_eq!(eval(Expr::Len { base: var("l") }), "2");
    assert_eq!(eval(Expr::IsEmpty { base: var("l") }), "false");
    assert_eq!(eval(Expr::Add { left: num(40), right: num(2) }), "42");
    assert_eq!(eval(Expr::Sub { left: num(40), right: num(42) }), "-2");
    assert_eq!(eval(Expr::Lt { left: num(1), right: num(2) }), "true");
    assert_eq!(eval(Expr::Eq { left: value("[1]"), right: value("[1]") }), "true");
    assert_eq!(eval(Expr::And { left: value("true"), right: value("false") }), "false");
    assert_eq!(eval(Expr::Or { left: value("false"), right: value("true") }), "true");
    assert_eq!(eval(Expr::Push { base: var("l"), value: num(30) }), "[10,20,30]");
    assert_eq!(eval(Expr::JsonParse { value: value(r#""{\"k\":[1]}""#) }), r#"{"k":[1]}"#);
    assert_eq!(
        eval(Expr::JsonParseOr { value: value(r#""nope""#), default: num(3) }),
        "3"
    );
    assert_eq!(eval(Expr::ToString { value: value(r#"{"b":1,"a":2}"#) }), r#""{\"a\":2,\"b\":1}""#);
    assert_eq!(eval(Expr::ToString { value: value(r#""plain""#) }), r#""\"plain\"""#);
    assert_eq!(eval(Expr::StringOr { value: num(1), default: value(r#""d""#) }), r#""d""#);
    assert_eq!(
        eval(Expr::Object(vec![
            ("b".to_string(), *num(1)),
            ("a".to_string(), *num(2)),
        ])),
        r#"{"a":2,"b":1}"#
    );
    assert!(eval(*read("unknown")).starts_with("error: "));
    // Sums beyond the range of the numbers are errors.
    assert!(eval(Expr::Add { left: num(i64::MAX as i128), right: num(1) }).starts_with("error: "));
}

#[test]
fn all_instructions_are_encoded() {
    let p = Program {
        id: String::new(),
        entry: BlockId(0),
        blocks: vec![(
            BlockId(0),
            Block {
                params: vec![],
                instructions: vec![
                    Instr::Infer {
                        out: var("r"),
                        model: *value(r#""m""#),
                        prompt: PromptRef::Inline(vec![]),
                        on_error: EffectErrorMode::Abort,
                        tools: None,
                    },
                    Instr::Eval {
                        out: var("e"),
                        request: EvalRequest::Argv { argv: vec![*value(r#""ls""#)] },
                        require_approval: false,
                    },
                    Instr::Store {
                        out: var("s"),
                        sink: *value(r#""memory""#),
                        op: StoreOp::Create,
                        id: None,
                        item: *value("null"),
                        on_error: EffectErrorMode::Bind,
                    },
                ],
                terminator: Terminator::Match {
                    value: *read("e"),
                    arms: vec![MatchArm { pattern: Pattern::Any, block: BlockId(0), args: vec![] }],
                    default: None,
                    default_args: vec![],
                },
            },
        )],
    };
    validate_program(&p).unwrap();
    let text = text_of(&p);
    for part in ["\"Infer\"", "\"Eval\"", "\"Store\"", "\"Match\"", "\"memory\""] {
        assert!(text.contains(part), "{part} in {text}");
    }
    let n = normalize_program(&p).unwrap();
    assert_eq!(format!("{:?}", n), format!("{:?}", normalize_program(&n).unwrap()));
}

#[test]
fn strict_ssa_violations_name_the_least_variable_first() {
    let sum = Box::new(Expr::Add { left: read("z"), right: read("a") });
    let p = Program {
        id: "foreign".to_string(),
        entry: BlockId(0),
        blocks: vec![
            (
                BlockId(0),
                Block {
                    params: vec![],
                    instructions: vec![bind("z", num(1)), bind("a", num(2))],
                    terminator: Terminator::Goto { block: BlockId(1), args: vec![] },
                },
            ),
            (
                BlockId(1),
                Block {
                    params: vec![],
                    instructions: vec![bind("sum", sum)],
                    terminator: Terminator::Return { value: *read("z") },
                },
            ),
        ],
    };
    validate_program(&p).unwrap();
    assert_eq!(
        validate_strict_ssa_program(&p).unwrap_err().message(),
        "AgentIR strict SSA violation: variable Var(\"a\") is not local to block BlockId(1)"
    );
    validate_strict_ssa_program(&normalize_program(&p).unwrap()).unwrap();
}

#[test]
fn references_are_quoted_once_or_missing() {
    let history = parse(
        r#"[
            {"role":"assistant","content":null,"tool_calls":[
                {"id":"c1","name":"shell","arguments":{}},{"id":"c2","name":"recall","arguments":{}}]},
            {"role":"tool","tool_call_id":"c1","content":"listing"},
            {"role":"tool","tool_call_id":"c2","content":{"hits":2}},
            {"role":"tool","tool_call_id":"stray","content":"orphan"}
        ]"#,
    )
    .unwrap();
    let env = vec![("history".to_string(), history)];
    let select = |ids: &str| {
        let e = Expr::SelectToolResults { history: var("history"), ids: value(ids) };
        eval_expr(&env, &e).unwrap()
    };
    let picked = select(r#"["c2","c1","c2",7,"gone","stray"]"#);
    let messages = picked.get("messages").unwrap().as_array().unwrap();
    let quoted: Vec<&str> = messages.iter().map(|m| m.get_str("content").unwrap()).collect();
    assert_eq!(
        quoted,
        vec![
            "Referenced result of tool call c2 (recall):\n{\"hits\":2}",
            "Referenced result of tool call c1 (shell):\nlisting",
            "Referenced result of tool call stray (unknown):\norphan",
        ]
    );
    assert!(messages.iter().all(|m| m.get_str("role") == Some("user")));
    assert_eq!(picked.get("missing").unwrap().to_text(), r#"["7","gone"]"#);
    // What is no list is one reference that leads nowhere.
    assert_eq!(select(r#"{"a":1}"#).to_text(), r#"{"messages":[],"missing":["{\"a\":1}"]}"#);
}

#[test]
fn different_values_are_written_differently() {
    let texts = [
        "null", "true", "false", "0", "-1", "10", "1.0", "1e30", r#""""#, r#""null""#, r#""\"""#,
        r#""\\""#, r#""\n""#, r#""\u0001""#, r#""n""#, "[]", "[null]", "[[]]", "[1,0]", "[10]",
        "{}", r#"{"a":[]}"#, r#"{"a":{}}"#, r#"{"a":1,"b":2}"#, r#"{"a":"1,\"b\":2"}"#,
    ];
    let written: Vec<String> = texts.iter().map(|t| parse(t).unwrap().to_text()).collect();
    for i in 0..written.len() {
        for j in 0..i {
            assert_ne!(written[i], written[j], "{} and {}", texts[i], texts[j]);
        }
    }
}

#[test]
fn any_change_but_the_name_changes_the_hash() {
    let base = one_variable("p", "x");
    let hash = |p: &Program| program_hash(p);
    assert_eq!(hash(&one_variable("q", "x")), hash(&base));
    assert_ne!(hash(&one_variable("p", "y")), hash(&base));
    let mut longer = one_variable("p", "x");
    longer.blocks[0].1.instructions.push(bind("more", num(1)));
    assert_ne!(hash(&longer), hash(&base));
    let mut moved = one_variable("p", "x");
    moved.blocks[0].0 = BlockId(moved.blocks[0].0 .0 + 1);
    assert_ne!(hash(&moved), hash(&base));
}

fn strings(list: &[&str]) -> Vec<String> {
    list.iter().map(|s| s.to_string()).collect()
}

fn taking(params: &[&str]) -> Block {
    Block {
        params: params.iter().map(|p| var(p)).collect(),
        instructions: vec![],
        terminator: Terminator::Return { value: *num(0) },
    }
}

#[test]
fn added_parameters_follow_the_order_and_then_the_names() {
    let b = taking(&["p"]);
    let wanted = strings(&["z", "b", "p", "a", "y"]);
    let order = strings(&["y", "p", "b"]);
    assert_eq!(ordered_required_params(&b, &wanted, &order), strings(&["p", "y", "b", "a", "z"]));
}

#[test]
fn edges_pass_what_the_tables_ask_for() {
    let p = Program {
        id: "p".to_string(),
        entry: BlockId(1),
        blocks: vec![(BlockId(1), taking(&["p"])), (BlockId(2), taking(&[]))],
    };
    let t = Terminator::If {
        cond: *read("c"),
        then_block: BlockId(1),
        then_args: vec![*num(7)],
        else_block: BlockId(2),
        else_args: vec![],
    };
    let wanted = vec![strings(&["x", "p"])];
    match add_edge_args(&t, &p, &vec![BlockId(1)], &wanted, &strings(&["x"])) {
        Terminator::If { then_args, else_args, .. } => {
            assert_eq!(then_args.len(), 2);
            assert!(matches!(&then_args[1], Expr::Var(v) if v.0 == "x"));
            assert!(else_args.is_empty(), "nothing is passed to a block that is not listed");
        }
        other => panic!("{:?}", other),
    }
}

#[test]
fn renaming_needs_a_name_for_every_variable() {
    let e = Expr::Lt { left: read("a"), right: read("b") };
    let names = |pairs: &[(&str, &str)]| -> Vec<(String, String)> {
        pairs.iter().map(|(a, b)| (a.to_string(), b.to_string())).collect()
    };
    assert_eq!(rename_expr(&e, &names(&[("a", "x")])).unwrap_err(), "b");
    match rename_expr(&e, &names(&[("a", "x"), ("b", "y")])).unwrap() {
        Expr::Lt { left, right } => {
            assert!(matches!(*left, Expr::Var(v) if v.0 == "x"));
            assert!(matches!(*right, Expr::Var(v) if v.0 == "y"));
        }
        other => panic!("{:?}", other),
    }
}

#[test]
fn values_depend_on_mentioned_variables_alone() {
    let e = Expr::Lt { left: read("a"), right: num(3) };
    let one = vec![("a".to_string(), Json::Int(2))];
    let two = vec![("a".to_string(), Json::Int(2)), ("b".to_string(), Json::Int(9))];
    assert_eq!(
        eval_expr(&one, &e).unwrap().to_text(),
        eval_expr(&two, &e).unwrap().to_text()
    );
}

#[test]
fn hashes_are_tagged_digits() {
    let hash = canonical_program_hash(&loop_branch_program()).unwrap();
    let digits = hash.strip_prefix("sha256:").unwrap();
    assert_eq!(digits.len(), 64);
    assert!(digits.chars().all(|c| c.is_ascii_digit() || ('a'..='f').contains(&c)));
}
