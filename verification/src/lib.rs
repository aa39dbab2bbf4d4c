//! Verified core of an agent runtime.
use vstd::prelude::*;

pub mod approval;
pub mod call_laws;
pub mod canon_laws;
pub mod codec;
pub mod contract_laws;
pub mod digest;
pub mod driver;
pub mod effect;
pub mod effect_laws;
pub mod embedding;
pub mod entry_laws;
pub mod eval;
pub mod eval_laws;
pub mod expr_laws;
pub mod fault_laws;
pub mod file_laws;
pub mod flow_laws;
pub mod form_laws;
pub mod hash_laws;
pub mod hydration;
pub mod index_laws;
pub mod interpreter;
pub mod ir;
pub mod ir_agent;
pub mod ir_flow;
pub mod ir_hash;
pub mod ir_normalize;
pub mod ir_vars;
pub mod json;
pub mod json_laws;
pub mod loop_laws;
pub mod machine;
pub mod memory;
pub mod memory_laws;
pub mod message_laws;
pub mod models;
pub mod naming;
pub mod normal_laws;
pub mod op;
pub mod order_laws;
pub mod output_contract;
pub mod prompt_ir;
pub mod prompt_laws;
pub mod provider;
pub mod provider_laws;
pub mod public_laws;
pub mod public_trace;
pub mod recall_laws;
pub mod record_laws;
pub mod rename_laws;
pub mod repair_laws;
pub mod replay;
pub mod replay_laws;
pub mod run_laws;
pub mod sse;
pub mod stage_laws;
pub mod step_laws;
pub mod table;
pub mod temporal;
pub mod text;
pub mod text_laws;
pub mod tool;
pub mod tool_laws;
pub mod tools;
pub mod trace;
pub mod turn_laws;
pub mod word_laws;

verus! {

} // verus!
