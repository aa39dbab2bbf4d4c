# agent_core

The verified core of an agent runtime: programs in a small intermediate
language (AgentIR), the machine that steps them, the records that a run leaves,
and the rules by which a run is replayed, gated, repaired and shown.

The library under `src/` computes; it reads no file, opens no socket and asks
no clock. `app/` is the ordinary Rust around it: files, processes, HTTP and the
asynchronous loops that carry out what the core asks for. `tests/` runs the
library on concrete values.

## Modules

| Modules | What they hold |
| --- | --- |
| `text`, `json`, `table`, `digest`, `codec` | texts, JSON values, finite maps, SHA-256, the JSON form of messages |
| `ir`, `ir_vars`, `ir_flow`, `ir_hash`, `ir_normalize` | programs, their variables, validity, identity and normal form |
| `eval`, `machine`, `effect`, `interpreter`, `driver` | expressions, steps, effect identities, whole runs, the loop between core and host |
| `trace`, `replay`, `approval`, `public_trace` | records of runs, answers out of a record, gates, the public form of events |
| `ir_agent`, `output_contract` | the agent loop as a program, and the contract on its final text |
| `op`, `provider`, `sse`, `tool`, `tools`, `models` | messages, chat completions, streams, tools, the model registry |
| `prompt_ir`, `hydration`, `memory`, `embedding`, `temporal` | prompts made of sections, and where their context comes from |
| `expr_laws`, `json_laws`, `hash_laws`, `effect_laws`, `run_laws`, `normal_laws`, `canon_laws`, `loop_laws`, `turn_laws`, `replay_laws`, `order_laws` | laws that span several modules |

Every type that holds a `String` or a `Vec` has a ghost counterpart, named with
a trailing `V`, and contracts compare these through `@`. A law is a public proof
function; its doc comment states it in words.

## What is taken on trust

Calls into other crates stand behind small functions marked `external_body`.
Each says in its doc comment which function it calls and what is claimed of it.
Results that take pages to state (a digest, a parsed document, a rendered
status) are named by spec functions without a body.
