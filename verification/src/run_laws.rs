//! What holds in the course of every run, of whatever program.
use crate::driver;
use crate::effect;
use crate::effect::{EffectLocationV, EffectSite};
use crate::effect_laws;
use crate::ir::BlockId;
use crate::json;
use crate::json::JsonV;
use crate::machine;
use crate::machine::{EffectV, MachineV, StepV};
use vstd::prelude::*;

verus! {

/// Whether a machine can come next: it moved by itself, or an effect gave it
/// any value.
pub open spec fn comes_next(a: MachineV, b: MachineV, hash: Seq<char>) -> bool {
    match machine::stepped(a, hash) {
        Ok(StepV::Moved(x)) => b == x,
        Ok(StepV::Effect(y, e)) => match driver::out_of(e) {
            Some(out) => exists|v: JsonV| b == #[trigger] machine::went_on(y, out, v),
            None => b == (MachineV { pc: y.pc + 1, ..y }),
        },
        _ => false,
    }
}

/// Whether some machines are the course of a run.
pub open spec fn is_run(course: Seq<MachineV>, hash: Seq<char>) -> bool {
    forall|i: int|
        0 <= i < course.len() - 1 ==> comes_next(#[trigger] course[i], course[i + 1], hash)
}

/// Where an effect takes place, if anything is carried out for it.
pub open spec fn place_of(e: EffectV) -> Option<EffectLocationV> {
    match e {
        EffectV::Infer { location, .. } => Some(location),
        EffectV::Eval { location, .. } => Some(location),
        EffectV::Retrieve { location, .. } => Some(location),
        EffectV::Store { location, .. } => Some(location),
        EffectV::Tool { location, .. } => Some(location),
        EffectV::Emit { .. } => None,
    }
}

/// The text that the identity of an effect is the digest of.
pub open spec fn told(l: EffectLocationV) -> Seq<char> {
    json::json_text(effect::identity_json(l.program_hash, l.kind, l.site, l.dynamic_path))
}

/// Whether a machine stands before an effect.
pub open spec fn acts(m: MachineV, hash: Seq<char>, l: EffectLocationV) -> bool {
    machine::stepped(m, hash) matches Ok(StepV::Effect(_, e)) && place_of(e) == Some(l)
}

proof fn visits_never_shrink(a: MachineV, b: MachineV, hash: Seq<char>, site: EffectSite)
    requires
        comes_next(a, b, hash),
    ensures
        machine::visits_at(a, site) <= machine::visits_at(b, site),
{
    reveal(machine::stepped);
}

proof fn visits_add_up(
    course: Seq<MachineV>,
    hash: Seq<char>,
    i: int,
    j: int,
    site: EffectSite,
)
    requires
        is_run(course, hash),
        0 <= i <= j < course.len(),
    ensures
        machine::visits_at(course[i], site) <= machine::visits_at(course[j], site),
    decreases j - i,
{
    if i < j {
        visits_add_up(course, hash, i, j - 1, site);
        assert(comes_next(course[j - 1], course[j - 1 + 1], hash));
        visits_never_shrink(course[j - 1], course[j], hash, site);
    }
}

proof fn effects_are_placed(m: MachineV, hash: Seq<char>, l: EffectLocationV)
    requires
        acts(m, hash, l),
    ensures
        l.program_hash == hash,
        l.site == (EffectSite { block: BlockId(m.block), instruction_index: m.pc as usize }),
        l.dynamic_path == effect::path_at(m.path, machine::visits_at(m, l.site)),
        l == effect::located(hash, l.kind, l.site, l.dynamic_path),
{
    reveal(machine::stepped);
}

/// No two effects of a run share an identity, short of a collision of digests:
/// the texts under their identities are different, however often one
/// instruction is visited.
pub proof fn effects_have_their_own_identities(
    course: Seq<MachineV>,
    hash: Seq<char>,
    i: int,
    j: int,
    a: EffectLocationV,
    b: EffectLocationV,
)
    requires
        is_run(course, hash),
        0 <= i < j < course.len(),
        acts(course[i], hash, a),
        acts(course[j], hash, b),
        machine::visits_at(course[i], a.site) < u64::MAX,
    ensures
        told(a) != told(b),
{
    let m = course[i];
    effects_are_placed(m, hash, a);
    effects_are_placed(course[j], hash, b);
    if told(a) == told(b) {
        effect_laws::identities_tell_effects_apart(
            a.program_hash,
            a.kind,
            a.site,
            a.dynamic_path,
            b.program_hash,
            b.kind,
            b.site,
            b.dynamic_path,
        );
        assert(comes_next(course[i], course[i + 1], hash));
        assert(machine::visits_at(course[i + 1], a.site) == machine::visits_at(m, a.site) + 1) by {
            reveal(machine::stepped);
        }
        visits_add_up(course, hash, i + 1, j, a.site);
    }
}

} // verus!
