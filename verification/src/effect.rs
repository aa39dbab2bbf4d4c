//! The identity of effects: where in a program they stand and which way
//! control flow came there.
use crate::digest;
use crate::digest::{digest_of, tagged_digest_of};
use crate::ir::{BlockId, EffectKind};
use crate::ir_hash::{record2, record3, record4};
use crate::json;
use crate::json::{Json, JsonV};
use crate::text;
use crate::text::decimal_of;
use vstd::prelude::*;

verus! {

/// An instruction of a program.
#[derive(Debug, Clone, Copy, PartialEq, Eq, Structural)]
pub struct EffectSite {
    pub block: BlockId,
    pub instruction_index: usize,
}

/// Which way control flow came to an effect, and how often before.
#[derive(Debug)]
pub struct DynamicPath {
    /// The digest of the transitions; empty before the first.
    pub path: String,
    pub transitions: u64,
    /// How often the site was visited before.
    pub visit: u64,
}

/// The model of a dynamic path.
pub struct DynamicPathV {
    pub path: Seq<char>,
    pub transitions: u64,
    pub visit: u64,
}

impl DynamicPath {
    pub open spec fn view(&self) -> DynamicPathV {
        DynamicPathV {
            path: self.path@,
            transitions: self.transitions,
            visit: self.visit,
        }
    }
}

impl Clone for DynamicPath {
    fn clone(&self) -> (r: Self)
        ensures
            r@ == self@,
    {
        DynamicPath {
            path: self.path.clone(),
            transitions: self.transitions,
            visit: self.visit,
        }
    }
}

impl DynamicPath {
    /// The path of an effect of the entry block, before any transition.
    pub fn at_entry(visit: u64) -> (r: DynamicPath)
        ensures
            r@ == (DynamicPathV { path: Seq::empty(), transitions: 0, visit }),
    {
        let path = String::new();
        assert(path@ =~= Seq::empty());
        DynamicPath { path, transitions: 0, visit }
    }
}

/// One occurrence of an effect in a run.
#[derive(Debug)]
pub struct EffectLocation {
    pub effect_id: String,
    pub program_hash: String,
    pub kind: EffectKind,
    pub site: EffectSite,
    pub dynamic_path: DynamicPath,
}

/// The model of an effect location.
pub struct EffectLocationV {
    pub effect_id: Seq<char>,
    pub program_hash: Seq<char>,
    pub kind: EffectKind,
    pub site: EffectSite,
    pub dynamic_path: DynamicPathV,
}

impl EffectLocation {
    pub open spec fn view(&self) -> EffectLocationV {
        EffectLocationV {
            effect_id: self.effect_id@,
            program_hash: self.program_hash@,
            kind: self.kind,
            site: self.site,
            dynamic_path: self.dynamic_path@,
        }
    }
}

impl Clone for EffectLocation {
    fn clone(&self) -> (r: Self)
        ensures
            r@ == self@,
    {
        EffectLocation {
            effect_id: self.effect_id.clone(),
            program_hash: self.program_hash.clone(),
            kind: self.kind,
            site: self.site,
            dynamic_path: self.dynamic_path.clone(),
        }
    }
}

/// Which way control flow has gone: a digest of all transitions so far, and
/// how many there were.
#[derive(Debug)]
pub struct ControlPath {
    pub digest: String,
    pub transitions: u64,
}

/// The model of a control path.
pub struct ControlPathV {
    pub digest: Seq<char>,
    pub transitions: u64,
}

impl ControlPath {
    pub open spec fn view(&self) -> ControlPathV {
        ControlPathV {
            digest: self.digest@,
            transitions: self.transitions,
        }
    }
}

impl Clone for ControlPath {
    fn clone(&self) -> (r: Self)
        ensures
            r@ == self@,
    {
        ControlPath {
            digest: self.digest.clone(),
            transitions: self.transitions,
        }
    }
}

/// What a transition adds to the digest of those before it.
pub open spec fn transition_text(
    digest: Seq<char>,
    from: u32,
    arm: u32,
    to: u32,
) -> Seq<char> {
    digest + "|"@ + text::decimal(from as nat) + ":"@ + text::decimal(arm as nat) + ":"@
        + text::decimal(to as nat)
}

/// The control path after one more transition.
pub open spec fn transitioned(p: ControlPathV, from: u32, arm: u32, to: u32) -> ControlPathV {
    ControlPathV {
        digest: digest::text_digest(transition_text(p.digest, from, arm, to)),
        transitions: if p.transitions == u64::MAX {
            u64::MAX
        } else {
            (p.transitions + 1) as u64
        },
    }
}

/// The dynamic path of an effect that is visited on a control path.
pub open spec fn path_at(p: ControlPathV, visit: u64) -> DynamicPathV {
    DynamicPathV { path: p.digest, transitions: p.transitions, visit }
}

impl ControlPath {
    /// The path of a machine that has not moved.
    pub fn new() -> (r: ControlPath)
        ensures
            r@ == (ControlPathV { digest: Seq::empty(), transitions: 0 }),
    {
        let digest = String::new();
        assert(digest@ =~= Seq::empty());
        ControlPath { digest, transitions: 0 }
    }

    /// Folds the transition from a block over an arm of its terminator to
    /// another block into the path.
    pub fn transition(&mut self, from: BlockId, arm: u32, to: BlockId)
        ensures
            final(self)@ == transitioned(old(self)@, from.0, arm, to.0),
    {
        let mut folded = self.digest.clone();
        folded.append("|");
        folded.append(decimal_of(from.0 as u128).as_str());
        folded.append(":");
        folded.append(decimal_of(arm as u128).as_str());
        folded.append(":");
        folded.append(decimal_of(to.0 as u128).as_str());
        self.digest = digest_of(folded.as_str());
        if self.transitions < u64::MAX {
            self.transitions = self.transitions + 1;
        }
    }

    /// The dynamic path of an effect that is visited now.
    pub fn at_visit(&self, visit: u64) -> (r: DynamicPath)
        ensures
            r@ == path_at(self@, visit),
    {
        DynamicPath { path: self.digest.clone(), transitions: self.transitions, visit }
    }
}

/// What the identity of an effect is derived from.
pub open spec fn identity_json(
    program_hash: Seq<char>,
    kind: EffectKind,
    site: EffectSite,
    path: DynamicPathV,
) -> JsonV {
    JsonV::Object(
        seq![
            ("program_hash"@, JsonV::Str(program_hash)),
            ("kind"@, JsonV::Str(kind.text())),
            (
                "site"@,
                JsonV::Object(
                    seq![
                        ("block"@, JsonV::Int(site.block.0 as int)),
                        ("instruction_index"@, JsonV::Int(site.instruction_index as int)),
                    ],
                ),
            ),
            (
                "dynamic_path"@,
                JsonV::Object(
                    seq![
                        ("path"@, JsonV::Str(path.path)),
                        ("transitions"@, JsonV::Int(path.transitions as int)),
                        ("visit"@, JsonV::Int(path.visit as int)),
                    ],
                ),
            ),
        ],
    )
}

/// The effect of a kind at a site of a program, reached over a path.
pub open spec fn located(
    program_hash: Seq<char>,
    kind: EffectKind,
    site: EffectSite,
    path: DynamicPathV,
) -> EffectLocationV {
    EffectLocationV {
        effect_id: digest::tagged_digest(
            json::json_text(identity_json(program_hash, kind, site, path)),
        ),
        program_hash,
        kind,
        site,
        dynamic_path: path,
    }
}

/// The location of an effect, with the id that all of it hashes to.
pub fn effect_location(
    program_hash: String,
    kind: EffectKind,
    site: EffectSite,
    dynamic_path: DynamicPath,
) -> (r: EffectLocation)
    ensures
        r@ == located(program_hash@, kind, site, dynamic_path@),
{
    broadcast use json::group_json;

    let place = record2(
        "block",
        Json::Int(site.block.0 as i128),
        "instruction_index",
        Json::Int(site.instruction_index as i128),
    );
    let path = record3(
        "path",
        Json::Str(dynamic_path.path.clone()),
        "transitions",
        Json::Int(dynamic_path.transitions as i128),
        "visit",
        Json::Int(dynamic_path.visit as i128),
    );
    let identity = record4(
        "program_hash",
        Json::Str(program_hash.clone()),
        "kind",
        Json::text(kind.as_str()),
        "site",
        place,
        "dynamic_path",
        path,
    );
    let effect_id = tagged_digest_of(identity.to_text().as_str());
    EffectLocation { effect_id, program_hash, kind, site, dynamic_path }
}

} // verus!
