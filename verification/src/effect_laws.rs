//! What tells effects apart: their identities are digests of texts, and
//! different effects have different texts.
use crate::effect;
use crate::effect::{DynamicPathV, EffectSite};
use crate::ir::EffectKind;
use crate::json;
use crate::json_laws;
use crate::text;
use vstd::prelude::*;

verus! {

proof fn kinds_are_apart(a: EffectKind, b: EffectKind)
    requires
        a.text() == b.text(),
    ensures
        a == b,
{
    reveal_strlit("Infer");
    reveal_strlit("Eval");
    reveal_strlit("Retrieve");
    reveal_strlit("Store");
    reveal_strlit("Tool");
    assert("Infer"@.len() == 5 && "Store"@.len() == 5 && "Retrieve"@.len() == 8);
    assert("Eval"@.len() == 4 && "Tool"@.len() == 4);
    assert("Infer"@[0] == 'I' && "Store"@[0] == 'S');
    assert("Eval"@[0] == 'E' && "Tool"@[0] == 'T');
}

/// An effect is told by its program, its kind, its place and the path on which
/// it is reached: effects that differ in any of these, such as two visits of
/// one instruction, have different texts under their identities.
pub proof fn identities_tell_effects_apart(
    hash: Seq<char>,
    kind: EffectKind,
    site: EffectSite,
    path: DynamicPathV,
    other_hash: Seq<char>,
    other_kind: EffectKind,
    other_site: EffectSite,
    other_path: DynamicPathV,
)
    requires
        json::json_text(effect::identity_json(hash, kind, site, path)) == json::json_text(
            effect::identity_json(other_hash, other_kind, other_site, other_path),
        ),
    ensures
        hash == other_hash,
        kind == other_kind,
        site == other_site,
        path == other_path,
{
    let a = effect::identity_json(hash, kind, site, path);
    let b = effect::identity_json(other_hash, other_kind, other_site, other_path);
    identities_are_well_written(hash, kind, site, path);
    identities_are_well_written(other_hash, other_kind, other_site, other_path);
    json_laws::texts_tell_values_apart(a, b);
    let x = a->Object_0;
    let y = b->Object_0;
    assert(x[0] == y[0] && x[1] == y[1] && x[2] == y[2] && x[3] == y[3]);
    let s = x[2].1->Object_0;
    let t = y[2].1->Object_0;
    assert(s[0] == t[0] && s[1] == t[1]);
    let p = x[3].1->Object_0;
    let q = y[3].1->Object_0;
    assert(p[0] == q[0] && p[1] == q[1] && p[2] == q[2]);
    kinds_are_apart(kind, other_kind);
}

proof fn identities_are_well_written(
    hash: Seq<char>,
    kind: EffectKind,
    site: EffectSite,
    path: DynamicPathV,
)
    ensures
        json_laws::well_written(effect::identity_json(hash, kind, site, path)),
{
    let v = effect::identity_json(hash, kind, site, path)->Object_0;
    assert(json_laws::well_written(v[0].1));
    assert(json_laws::well_written(v[1].1));
    let s = v[2].1->Object_0;
    assert(json_laws::well_written(s[0].1) && json_laws::well_written(s[1].1));
    assert(json_laws::well_written(v[2].1));
    let p = v[3].1->Object_0;
    assert(json_laws::well_written(p[0].1) && json_laws::well_written(p[1].1)
        && json_laws::well_written(p[2].1));
    assert(json_laws::well_written(v[3].1));
}

proof fn last_number_tells(x: Seq<char>, y: Seq<char>, c: char, a: nat, b: nat)
    requires
        !('0' <= c <= '9'),
        x.push(c) + text::decimal(a) == y.push(c) + text::decimal(b),
    ensures
        x == y,
        a == b,
{
    let p = text::decimal(a);
    let q = text::decimal(b);
    let both = x.push(c) + p;
    json_laws::decimals_are_digits(a);
    json_laws::decimals_are_digits(b);
    assert(both.len() == x.len() + 1 + p.len() && both.len() == y.len() + 1 + q.len());
    if x.len() < y.len() {
        assert(both[y.len() as int] == c);
        assert(both[y.len() as int] == p[y.len() - x.len() - 1]);
    } else if y.len() < x.len() {
        assert(both[x.len() as int] == c);
        assert(both[x.len() as int] == q[x.len() - y.len() - 1]);
    }
    assert(x =~= both.take(x.len() as int));
    assert(y =~= both.take(y.len() as int));
    assert(p =~= both.skip(x.len() as int + 1));
    assert(q =~= both.skip(y.len() as int + 1));
    json_laws::decimals_are_apart(a, b);
}

/// A transition is told by what came before it, by the blocks between which it
/// leads and by the arm that it takes: two arms of one branch add different
/// texts to a control path.
pub proof fn transitions_tell_arms_apart(
    before: Seq<char>,
    from: u32,
    arm: u32,
    to: u32,
    other_before: Seq<char>,
    other_from: u32,
    other_arm: u32,
    other_to: u32,
)
    requires
        effect::transition_text(before, from, arm, to) == effect::transition_text(
            other_before,
            other_from,
            other_arm,
            other_to,
        ),
    ensures
        before == other_before,
        from == other_from,
        arm == other_arm,
        to == other_to,
{
    reveal_strlit("|");
    reveal_strlit(":");
    let a = before.push('|') + text::decimal(from as nat);
    let b = a.push(':') + text::decimal(arm as nat);
    let x = other_before.push('|') + text::decimal(other_from as nat);
    let y = x.push(':') + text::decimal(other_arm as nat);
    assert(effect::transition_text(before, from, arm, to) =~= b.push(':') + text::decimal(
        to as nat,
    ));
    assert(effect::transition_text(other_before, other_from, other_arm, other_to) =~= y.push(':')
        + text::decimal(other_to as nat));
    last_number_tells(b, y, ':', to as nat, other_to as nat);
    last_number_tells(a, x, ':', arm as nat, other_arm as nat);
    last_number_tells(before, other_before, '|', from as nat, other_from as nat);
}

} // verus!
