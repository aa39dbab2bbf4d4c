//! What it takes for a value to fit a schema.
use crate::ir_hash;
use crate::json;
use crate::json::{Fields, JsonV};
use crate::output_contract;
use crate::output_contract::OutputContractFailureV;
use crate::text;
use vstd::prelude::*;

verus! {

/// The names of the kinds tell themselves apart.
proof fn kind_names()
    ensures
        "object"@.len() == 6 && "object"@[0] == 'o',
        "array"@.len() == 5,
        "string"@.len() == 6 && "string"@[0] == 's',
        "boolean"@.len() == 7 && "boolean"@[0] == 'b',
        "null"@.len() == 4,
        "number"@.len() == 6 && "number"@[0] == 'n',
        "integer"@.len() == 7 && "integer"@[0] == 'i',
{
    reveal_strlit("object");
    reveal_strlit("array");
    reveal_strlit("string");
    reveal_strlit("boolean");
    reveal_strlit("null");
    reveal_strlit("number");
    reveal_strlit("integer");
}

/// Whether a text names one of the kinds of JSON values.
pub open spec fn names_a_kind(name: Seq<char>) -> bool {
    ||| name == "object"@
    ||| name == "array"@
    ||| name == "string"@
    ||| name == "boolean"@
    ||| name == "null"@
    ||| name == "number"@
}

/// Every value is of one kind and no other: a schema that asks for a kind finds
/// nothing wrong with a value of that kind, and says of every other value what
/// it expected and what it found, which are never the same.
pub proof fn kinds_are_told_apart(s: Fields, v: JsonV, name: Seq<char>, path: Seq<char>)
    requires
        json::lookup(s, "type"@) == Some(JsonV::Str(name)),
        names_a_kind(name),
    ensures
        ({
            let found = output_contract::type_violations(s, v, path);
            let kind = output_contract::type_of(v);
            &&& names_a_kind(kind)
            &&& found.len() == 0 <==> name == kind
            &&& found.len() != 0 ==> found =~= seq![
                path + ": expected type "@ + name + ", got "@ + kind,
            ]
            &&& kind == "object"@ <==> v is Object
            &&& kind == "array"@ <==> v is Array
            &&& kind == "string"@ <==> v is Str
            &&& kind == "boolean"@ <==> v is Bool
            &&& kind == "null"@ <==> v is Null
            &&& kind == "number"@ <==> v is Int || v is Float
        }),
{
    kind_names();
    let allowed = output_contract::allowed_types(s);
    assert(allowed =~= seq![name]);
    assert(allowed[0] == name);
    assert(text::joined(allowed, " or "@) == name);
}

/// Every number is a number: a fraction satisfies what a whole number does where
/// a number is asked for, and what satisfies a demand for an integer satisfies
/// one for a number.  Whole numbers are integers, and nothing but numbers is.
pub proof fn integers_are_numbers(n: int, t: Seq<char>, v: JsonV)
    ensures
        output_contract::of_type("number"@, JsonV::Int(n)),
        output_contract::of_type("number"@, JsonV::Float(t)),
        output_contract::of_type("integer"@, JsonV::Int(n)),
        output_contract::of_type("integer"@, v) ==> output_contract::of_type("number"@, v),
        output_contract::of_type("integer"@, JsonV::Float(t)) <==> output_contract::whole(t),
        v !is Int && v !is Float ==> !output_contract::of_type("integer"@, v)
            && !output_contract::of_type("number"@, v),
{
    kind_names();
}

/// A kind that nobody knows has no values.
pub proof fn unknown_kinds_are_empty(name: Seq<char>, v: JsonV)
    requires
        !names_a_kind(name),
        name != "integer"@,
    ensures
        !output_contract::of_type(name, v),
{
}

proof fn nothing_before(s: Seq<char>, c: char, from: int, to: int)
    requires
        0 <= from <= to <= s.len(),
        forall|i: int| from <= i < to ==> #[trigger] s[i] != c,
        to < s.len() ==> s[to] == c,
    ensures
        text::first_at(s, c, from) == to,
    decreases to - from,
{
    if from < to {
        nothing_before(s, c, from + 1, to);
    }
}

proof fn zeros_go(s: Seq<char>)
    ensures
        output_contract::without_zeros(s).len() == 0 <==> forall|i: int|
            0 <= i < s.len() ==> #[trigger] s[i] == '0',
        output_contract::without_zeros(s).len() <= s.len(),
    decreases s.len(),
{
    if s.len() > 0 && s.last() == '0' {
        zeros_go(s.drop_last());
        assert forall|i: int|
            (forall|j: int| 0 <= j < s.drop_last().len() ==> #[trigger] s.drop_last()[j] == '0') && 0
                <= i < s.len() implies #[trigger] s[i] == '0' by {
            if i < s.len() - 1 {
                assert(s.drop_last()[i] == '0');
            }
        }
        if forall|i: int| 0 <= i < s.len() ==> #[trigger] s[i] == '0' {
            assert forall|j: int| 0 <= j < s.drop_last().len() implies #[trigger] s.drop_last()[j]
                == '0' by {
                assert(s[j] == '0');
            }
        }
    } else if s.len() > 0 {
        assert(s[s.len() - 1] != '0');
    }
}

/// Whether a text consists of digits, after a sign at most.
pub open spec fn is_numeral(s: Seq<char>) -> bool {
    forall|i: int| 0 <= i < s.len() ==> '0' <= #[trigger] s[i] <= '9' || s[i] == '-'
}

/// A number in decimal notation is whole where nothing but zeros stands behind
/// its point.
pub proof fn fractions_of_zeros_are_whole(m: Seq<char>, f: Seq<char>)
    requires
        is_numeral(m),
        is_numeral(f),
    ensures
        output_contract::whole(m + seq!['.'] + f) <==> forall|i: int|
            0 <= i < f.len() ==> #[trigger] f[i] == '0',
{
    let t = m + seq!['.'] + f;
    nothing_before(t, 'e', 0, t.len() as int);
    assert(t.take(t.len() as int) =~= t);
    nothing_before(t, '.', 0, m.len() as int);
    assert(t.skip(m.len() as int + 1) =~= f);
    zeros_go(f);
    assert(text::number(Seq::empty()) == 0);
}

/// A schema with several kinds is satisfied by a value of any of them.
pub proof fn any_listed_kind_will_do(
    s: Fields,
    names: Seq<JsonV>,
    i: int,
    name: Seq<char>,
    v: JsonV,
    path: Seq<char>,
)
    requires
        json::lookup(s, "type"@) == Some(JsonV::Array(names)),
        0 <= i < names.len(),
        names[i] == JsonV::Str(name),
    ensures
        output_contract::of_type(name, v) ==> output_contract::type_violations(s, v, path).len()
            == 0,
        output_contract::type_violations(s, v, path).len() == 0 ==> exists|j: int|
            0 <= j < names.len() && (#[trigger] names[j]) is Str && output_contract::of_type(
                names[j]->Str_0,
                v,
            ),
{
    let allowed = output_contract::allowed_types(s);
    listed_texts(names);
    assert(allowed.contains(name));
    let k = choose|k: int| 0 <= k < allowed.len() && allowed[k] == name;
    assert(allowed[k] == name);
    if output_contract::type_violations(s, v, path).len() == 0 {
        let j = choose|j: int|
            0 <= j < allowed.len() && output_contract::of_type(#[trigger] allowed[j], v);
        assert(allowed.contains(allowed[j]));
    }
}

proof fn listed_texts(names: Seq<JsonV>)
    ensures
        forall|t: Seq<char>| #[trigger]
            output_contract::texts_among(names).contains(t) <==> exists|j: int|
                0 <= j < names.len() && #[trigger] names[j] == JsonV::Str(t),
    decreases names.len(),
{
    if names.len() > 0 {
        let less = names.drop_last();
        listed_texts(less);
        let a = output_contract::texts_among(less);
        let b = output_contract::texts_among(names);
        assert forall|t: Seq<char>| #[trigger] b.contains(t) <==> exists|j: int|
            0 <= j < names.len() && #[trigger] names[j] == JsonV::Str(t) by {
            if b.contains(t) {
                let k = choose|k: int| 0 <= k < b.len() && b[k] == t;
                if k < a.len() {
                    assert(a[k] == t);
                    assert(a.contains(t));
                    let j = choose|j: int| 0 <= j < less.len() && #[trigger] less[j] == JsonV::Str(t);
                    assert(names[j] == JsonV::Str(t));
                } else {
                    assert(names[names.len() - 1] == JsonV::Str(t));
                }
            }
            if exists|j: int| 0 <= j < names.len() && #[trigger] names[j] == JsonV::Str(t) {
                let j = choose|j: int| 0 <= j < names.len() && #[trigger] names[j] == JsonV::Str(t);
                if j < less.len() {
                    assert(less[j] == JsonV::Str(t));
                    assert(a.contains(t));
                    let k = choose|k: int| 0 <= k < a.len() && a[k] == t;
                    assert(b[k] == t);
                } else {
                    assert(b[b.len() - 1] == t);
                }
            }
        }
    }
}

/// A value that is listed may be used, and one that equals nothing that is
/// listed may not; the complaint names the value.
pub proof fn listed_values_are_allowed(s: Fields, options: Seq<JsonV>, v: JsonV, path: Seq<char>)
    requires
        json::lookup(s, "enum"@) == Some(JsonV::Array(options)),
    ensures
        options.contains(v) ==> output_contract::enum_violations(s, v, path).len() == 0,
        (v is Str || v is Int || v is Bool || v is Null) && !options.contains(v)
            ==> output_contract::enum_violations(s, v, path).len() == 1,
        output_contract::enum_violations(s, v, path).len() > 0
            ==> output_contract::enum_violations(s, v, path) =~= seq![
            path + ": "@ + text::prefix(json::json_text(v), 80)
                + " is not one of the allowed enum values"@,
        ],
{
    if options.contains(v) {
        let i = choose|i: int| 0 <= i < options.len() && options[i] == v;
        json::same_reflexive(v);
        assert(json::same(options[i], v));
    }
    if (v is Str || v is Int || v is Bool || v is Null) && output_contract::is_option(options, v) {
        let i = choose|i: int| 0 <= i < options.len() && json::same(#[trigger] options[i], v);
        assert(options[i] == v);
        assert(options.contains(v));
    }
}

proof fn what_is_missing(required: Seq<Seq<char>>, object: Fields, path: Seq<char>)
    ensures
        ({
            let found = output_contract::missing(required, object, path);
            &&& found.len() == 0 <==> forall|i: int|
                0 <= i < required.len() ==> json::lookup(object, #[trigger] required[i]) is Some
            &&& forall|i: int|
                0 <= i < required.len() && json::lookup(object, #[trigger] required[i]) is None
                    ==> found.contains(
                    path + ": missing required property "@ + text::quoted(required[i]),
                )
        }),
    decreases required.len(),
{
    if required.len() > 0 {
        let less = required.drop_last();
        what_is_missing(less, object, path);
        let a = output_contract::missing(less, object, path);
        let b = output_contract::missing(required, object, path);
        assert forall|i: int|
            0 <= i < required.len() && json::lookup(
                object,
                #[trigger] required[i],
            ) is None implies b.contains(
            path + ": missing required property "@ + text::quoted(required[i]),
        ) by {
            let m = path + ": missing required property "@ + text::quoted(required[i]);
            if i < less.len() {
                assert(less[i] == required[i]);
                assert(a.contains(m));
                let k = choose|k: int| 0 <= k < a.len() && a[k] == m;
                assert(b[k] == m);
            } else {
                assert(b[b.len() - 1] == m);
            }
        }
        if b.len() == 0 {
            assert forall|i: int| 0 <= i < required.len() implies json::lookup(
                object,
                #[trigger] required[i],
            ) is Some by {
                if i < less.len() {
                    assert(less[i] == required[i]);
                }
            }
        }
        if forall|i: int|
            0 <= i < required.len() ==> json::lookup(object, #[trigger] required[i]) is Some {
            assert forall|i: int| 0 <= i < less.len() implies json::lookup(
                object,
                #[trigger] less[i],
            ) is Some by {
                assert(less[i] == required[i]);
            }
            assert(required[required.len() - 1] == required.last());
        }
    }
}

/// Nothing is missing from an object that has every required property; each one
/// that it lacks is named.  What is no object lacks nothing.
pub proof fn lacking_properties_are_named(
    s: Fields,
    names: Seq<JsonV>,
    object: Fields,
    path: Seq<char>,
    v: JsonV,
)
    requires
        json::lookup(s, "required"@) == Some(JsonV::Array(names)),
    ensures
        ({
            let found = output_contract::required_violations(s, JsonV::Object(object), path);
            &&& found.len() == 0 <==> forall|i: int|
                0 <= i < names.len() && (#[trigger] names[i]) is Str ==> json::lookup(
                    object,
                    names[i]->Str_0,
                ) is Some
            &&& forall|i: int|
                0 <= i < names.len() && (#[trigger] names[i]) is Str && json::lookup(
                    object,
                    names[i]->Str_0,
                ) is None ==> found.contains(
                    path + ": missing required property "@ + text::quoted(names[i]->Str_0),
                )
            &&& v !is Object ==> output_contract::required_violations(s, v, path).len() == 0
        }),
{
    let required = output_contract::texts_among(names);
    let found = output_contract::required_violations(s, JsonV::Object(object), path);
    what_is_missing(required, object, path);
    listed_texts(names);
    assert forall|i: int|
        0 <= i < names.len() && (#[trigger] names[i]) is Str && json::lookup(
            object,
            names[i]->Str_0,
        ) is None implies found.contains(
        path + ": missing required property "@ + text::quoted(names[i]->Str_0),
    ) by {
        let t = names[i]->Str_0;
        assert(required.contains(t));
        let k = choose|k: int| 0 <= k < required.len() && required[k] == t;
        assert(json::lookup(object, required[k]) is None);
    }
    if forall|i: int|
        0 <= i < names.len() && (#[trigger] names[i]) is Str ==> json::lookup(
            object,
            names[i]->Str_0,
        ) is Some {
        assert forall|k: int| 0 <= k < required.len() implies json::lookup(
            object,
            #[trigger] required[k],
        ) is Some by {
            assert(required.contains(required[k]));
            let i = choose|i: int|
                0 <= i < names.len() && #[trigger] names[i] == JsonV::Str(required[k]);
            assert(names[i] is Str);
        }
    }
    if found.len() == 0 {
        assert forall|i: int| 0 <= i < names.len() && (#[trigger] names[i]) is Str implies json::lookup(
            object,
            names[i]->Str_0,
        ) is Some by {
            let t = names[i]->Str_0;
            assert(required.contains(t));
            let k = choose|k: int| 0 <= k < required.len() && required[k] == t;
            assert(json::lookup(object, required[k]) is Some);
        }
    }
}

proof fn property_by_property(properties: Fields, object: Fields, path: Seq<char>)
    ensures
        ({
            let found = output_contract::property_violations(properties, object, path);
            &&& found.len() == 0 <==> forall|i: int|
                0 <= i < properties.len() ==> (json::lookup(object, (#[trigger] properties[i]).0)
                    matches Some(x) ==> output_contract::violations(
                    properties[i].1,
                    x,
                    path + "."@ + properties[i].0,
                ).len() == 0)
            &&& forall|i: int, m: Seq<char>|
                #![trigger properties[i], found.contains(m)]
                0 <= i < properties.len() && (json::lookup(object, properties[i].0) matches Some(x)
                    && output_contract::violations(
                    properties[i].1,
                    x,
                    path + "."@ + properties[i].0,
                ).contains(m)) ==> found.contains(m)
        }),
    decreases properties.len(),
{
    if properties.len() > 0 {
        let less = properties.drop_last();
        let last = properties[properties.len() - 1];
        property_by_property(less, object, path);
        let a = output_contract::property_violations(less, object, path);
        let b = output_contract::property_violations(properties, object, path);
        let own = match json::lookup(object, last.0) {
            Some(child) => output_contract::violations(last.1, child, path + "."@ + last.0),
            None => Seq::empty(),
        };
        assert(b == a + own);
        assert forall|i: int, m: Seq<char>|
            #![trigger properties[i], b.contains(m)]
            0 <= i < properties.len() && (json::lookup(object, properties[i].0) matches Some(x)
                && output_contract::violations(
                properties[i].1,
                x,
                path + "."@ + properties[i].0,
            ).contains(m)) implies b.contains(m) by {
            if i < less.len() {
                assert(less[i] == properties[i]);
                assert(a.contains(m));
                let k = choose|k: int| 0 <= k < a.len() && a[k] == m;
                assert(b[k] == m);
            } else {
                let k = choose|k: int| 0 <= k < own.len() && own[k] == m;
                assert(b[a.len() + k] == m);
            }
        }
        if b.len() == 0 {
            assert forall|i: int| 0 <= i < properties.len() implies (json::lookup(
                object,
                (#[trigger] properties[i]).0,
            ) matches Some(x) ==> output_contract::violations(
                properties[i].1,
                x,
                path + "."@ + properties[i].0,
            ).len() == 0) by {
                if i < less.len() {
                    assert(less[i] == properties[i]);
                }
            }
        }
        if forall|i: int|
            0 <= i < properties.len() ==> (json::lookup(object, (#[trigger] properties[i]).0)
                matches Some(x) ==> output_contract::violations(
                properties[i].1,
                x,
                path + "."@ + properties[i].0,
            ).len() == 0) {
            assert forall|i: int| 0 <= i < less.len() implies (json::lookup(
                object,
                (#[trigger] less[i]).0,
            ) matches Some(x) ==> output_contract::violations(
                less[i].1,
                x,
                path + "."@ + less[i].0,
            ).len() == 0) by {
                assert(less[i] == properties[i]);
            }
            assert(properties[properties.len() - 1] == last);
        }
    }
}

proof fn item_by_item(each: JsonV, items: Seq<JsonV>, path: Seq<char>)
    ensures
        ({
            let found = output_contract::item_violations(each, items, path);
            &&& found.len() == 0 <==> forall|i: int|
                0 <= i < items.len() ==> output_contract::violations(
                    each,
                    #[trigger] items[i],
                    path + "["@ + text::decimal(i as nat) + "]"@,
                ).len() == 0
            &&& forall|i: int, m: Seq<char>|
                #![trigger items[i], found.contains(m)]
                0 <= i < items.len() && output_contract::violations(
                    each,
                    items[i],
                    path + "["@ + text::decimal(i as nat) + "]"@,
                ).contains(m) ==> found.contains(m)
        }),
    decreases items.len(),
{
    if items.len() > 0 {
        let less = items.drop_last();
        item_by_item(each, less, path);
        let n = items.len() - 1;
        let a = output_contract::item_violations(each, less, path);
        let b = output_contract::item_violations(each, items, path);
        let own = output_contract::violations(
            each,
            items.last(),
            path + "["@ + text::decimal(n as nat) + "]"@,
        );
        assert(b == a + own);
        assert forall|i: int, m: Seq<char>|
            #![trigger items[i], b.contains(m)]
            0 <= i < items.len() && output_contract::violations(
                each,
                items[i],
                path + "["@ + text::decimal(i as nat) + "]"@,
            ).contains(m) implies b.contains(m) by {
            if i < less.len() {
                assert(less[i] == items[i]);
                assert(a.contains(m));
                let k = choose|k: int| 0 <= k < a.len() && a[k] == m;
                assert(b[k] == m);
            } else {
                let k = choose|k: int| 0 <= k < own.len() && own[k] == m;
                assert(b[a.len() + k] == m);
            }
        }
        if b.len() == 0 {
            assert forall|i: int| 0 <= i < items.len() implies output_contract::violations(
                each,
                #[trigger] items[i],
                path + "["@ + text::decimal(i as nat) + "]"@,
            ).len() == 0 by {
                if i < less.len() {
                    assert(less[i] == items[i]);
                }
            }
        }
        if forall|i: int|
            0 <= i < items.len() ==> output_contract::violations(
                each,
                #[trigger] items[i],
                path + "["@ + text::decimal(i as nat) + "]"@,
            ).len() == 0 {
            assert forall|i: int| 0 <= i < less.len() implies output_contract::violations(
                each,
                #[trigger] less[i],
                path + "["@ + text::decimal(i as nat) + "]"@,
            ).len() == 0 by {
                assert(less[i] == items[i]);
            }
            assert(items[n] == items.last());
        }
    }
}

/// An object fits a schema where it has the right kind, is one of the listed
/// values, lacks nothing, and each of its properties fits the schema of that
/// property; a property without a schema or without a value is not looked at.
/// What is wrong with a property is told with the path to it.
pub proof fn objects_fit_by_their_properties(
    s: Fields,
    properties: Fields,
    object: Fields,
    path: Seq<char>,
)
    requires
        json::lookup(s, "properties"@) == Some(JsonV::Object(properties)),
    ensures
        ({
            let v = JsonV::Object(object);
            let found = output_contract::violations(JsonV::Object(s), v, path);
            &&& found.len() == 0 <==> {
                &&& output_contract::type_violations(s, v, path).len() == 0
                &&& output_contract::enum_violations(s, v, path).len() == 0
                &&& output_contract::required_violations(s, v, path).len() == 0
                &&& forall|i: int|
                    0 <= i < properties.len() ==> (json::lookup(
                        object,
                        (#[trigger] properties[i]).0,
                    ) matches Some(x) ==> output_contract::violations(
                        properties[i].1,
                        x,
                        path + "."@ + properties[i].0,
                    ).len() == 0)
            }
            &&& forall|i: int, m: Seq<char>|
                #![trigger properties[i], found.contains(m)]
                0 <= i < properties.len() && (json::lookup(object, properties[i].0) matches Some(x)
                    && output_contract::violations(
                    properties[i].1,
                    x,
                    path + "."@ + properties[i].0,
                ).contains(m)) ==> found.contains(m)
        }),
{
    let v = JsonV::Object(object);
    let found = output_contract::violations(JsonV::Object(s), v, path);
    property_by_property(properties, object, path);
    let inner = output_contract::property_violations(properties, object, path);
    let own = output_contract::type_violations(s, v, path) + output_contract::enum_violations(
        s,
        v,
        path,
    ) + output_contract::required_violations(s, v, path);
    assert(found =~= own + inner);
    assert forall|i: int, m: Seq<char>|
        #![trigger properties[i], found.contains(m)]
        0 <= i < properties.len() && (json::lookup(object, properties[i].0) matches Some(x)
            && output_contract::violations(
            properties[i].1,
            x,
            path + "."@ + properties[i].0,
        ).contains(m)) implies found.contains(m) by {
        assert(inner.contains(m));
        let k = choose|k: int| 0 <= k < inner.len() && inner[k] == m;
        assert(found[own.len() + k] == m);
    }
}

/// An array fits a schema where it has the right kind, is one of the listed
/// values and each of its items fits the schema of the items.  What is wrong
/// with an item is told with its place.
pub proof fn arrays_fit_by_their_items(
    s: Fields,
    each: JsonV,
    items: Seq<JsonV>,
    path: Seq<char>,
)
    requires
        json::lookup(s, "items"@) == Some(each),
    ensures
        ({
            let v = JsonV::Array(items);
            let found = output_contract::violations(JsonV::Object(s), v, path);
            &&& found.len() == 0 <==> {
                &&& output_contract::type_violations(s, v, path).len() == 0
                &&& output_contract::enum_violations(s, v, path).len() == 0
                &&& forall|i: int|
                    0 <= i < items.len() ==> output_contract::violations(
                        each,
                        #[trigger] items[i],
                        path + "["@ + text::decimal(i as nat) + "]"@,
                    ).len() == 0
            }
            &&& forall|i: int, m: Seq<char>|
                #![trigger items[i], found.contains(m)]
                0 <= i < items.len() && output_contract::violations(
                    each,
                    items[i],
                    path + "["@ + text::decimal(i as nat) + "]"@,
                ).contains(m) ==> found.contains(m)
        }),
{
    let v = JsonV::Array(items);
    let found = output_contract::violations(JsonV::Object(s), v, path);
    item_by_item(each, items, path);
    let inner = output_contract::item_violations(each, items, path);
    let own = output_contract::type_violations(s, v, path) + output_contract::enum_violations(
        s,
        v,
        path,
    );
    assert(found =~= own + inner);
    assert forall|i: int, m: Seq<char>|
        #![trigger items[i], found.contains(m)]
        0 <= i < items.len() && output_contract::violations(
            each,
            items[i],
            path + "["@ + text::decimal(i as nat) + "]"@,
        ).contains(m) implies found.contains(m) by {
        assert(inner.contains(m));
        let k = choose|k: int| 0 <= k < inner.len() && inner[k] == m;
        assert(found[own.len() + k] == m);
    }
}

/// A value that is no object and no array is held to its kind and to the listed
/// values alone; a schema that is no object holds nothing to anything.
pub proof fn plain_values_fit_by_kind(s: Fields, v: JsonV, path: Seq<char>, schema: JsonV)
    requires
        v !is Object,
        v !is Array,
    ensures
        output_contract::violations(JsonV::Object(s), v, path)
            =~= output_contract::type_violations(s, v, path)
            + output_contract::enum_violations(s, v, path),
        schema !is Object ==> output_contract::violations(schema, v, path).len() == 0,
{
}

/// A text that stands for a value is held to the schema as that value, from the
/// top; one that stands for none is refused with the reason.
pub proof fn texts_are_held_to_the_schema(schema: JsonV, s: Seq<char>)
    ensures
        match json::parsed(s) {
            Ok(v) => output_contract::text_violations(schema, s) == output_contract::violations(
                schema,
                v,
                "$"@,
            ),
            Err(e) => output_contract::text_violations(schema, s) =~= seq![
                "response is not valid JSON: "@ + e,
            ],
        },
{
}

/// A failure shows under their names how often was tried, what is wrong, and what
/// was said last, and that it is one.
pub proof fn failures_show_their_parts(f: OutputContractFailureV)
    ensures
        ({
            let v = output_contract::failure_value(f);
            &&& v.field("attempts"@) == Some(JsonV::Int(f.attempts as int))
            &&& v.field("content"@) == Some(JsonV::Str(f.content))
            &&& v.field("ok"@) == Some(JsonV::Bool(false))
            &&& v.field("error"@) == Some(JsonV::Str("output_contract_violation"@))
            &&& v.field("validation_errors"@) matches Some(JsonV::Array(l))
            &&& l.len() == f.errors.len()
            &&& forall|i: int| 0 <= i < l.len() ==> #[trigger] l[i] == JsonV::Str(f.errors[i])
        }),
{
    reveal_strlit("attempts");
    reveal_strlit("content");
    reveal_strlit("error");
    reveal_strlit("ok");
    reveal_strlit("validation_errors");
    reveal_with_fuel(json::lookup, 6);
    assert("attempts"@.len() == 8 && "content"@.len() == 7 && "error"@.len() == 5 && "ok"@.len()
        == 2 && "validation_errors"@.len() == 17);
    let g = output_contract::failure_value(f)->Object_0;
    assert(g.drop_first()[0] == g[1]);
    assert(g.drop_first().drop_first()[0] == g[2]);
    assert(g.drop_first().drop_first().drop_first()[0] == g[3]);
    assert(g.drop_first().drop_first().drop_first().drop_first()[0] == g[4]);
    assert(output_contract::failure_value(f).field("validation_errors"@) == Some(
        ir_hash::texts_json(f.errors),
    ));
}

/// Putting the keys of a schema in order changes nothing else: plain values stay
/// what they are, and lists keep their items in their places.
pub proof fn ordering_keys_keeps_values(items: Seq<JsonV>, v: JsonV)
    ensures
        v !is Array && v !is Object ==> output_contract::canonical(v) == v,
        output_contract::canonical(JsonV::Array(items)) matches JsonV::Array(l) && l.len()
            == items.len() && forall|i: int|
            0 <= i < l.len() ==> #[trigger] l[i] == output_contract::canonical(items[i]),
        v is Object ==> output_contract::canonical(v) is Object && json::sorted(
            output_contract::canonical(v)->Object_0,
        ),
    decreases items.len(),
{
    if v is Object {
        ordered(output_contract::canonical_fields(v->Object_0));
    }
    if items.len() > 0 {
        let less = items.drop_last();
        ordering_keys_keeps_values(less, JsonV::Null);
        let l = output_contract::canonical_values(items);
        let k = output_contract::canonical_values(less);
        assert forall|i: int| 0 <= i < l.len() implies #[trigger] l[i]
            == output_contract::canonical(items[i]) by {
            if i < less.len() {
                assert(l[i] == k[i]);
                assert(less[i] == items[i]);
            }
        }
    }
}

proof fn ordered(f: Fields)
    ensures
        json::sorted(json::put_all(Seq::empty(), f)),
    decreases f.len(),
{
    if f.len() > 0 {
        ordered(f.drop_last());
        json::put_keeps_sorted(
            json::put_all(Seq::empty(), f.drop_last()),
            f.last().0,
            f.last().1,
        );
    }
}

/// An exponent moves the point: a fraction that does not end in zeros is whole with
/// it where it is no longer than the exponent, and with a negative one no number is
/// told to be whole.
pub proof fn exponents_move_the_point(m: Seq<char>, f: Seq<char>, k: nat, rest: Seq<char>)
    requires
        forall|i: int| 0 <= i < m.len() ==> #[trigger] m[i] != 'e' && m[i] != '.',
        forall|i: int| 0 <= i < f.len() ==> #[trigger] f[i] != 'e' && f[i] != '.',
        f.len() > 0,
        f.last() != '0',
    ensures
        output_contract::whole(m + seq!['.'] + f + seq!['e'] + text::decimal(k)) <==> f.len() <= k,
        output_contract::whole(m + seq!['e'] + text::decimal(k)),
        !output_contract::whole(m + seq!['e', '-'] + rest),
        !output_contract::whole(m + seq!['.'] + f + seq!['e', '-'] + rest),
{
    let p = m + seq!['.'] + f;
    crate::text_laws::digits_stand_for_numbers(k);
    crate::json_laws::decimals_are_digits(k);
    let a = p + seq!['e'] + text::decimal(k);
    nothing_before(a, 'e', 0, p.len() as int);
    assert(a.take(p.len() as int) =~= p);
    nothing_before(p, '.', 0, m.len() as int);
    assert(p.skip(m.len() as int + 1) =~= f);
    assert(output_contract::without_zeros(f) == f);
    assert(a.skip(p.len() as int + 1) =~= text::decimal(k));
    assert(text::decimal(k)[0] != '-');
    let b = m + seq!['e'] + text::decimal(k);
    nothing_before(b, 'e', 0, m.len() as int);
    assert(b.take(m.len() as int) =~= m);
    nothing_before(m, '.', 0, m.len() as int);
    assert(b.skip(m.len() as int + 1) =~= text::decimal(k));
    let c = m + seq!['e', '-'] + rest;
    nothing_before(c, 'e', 0, m.len() as int);
    assert(c.skip(m.len() as int + 1) =~= seq!['-'] + rest);
    let d = p + seq!['e', '-'] + rest;
    nothing_before(d, 'e', 0, p.len() as int);
    assert(d.skip(p.len() as int + 1) =~= seq!['-'] + rest);
}

/// Nothing else is taken for a failure: neither a value that is in order nor an error
/// of another kind.
pub proof fn only_failures_are_recognized(v: JsonV)
    ensures
        v.field("ok"@) != Some(JsonV::Bool(false)) ==> output_contract::recognized(v) is None,
        v.field("error"@) != Some(JsonV::Str("output_contract_violation"@))
            ==> output_contract::recognized(v) is None,
{
}

/// What is wrong with a value is told in this order: its kind, the values that are
/// allowed, what it lacks, and then what is wrong inside.
pub proof fn faults_are_told_in_order(s: Fields, v: JsonV, path: Seq<char>)
    ensures
        (output_contract::type_violations(s, v, path) + output_contract::enum_violations(s, v, path)
            + output_contract::required_violations(s, v, path)).is_prefix_of(
            output_contract::violations(JsonV::Object(s), v, path),
        ),
{
    let head = output_contract::type_violations(s, v, path) + output_contract::enum_violations(
        s,
        v,
        path,
    ) + output_contract::required_violations(s, v, path);
    let all = output_contract::violations(JsonV::Object(s), v, path);
    assert(all.subrange(0, head.len() as int) =~= head);
}

} // verus!
