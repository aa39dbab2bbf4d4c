//! Structured output: schemas that the final text of a run is held to.
//!
//! Schemas are understood as far as `type`, `required`, `properties`, `items`
//! and `enum` go; every other keyword is passed over.
use crate::digest;
use crate::digest::tagged_digest_of;
use crate::ir_hash;
use crate::ir_hash::{encode_texts, record5};
use crate::json;
use crate::json::{get_field, object_of, same_json, Fields, Json, JsonV};
use crate::json_laws;
use crate::op;
use crate::op::{join_texts, push_string};
use crate::text;
use crate::text::{debug_quoted, decimal_of, preview, same_text};
use vstd::prelude::*;

verus! {

/// How many repair turns are allowed where nothing else is said.
pub const DEFAULT_MAX_REPAIRS: usize = 2;

/// What the failure of all repairs is called.
pub const OUTPUT_CONTRACT_ERROR: &'static str = "output_contract_violation";

/// The event that names the schema of a run.
pub const OUTPUT_CONTRACT_EVENT: &'static str = "output_contract";

/// The event of an output that does not fit its schema.
pub const OUTPUT_VALIDATION_FAILED_EVENT: &'static str = "output_validation_failed";

/// How many errors an event lists at most.
pub const MAX_TRACE_ERRORS: usize = 8;

/// A text without the zeros at its end.
pub open spec fn without_zeros(s: Seq<char>) -> Seq<char>
    decreases s.len(),
{
    if s.len() > 0 && s.last() == '0' {
        without_zeros(s.drop_last())
    } else {
        s
    }
}

/// Whether the decimal notation of a number has no fractional part: no more
/// digits after the point, zeros at the end aside, than the exponent moves
/// the point by.
pub open spec fn whole(t: Seq<char>) -> bool {
    let e = text::first_at(t, 'e', 0);
    let m = t.take(e);
    let d = text::first_at(m, '.', 0);
    let fraction = if d < m.len() {
        without_zeros(m.skip(d + 1))
    } else {
        Seq::empty()
    };
    let exponent = if e < t.len() {
        t.skip(e + 1)
    } else {
        Seq::empty()
    };
    if exponent.len() > 0 && exponent[0] == '-' {
        false
    } else {
        fraction.len() <= text::number(exponent)
    }
}

fn find_char(s: &Vec<char>, c: char, n: usize) -> (r: usize)
    requires
        n <= s@.len(),
    ensures
        r == text::first_at(s@.take(n as int), c, 0),
        r <= n,
{
    let ghost t = s@.take(n as int);
    let mut i: usize = 0;
    while i < n
        invariant
            i <= n <= s@.len(),
            t == s@.take(n as int),
            text::first_at(t, c, 0) == text::first_at(t, c, i as int),
        decreases n - i,
    {
        if s[i] == c {
            return i;
        }
        i += 1;
    }
    i
}

/// Whether the digits from `from` on stand for at least `least`.
fn at_least(s: &Vec<char>, from: usize, least: usize) -> (r: bool)
    requires
        from <= s@.len(),
    ensures
        r == (least <= text::number(s@.skip(from as int))),
{
    let ghost t = s@.skip(from as int);
    let mut total: u128 = 0;
    let mut i: usize = from;
    assert(t.take(0) =~= Seq::empty());
    while i < s.len()
        invariant
            from <= i <= s@.len(),
            t == s@.skip(from as int),
            total == text::number(t.take(i - from)),
            total < least || total == 0,
        decreases s@.len() - i,
    {
        let c = s[i];
        proof {
            assert(t.take(i + 1 - from).drop_last() =~= t.take(i - from));
            assert(t.take(i + 1 - from).last() == c);
        }
        if '0' <= c && c <= '9' {
            total = 10 * total + (c as u32 - '0' as u32) as u128;
        }
        i += 1;
        if total >= least as u128 && total > 0 {
            proof {
                text::number_grows(t, i - from);
            }
            return true;
        }
    }
    assert(t.take(i - from) =~= t);
    total >= least as u128
}

/// Whether the decimal notation of a number has no fractional part.
pub fn is_whole(t: &str) -> (r: bool)
    ensures
        r == whole(t@),
{
    let s = text::chars_of(t);
    assert(s@.take(s@.len() as int) =~= s@);
    let e = find_char(&s, 'e', s.len());
    let d = find_char(&s, '.', e);
    let ghost m = s@.take(e as int);
    let mut last: usize = e;
    let fraction: usize = if d < e {
        let ghost digits = m.skip(d + 1);
        assert(digits.take(last - d - 1) =~= digits);
        while last > d + 1 && s[last - 1] == '0'
            invariant
                d < last <= e <= s@.len(),
                m == s@.take(e as int),
                digits == m.skip(d + 1),
                without_zeros(digits) == without_zeros(digits.take(last - d - 1)),
            decreases last,
        {
            assert(digits.take(last - d - 1).drop_last() =~= digits.take(last - d - 2));
            assert(digits.take(last - d - 1).last() == s@[last - 1]);
            last -= 1;
        }
        assert(last > d + 1 ==> digits.take(last - d - 1).last() == s@[last - 1]);
        last - d - 1
    } else {
        0
    };
    if e < s.len() && e + 1 < s.len() && s[e + 1] == '-' {
        assert(s@.skip(e + 1)[0] == '-');
        return false;
    }
    if e < s.len() {
        assert(e + 1 < s@.len() ==> s@.skip(e + 1)[0] == s@[e + 1]);
        at_least(&s, e + 1, fraction)
    } else {
        fraction == 0
    }
}

/// Whether a value is of a named type.  No value is of an unknown type.
pub open spec fn of_type(name: Seq<char>, v: JsonV) -> bool {
    if name == "object"@ {
        v is Object
    } else if name == "array"@ {
        v is Array
    } else if name == "string"@ {
        v is Str
    } else if name == "boolean"@ {
        v is Bool
    } else if name == "null"@ {
        v is Null
    } else if name == "number"@ {
        v is Int || v is Float
    } else if name == "integer"@ {
        match v {
            JsonV::Int(_) => true,
            JsonV::Float(t) => whole(t),
            _ => false,
        }
    } else {
        false
    }
}

fn type_matches(name: &str, v: &Json) -> (r: bool)
    ensures
        r == of_type(name@, v@),
{
    if same_text(name, "object") {
        matches!(v, Json::Object(_))
    } else if same_text(name, "array") {
        matches!(v, Json::Array(_))
    } else if same_text(name, "string") {
        matches!(v, Json::Str(_))
    } else if same_text(name, "boolean") {
        matches!(v, Json::Bool(_))
    } else if same_text(name, "null") {
        matches!(v, Json::Null)
    } else if same_text(name, "number") {
        matches!(v, Json::Int(_)) || matches!(v, Json::Float(_))
    } else if same_text(name, "integer") {
        match v {
            Json::Int(_) => true,
            Json::Float(t) => is_whole(t.as_str()),
            _ => false,
        }
    } else {
        false
    }
}

/// The type of a value.
pub open spec fn type_of(v: JsonV) -> Seq<char> {
    match v {
        JsonV::Null => "null"@,
        JsonV::Bool(_) => "boolean"@,
        JsonV::Int(_) => "number"@,
        JsonV::Float(_) => "number"@,
        JsonV::Str(_) => "string"@,
        JsonV::Array(_) => "array"@,
        JsonV::Object(_) => "object"@,
    }
}

fn kind_name(v: &Json) -> (r: &'static str)
    ensures
        r@ == type_of(v@),
{
    match v {
        Json::Null => "null",
        Json::Bool(_) => "boolean",
        Json::Int(_) => "number",
        Json::Float(_) => "number",
        Json::Str(_) => "string",
        Json::Array(_) => "array",
        Json::Object(_) => "object",
    }
}

/// The texts among some values.
pub open spec fn texts_among(items: Seq<JsonV>) -> Seq<Seq<char>>
    decreases items.len(),
{
    if items.len() == 0 {
        Seq::empty()
    } else {
        match items.last() {
            JsonV::Str(s) => texts_among(items.drop_last()).push(s),
            _ => texts_among(items.drop_last()),
        }
    }
}

fn texts_in(items: &Vec<Json>) -> (r: Vec<String>)
    ensures
        op::texts(r@) == texts_among(json::values(items@)),
{
    broadcast use json::group_json;

    let ghost all = json::values(items@);
    let mut out: Vec<String> = Vec::new();
    let mut i: usize = 0;
    assert(op::texts(out@) =~= texts_among(all.take(0)));
    while i < items.len()
        invariant
            i <= items@.len(),
            all == json::values(items@),
            op::texts(out@) == texts_among(all.take(i as int)),
        decreases items@.len() - i,
    {
        assert(all.take(i + 1).drop_last() =~= all.take(i as int));
        match &items[i] {
            Json::Str(s) => {
                let ghost before = out@;
                out.push(s.clone());
                assert(op::texts(out@) =~= op::texts(before).push(s@));
            },
            _ => {},
        }
        i += 1;
    }
    assert(all.take(i as int) =~= all);
    out
}

/// The types that a schema allows.
pub open spec fn allowed_types(s: Fields) -> Seq<Seq<char>> {
    match json::lookup(s, "type"@) {
        Some(JsonV::Str(name)) => seq![name],
        Some(JsonV::Array(names)) => texts_among(names),
        _ => Seq::empty(),
    }
}

/// What is wrong with the type of a value.
pub open spec fn type_violations(s: Fields, v: JsonV, path: Seq<char>) -> Seq<Seq<char>> {
    let allowed = allowed_types(s);
    if allowed.len() > 0 && forall|i: int| 0 <= i < allowed.len() ==> !of_type(
        #[trigger] allowed[i],
        v,
    ) {
        seq![path + ": expected type "@ + text::joined(allowed, " or "@) + ", got "@ + type_of(v)]
    } else {
        Seq::empty()
    }
}

/// Whether a value is one of a list.
pub open spec fn is_option(options: Seq<JsonV>, v: JsonV) -> bool {
    exists|i: int| 0 <= i < options.len() && json::same(#[trigger] options[i], v)
}

/// What is wrong with a value that should be one of a list.
pub open spec fn enum_violations(s: Fields, v: JsonV, path: Seq<char>) -> Seq<Seq<char>> {
    match json::lookup(s, "enum"@) {
        Some(JsonV::Array(options)) => if is_option(options, v) {
            Seq::empty()
        } else {
            seq![
                path + ": "@ + text::prefix(json::json_text(v), 80)
                    + " is not one of the allowed enum values"@,
            ]
        },
        _ => Seq::empty(),
    }
}

/// The required properties that an object lacks.
pub open spec fn missing(
    required: Seq<Seq<char>>,
    object: Fields,
    path: Seq<char>,
) -> Seq<Seq<char>>
    decreases required.len(),
{
    if required.len() == 0 {
        Seq::empty()
    } else {
        let rest = missing(required.drop_last(), object, path);
        if json::lookup(object, required.last()) is Some {
            rest
        } else {
            rest.push(path + ": missing required property "@ + text::quoted(required.last()))
        }
    }
}

/// What a value lacks of the properties that it must have.
pub open spec fn required_violations(s: Fields, v: JsonV, path: Seq<char>) -> Seq<Seq<char>> {
    match (v, json::lookup(s, "required"@)) {
        (JsonV::Object(object), Some(JsonV::Array(names))) => missing(
            texts_among(names),
            object,
            path,
        ),
        _ => Seq::empty(),
    }
}

/// A field is smaller than the object that holds it.
pub proof fn field_is_smaller(f: Fields, key: Seq<char>)
    ensures
        json::lookup(f, key) matches Some(v) ==> decreases_to!(f => v),
    decreases f.len(),
{
    if f.len() > 0 {
        if f[0].0 == key {
            assert(decreases_to!(f => f[0]));
            assert(decreases_to!(f[0] => f[0].1));
        } else {
            field_is_smaller(f.drop_first(), key);
            assert(decreases_to!(f => f.drop_first()));
        }
    }
}

/// Every way in which a value does not fit a schema, in the order of the
/// keywords, each with the path to the place.
pub open spec fn violations(schema: JsonV, v: JsonV, path: Seq<char>) -> Seq<Seq<char>>
    decreases schema, 0nat,
{
    match schema {
        JsonV::Object(s) => {
            proof {
                field_is_smaller(s, "properties"@);
                field_is_smaller(s, "items"@);
            }
            type_violations(s, v, path) + enum_violations(s, v, path) + required_violations(
                s,
                v,
                path,
            ) + (match (v, json::lookup(s, "properties"@)) {
                (JsonV::Object(object), Some(JsonV::Object(properties))) => property_violations(
                    properties,
                    object,
                    path,
                ),
                _ => Seq::empty(),
            }) + (match (v, json::lookup(s, "items"@)) {
                (JsonV::Array(items), Some(each)) => item_violations(each, items, path),
                _ => Seq::empty(),
            })
        },
        _ => Seq::empty(),
    }
}

/// Every way in which the properties of an object do not fit their schemas.
pub open spec fn property_violations(properties: Fields, object: Fields, path: Seq<char>) -> Seq<
    Seq<char>,
>
    decreases properties, 0nat,
{
    if properties.len() == 0 {
        Seq::empty()
    } else {
        let last = properties[properties.len() - 1];
        property_violations(properties.drop_last(), object, path) + (match json::lookup(
            object,
            last.0,
        ) {
            Some(child) => violations(last.1, child, path + "."@ + last.0),
            None => Seq::empty(),
        })
    }
}

/// Every way in which the items of an array do not fit their schema.
pub open spec fn item_violations(each: JsonV, items: Seq<JsonV>, path: Seq<char>) -> Seq<Seq<char>>
    decreases each, items.len() + 1,
{
    if items.len() == 0 {
        Seq::empty()
    } else {
        item_violations(each, items.drop_last(), path) + violations(
            each,
            items.last(),
            path + "["@ + text::decimal((items.len() - 1) as nat) + "]"@,
        )
    }
}

fn any_type(allowed: &Vec<String>, v: &Json) -> (r: bool)
    ensures
        r == exists|i: int|
            0 <= i < allowed@.len() && of_type(#[trigger] op::texts(allowed@)[i], v@),
{
    let ghost names = op::texts(allowed@);
    let mut i: usize = 0;
    while i < allowed.len()
        invariant
            i <= allowed@.len(),
            names == op::texts(allowed@),
            forall|j: int| 0 <= j < i ==> !of_type(#[trigger] names[j], v@),
        decreases allowed@.len() - i,
    {
        if type_matches(allowed[i].as_str(), v) {
            assert(of_type(names[i as int], v@));
            return true;
        }
        i += 1;
    }
    false
}

fn holds(options: &Vec<Json>, v: &Json) -> (r: bool)
    ensures
        r == is_option(json::values(options@), v@),
{
    let ghost all = json::values(options@);
    let mut i: usize = 0;
    while i < options.len()
        invariant
            i <= options@.len(),
            all == json::values(options@),
            forall|j: int| 0 <= j < i ==> !json::same(#[trigger] all[j], v@),
        decreases options@.len() - i,
    {
        if same_json(&options[i], v) {
            assert(json::same(all[i as int], v@));
            return true;
        }
        i += 1;
    }
    false
}

fn check_type(s: &Vec<(String, Json)>, v: &Json, path: &str, errors: &mut Vec<String>)
    ensures
        op::texts(final(errors)@) == op::texts(old(errors)@) + type_violations(
            json::fields(s@),
            v@,
            path@,
        ),
{
    broadcast use json::group_json;

    let mut allowed: Vec<String> = Vec::new();
    assert(op::texts(allowed@) =~= Seq::empty());
    match get_field(s, "type") {
        Some(Json::Str(name)) => {
            push_string(&mut allowed, name.clone());
            assert(op::texts(allowed@) =~= seq![name@]);
        },
        Some(Json::Array(names)) => {
            allowed = texts_in(names);
        },
        _ => {},
    }
    let ghost names = op::texts(allowed@);
    assert(names == allowed_types(json::fields(s@)));
    assert(op::texts(errors@) + Seq::<Seq<char>>::empty() =~= op::texts(errors@));
    if allowed.len() > 0 && !any_type(&allowed, v) {
        let mut message = path.to_owned();
        message.append(": expected type ");
        message.append(join_texts(&allowed, allowed.len(), " or ").as_str());
        message.append(", got ");
        message.append(kind_name(v));
        assert(names.take(names.len() as int) =~= names);
        let ghost before = op::texts(errors@);
        push_string(errors, message);
        assert(before.push(message@) =~= before + seq![message@]);
    }
}

fn check_enum(s: &Vec<(String, Json)>, v: &Json, path: &str, errors: &mut Vec<String>)
    ensures
        op::texts(final(errors)@) == op::texts(old(errors)@) + enum_violations(
            json::fields(s@),
            v@,
            path@,
        ),
{
    broadcast use json::group_json;

    assert(op::texts(errors@) + Seq::<Seq<char>>::empty() =~= op::texts(errors@));
    let ghost f = json::fields(s@);
    let found = match get_field(s, "enum") {
        Some(found) => found,
        None => {
            return ;
        },
    };
    match found {
        Json::Array(options) => {
            let ghost all = json::values(options@);
            assert(json::lookup(f, "enum"@) == Some(JsonV::Array(all)));
            if !holds(options, v) {
                let mut message = path.to_owned();
                message.append(": ");
                message.append(preview(v.to_text().as_str(), 80).as_str());
                message.append(" is not one of the allowed enum values");
                let ghost before = op::texts(errors@);
                push_string(errors, message);
                assert(before.push(message@) =~= before + seq![message@]);
                assert(enum_violations(f, v@, path@) == seq![message@]);
            } else {
                assert(enum_violations(f, v@, path@) == Seq::<Seq<char>>::empty());
            }
        },
        _ => {},
    }
}

fn check_required(s: &Vec<(String, Json)>, v: &Json, path: &str, errors: &mut Vec<String>)
    ensures
        op::texts(final(errors)@) == op::texts(old(errors)@) + required_violations(
            json::fields(s@),
            v@,
            path@,
        ),
{
    broadcast use json::group_json;

    let ghost start = op::texts(errors@);
    assert(start + Seq::<Seq<char>>::empty() =~= start);
    match (v, get_field(s, "required")) {
        (Json::Object(object), Some(Json::Array(list))) => {
            let names = texts_in(list);
            let ghost all = op::texts(names@);
            let ghost o = json::fields(object@);
            let mut i: usize = 0;
            assert(missing(all.take(0), o, path@) =~= Seq::empty());
            while i < names.len()
                invariant
                    i <= names@.len(),
                    all == op::texts(names@),
                    o == json::fields(object@),
                    op::texts(errors@) == start + missing(all.take(i as int), o, path@),
                decreases names@.len() - i,
            {
                assert(all.take(i + 1).drop_last() =~= all.take(i as int));
                let key = names[i].as_str();
                if get_field(object, key).is_none() {
                    let mut message = path.to_owned();
                    message.append(": missing required property ");
                    message.append(debug_quoted(key).as_str());
                    push_string(errors, message);
                }
                assert(op::texts(errors@) =~= start + missing(all.take(i + 1), o, path@));
                i += 1;
            }
            assert(all.take(i as int) =~= all);
        },
        _ => {},
    }
}

/// Collects every way in which a value does not fit a schema.
fn validate_at(schema: &Json, v: &Json, path: &str, errors: &mut Vec<String>)
    ensures
        op::texts(final(errors)@) == op::texts(old(errors)@) + violations(schema@, v@, path@),
    decreases schema@, 0nat,
{
    broadcast use json::group_json;

    let ghost start = op::texts(errors@);
    assert(start + Seq::<Seq<char>>::empty() =~= start);
    match schema {
        Json::Object(s) => {
            let ghost f = json::fields(s@);
            proof {
                field_is_smaller(f, "properties"@);
                field_is_smaller(f, "items"@);
                assert(decreases_to!(schema@ => schema@->Object_0));
            }
            check_type(s, v, path, errors);
            check_enum(s, v, path, errors);
            check_required(s, v, path, errors);
            let ghost own = type_violations(f, v@, path@) + enum_violations(f, v@, path@)
                + required_violations(f, v@, path@);
            assert(op::texts(errors@) =~= start + own);
            let ghost mut inner = Seq::<Seq<char>>::empty();
            match (v, get_field(s, "properties")) {
                (Json::Object(object), Some(Json::Object(properties))) => {
                    let ghost ps = json::fields(properties@);
                    let ghost o = json::fields(object@);
                    let ghost found = json::lookup(f, "properties"@)->0;
                    assert(found == JsonV::Object(ps));
                    assert(decreases_to!(found => found->Object_0));
                    proof {
                        inner = property_violations(ps, o, path@);
                    }
                    check_properties(properties, object, path, errors);
                },
                _ => {},
            }
            assert(op::texts(errors@) =~= start + (own + inner));
            let ghost mut items_part = Seq::<Seq<char>>::empty();
            match (v, get_field(s, "items")) {
                (Json::Array(items), Some(each)) => {
                    proof {
                        items_part = item_violations(each@, json::values(items@), path@);
                    }
                    check_items(each, items, path, errors);
                },
                _ => {},
            }
            assert(op::texts(errors@) =~= start + (own + inner + items_part));
        },
        _ => {},
    }
}

/// Collects every way in which properties do not fit their schemas.
fn check_properties(
    properties: &Vec<(String, Json)>,
    object: &Vec<(String, Json)>,
    path: &str,
    errors: &mut Vec<String>,
)
    ensures
        op::texts(final(errors)@) == op::texts(old(errors)@) + property_violations(
            json::fields(properties@),
            json::fields(object@),
            path@,
        ),
    decreases json::fields(properties@), 0nat,
{
    let ghost start = op::texts(errors@);
    let ghost ps = json::fields(properties@);
    let ghost o = json::fields(object@);
    let mut i: usize = 0;
    assert(start =~= start + property_violations(ps.take(0), o, path@));
    while i < properties.len()
        invariant
            i <= properties@.len(),
            ps == json::fields(properties@),
            o == json::fields(object@),
            op::texts(errors@) == start + property_violations(ps.take(i as int), o, path@),
        decreases properties@.len() - i,
    {
        assert(ps.take(i + 1).drop_last() =~= ps.take(i as int));
        let ghost done = property_violations(ps.take(i as int), o, path@);
        match get_field(object, properties[i].0.as_str()) {
            Some(child) => {
                let mut place = path.to_owned();
                place.append(".");
                place.append(properties[i].0.as_str());
                assert(decreases_to!(ps => ps[i as int]));
                assert(decreases_to!(ps[i as int] => ps[i as int].1));
                validate_at(&properties[i].1, child, place.as_str(), errors);
                assert(op::texts(errors@) =~= start + (done + violations(
                    ps[i as int].1,
                    child@,
                    place@,
                )));
            },
            None => {
                assert(done + Seq::<Seq<char>>::empty() =~= done);
            },
        }
        i += 1;
    }
    assert(ps.take(i as int) =~= ps);
}

/// Collects every way in which items do not fit their schema.
fn check_items(each: &Json, items: &Vec<Json>, path: &str, errors: &mut Vec<String>)
    ensures
        op::texts(final(errors)@) == op::texts(old(errors)@) + item_violations(
            each@,
            json::values(items@),
            path@,
        ),
    decreases each@, 1nat,
{
    let ghost start = op::texts(errors@);
    let ghost all = json::values(items@);
    let mut i: usize = 0;
    assert(start =~= start + item_violations(each@, all.take(0), path@));
    while i < items.len()
        invariant
            i <= items@.len(),
            all == json::values(items@),
            op::texts(errors@) == start + item_violations(each@, all.take(i as int), path@),
        decreases items@.len() - i,
    {
        assert(all.take(i + 1).drop_last() =~= all.take(i as int));
        let ghost done = item_violations(each@, all.take(i as int), path@);
        let mut place = path.to_owned();
        place.append("[");
        place.append(decimal_of(i as u128).as_str());
        place.append("]");
        validate_at(each, &items[i], place.as_str(), errors);
        assert(op::texts(errors@) =~= start + (done + violations(each@, all[i as int], place@)));
        i += 1;
    }
    assert(all.take(i as int) =~= all);
}

/// Every way in which a value does not fit a schema.  A schema that is no
/// object fits every value.
pub fn validate(schema: &Json, v: &Json) -> (r: Vec<String>)
    ensures
        op::texts(r@) == violations(schema@, v@, "$"@),
{
    let mut errors: Vec<String> = Vec::new();
    assert(op::texts(errors@) =~= Seq::empty());
    validate_at(schema, v, "$", &mut errors);
    assert(Seq::<Seq<char>>::empty() + violations(schema@, v@, "$"@) =~= violations(
        schema@,
        v@,
        "$"@,
    ));
    errors
}

/// A value with the keys of all its objects in order.
pub open spec fn canonical(v: JsonV) -> JsonV
    decreases v,
{
    match v {
        JsonV::Object(f) => json::object(canonical_fields(f)),
        JsonV::Array(items) => JsonV::Array(canonical_values(items)),
        _ => v,
    }
}

/// The fields of an object, each value in canonical form.
pub open spec fn canonical_fields(f: Fields) -> Fields
    decreases f,
{
    if f.len() == 0 {
        Seq::empty()
    } else {
        canonical_fields(f.drop_last()).push(
            (f[f.len() - 1].0, canonical(f[f.len() - 1].1)),
        )
    }
}

/// The items of an array, each in canonical form.
pub open spec fn canonical_values(items: Seq<JsonV>) -> Seq<JsonV>
    decreases items,
{
    if items.len() == 0 {
        Seq::empty()
    } else {
        canonical_values(items.drop_last()).push(canonical(items[items.len() - 1]))
    }
}

/// Puts the keys of all objects of a value in order.
fn canonical_json(v: &Json) -> (r: Json)
    ensures
        r@ == canonical(v@),
    decreases v,
{
    broadcast use json::group_json;

    match v {
        Json::Object(items) => {
            let ghost f = json::fields(items@);
            let mut out: Vec<(String, Json)> = Vec::new();
            let mut i: usize = 0;
            assert(json::fields(out@) =~= canonical_fields(f.take(0)));
            while i < items.len()
                invariant
                    i <= items@.len(),
                    decreases_to!(v => items@),
                    f == json::fields(items@),
                    json::fields(out@) == canonical_fields(f.take(i as int)),
                decreases items@.len() - i,
            {
                assert(f.take(i + 1).drop_last() =~= f.take(i as int));
                let value = canonical_json(&items[i].1);
                crate::codec::add_field(&mut out, items[i].0.as_str(), value);
                i += 1;
            }
            assert(f.take(i as int) =~= f);
            object_of(out)
        },
        Json::Array(items) => {
            let ghost f = json::values(items@);
            let mut out: Vec<Json> = Vec::new();
            let mut i: usize = 0;
            assert(json::values(out@) =~= canonical_values(f.take(0)));
            while i < items.len()
                invariant
                    i <= items@.len(),
                    decreases_to!(v => items@),
                    f == json::values(items@),
                    json::values(out@) == canonical_values(f.take(i as int)),
                decreases items@.len() - i,
            {
                assert(f.take(i + 1).drop_last() =~= f.take(i as int));
                let ghost before = out@;
                let value = canonical_json(&items[i]);
                out.push(value);
                assert(json::values(out@) == json::values(before).push(value@));
                i += 1;
            }
            assert(f.take(i as int) =~= f);
            Json::Array(out)
        },
        _ => v.clone(),
    }
}

/// A schema that the final text of a run is held to.
#[derive(Debug)]
pub struct OutputContract {
    pub schema: Json,
    /// How many repair turns are allowed.
    pub max_repairs: usize,
}

/// The hash of a schema: that of its canonical text.
pub open spec fn hash_of(schema: JsonV) -> Seq<char> {
    digest::tagged_digest(json::json_text(canonical(schema)))
}

/// What is wrong with a text that should be JSON and fit a schema.
pub open spec fn text_violations(schema: JsonV, s: Seq<char>) -> Seq<Seq<char>> {
    match json::parsed(s) {
        Ok(v) => violations(schema, v, "$"@),
        Err(e) => seq!["response is not valid JSON: "@ + e],
    }
}

impl OutputContract {
    pub fn new(schema: Json) -> (r: OutputContract)
        ensures
            r.schema == schema,
            r.max_repairs == DEFAULT_MAX_REPAIRS,
    {
        OutputContract { schema, max_repairs: DEFAULT_MAX_REPAIRS }
    }

    /// The hash of the schema, whatever the order of its keys.
    pub fn schema_hash(&self) -> (r: String)
        ensures
            r@ == hash_of(self.schema@),
    {
        tagged_digest_of(canonical_json(&self.schema).to_text().as_str())
    }

    /// What is wrong with a text, given how it parsed.
    pub fn validate_parsed(&self, parsed: Result<Json, String>) -> (r: Vec<String>)
        ensures
            match parsed {
                Ok(v) => op::texts(r@) == violations(self.schema@, v@, "$"@),
                Err(e) => op::texts(r@) == seq!["response is not valid JSON: "@ + e@],
            },
    {
        match parsed {
            Ok(v) => validate(&self.schema, &v),
            Err(e) => {
                let mut message = "response is not valid JSON: ".to_owned();
                message.append(e.as_str());
                let mut out: Vec<String> = Vec::new();
                out.push(message);
                assert(op::texts(out@) =~= seq![message@]);
                out
            },
        }
    }

    /// What is wrong with a final text; nothing where it is JSON that fits.
    pub fn validate_text(&self, s: &str) -> (r: Vec<String>)
        ensures
            op::texts(r@) == text_violations(self.schema@, s@),
    {
        self.validate_parsed(json::parse(s))
    }
}

/// A run whose repairs all failed.
#[derive(Debug)]
pub struct OutputContractFailure {
    /// How many outputs were tried.
    pub attempts: usize,
    /// What was wrong with the last one.
    pub errors: Vec<String>,
    pub content: String,
}

/// The model of a failure.
pub struct OutputContractFailureV {
    pub attempts: usize,
    pub errors: Seq<Seq<char>>,
    pub content: Seq<char>,
}

impl OutputContractFailure {
    pub open spec fn view(&self) -> OutputContractFailureV {
        OutputContractFailureV {
            attempts: self.attempts,
            errors: op::texts(self.errors@),
            content: self.content@,
        }
    }

    /// The failure as the value of the run.
    pub fn into_value(self) -> (r: Json)
        ensures
            r@ == failure_value(self@),
    {
        broadcast use json::group_json;

        record5(
            "attempts",
            Json::Int(self.attempts as i128),
            "content",
            Json::Str(self.content),
            "error",
            Json::text(OUTPUT_CONTRACT_ERROR),
            "ok",
            Json::Bool(false),
            "validation_errors",
            encode_texts(&self.errors),
        )
    }
}

/// The failure as the value of the run.
pub open spec fn failure_value(f: OutputContractFailureV) -> JsonV {
    JsonV::Object(
        seq![
            ("attempts"@, JsonV::Int(f.attempts as int)),
            ("content"@, JsonV::Str(f.content)),
            ("error"@, JsonV::Str("output_contract_violation"@)),
            ("ok"@, JsonV::Bool(false)),
            ("validation_errors"@, ir_hash::texts_json(f.errors)),
        ],
    )
}

/// The failure that a value stands for, if it does.
pub open spec fn recognized(v: JsonV) -> Option<OutputContractFailureV> {
    if v.field("ok"@) != Some(JsonV::Bool(false)) || v.text_field("error"@) != Some(
        "output_contract_violation"@,
    ) {
        None
    } else {
        Some(
            OutputContractFailureV {
                attempts: match v.field("attempts"@) {
                    Some(n) => match n.as_u64() {
                        Some(x) => (x as u64) as usize,
                        None => 0,
                    },
                    None => 0,
                },
                errors: match v.field("validation_errors"@) {
                    Some(JsonV::Array(items)) => texts_among(items),
                    _ => Seq::empty(),
                },
                content: match v.text_field("content"@) {
                    Some(s) => s,
                    None => Seq::empty(),
                },
            },
        )
    }
}

/// The failure that the value of a run stands for; nothing for an ordinary
/// response.
pub fn output_contract_failure(v: &Json) -> (r: Option<OutputContractFailure>)
    ensures
        match r {
            Some(f) => recognized(v@) == Some(f@),
            None => recognized(v@) is None,
        },
{
    broadcast use json::group_json;

    let refused = match v.get("ok") {
        Some(Json::Bool(b)) => !*b,
        _ => false,
    };
    let named = match v.get_str("error") {
        Some(s) => same_text(s, OUTPUT_CONTRACT_ERROR),
        None => false,
    };
    if !refused || !named {
        return None;
    }
    let attempts: usize = match v.get("attempts") {
        Some(n) => match n.as_u64() {
            Some(x) => x as usize,
            None => 0,
        },
        None => 0,
    };
    let mut errors: Vec<String> = Vec::new();
    assert(op::texts(errors@) =~= Seq::empty());
    match v.get("validation_errors") {
        Some(Json::Array(items)) => {
            errors = texts_in(items);
        },
        _ => {},
    }
    let content = match v.get_str("content") {
        Some(s) => s.to_owned(),
        None => String::new(),
    };
    assert(v@.text_field("content"@) is None ==> content@ =~= Seq::empty());
    Some(OutputContractFailure { attempts, errors, content })
}

proof fn texts_come_back(list: Seq<Seq<char>>)
    ensures
        texts_among(ir_hash::texts_json(list)->Array_0) == list,
    decreases list.len(),
{
    let items = ir_hash::texts_json(list)->Array_0;
    if list.len() == 0 {
        assert(texts_among(items) =~= list);
    } else {
        texts_come_back(list.drop_last());
        assert(items.drop_last() =~= ir_hash::texts_json(list.drop_last())->Array_0);
        assert(list.drop_last().push(list.last()) =~= list);
    }
}

/// A failure is recognized again in the value that it was made into.
pub proof fn failure_round_trips(f: OutputContractFailureV)
    ensures
        recognized(failure_value(f)) == Some(f),
{
    reveal_strlit("attempts");
    reveal_strlit("content");
    reveal_strlit("error");
    reveal_strlit("ok");
    reveal_strlit("validation_errors");
    reveal_with_fuel(json::lookup, 6);
    assert("attempts"@.len() == 8 && "content"@.len() == 7 && "error"@.len() == 5 && "ok"@.len()
        == 2 && "validation_errors"@.len() == 17);
    let g = failure_value(f)->Object_0;
    assert(g.drop_first()[0] == g[1]);
    assert(g.drop_first().drop_first()[0] == g[2]);
    assert(g.drop_first().drop_first().drop_first()[0] == g[3]);
    assert(g.drop_first().drop_first().drop_first().drop_first()[0] == g[4]);
    texts_come_back(f.errors);
}

/// What is called an effect error is no failed contract.
pub proof fn effect_errors_are_no_failures(error: Seq<char>)
    requires
        error != "output_contract_violation"@,
    ensures
        recognized(crate::interpreter::error_value(error)) is None,
{
    reveal_strlit("error");
    reveal_strlit("ok");
    reveal_with_fuel(json::lookup, 3);
}

/// The last value that a list of fields gives a key.
pub open spec fn last_value(f: Fields, key: Seq<char>) -> Option<JsonV>
    decreases f.len(),
{
    if f.len() == 0 {
        None
    } else if f.last().0 == key {
        Some(f.last().1)
    } else {
        last_value(f.drop_last(), key)
    }
}

proof fn object_holds_last_values(f: Fields, key: Seq<char>)
    ensures
        json::lookup(json::put_all(Seq::empty(), f), key) == last_value(f, key),
        json::sorted(json::put_all(Seq::empty(), f)),
    decreases f.len(),
{
    if f.len() > 0 {
        object_holds_last_values(f.drop_last(), key);
        let rest = json::put_all(Seq::empty(), f.drop_last());
        json::put_keeps_sorted(rest, f.last().0, f.last().1);
        if f.last().0 == key {
            json::put_then_lookup(rest, key, f.last().1);
        } else {
            json::put_keeps_others(rest, f.last().0, f.last().1, key);
        }
    }
}

proof fn absent_below(f: Fields, key: Seq<char>)
    requires
        forall|i: int| 0 <= i < f.len() ==> (#[trigger] f[i]).0 != key,
    ensures
        json::lookup(f, key) is None,
    decreases f.len(),
{
    if f.len() > 0 {
        assert(f[0].0 != key);
        assert forall|i: int| 0 <= i < f.drop_first().len() implies (
        #[trigger] f.drop_first()[i]).0 != key by {
            assert(f[i + 1].0 != key);
        }
        absent_below(f.drop_first(), key);
    }
}

proof fn head_is_least(f: Fields, key: Seq<char>)
    requires
        json::sorted(f),
        f.len() > 0,
        json::lookup(f, key) is Some,
    ensures
        key == f[0].0 || text::text_lt(f[0].0, key),
{
    if key != f[0].0 {
        if forall|i: int| 0 <= i < f.len() ==> (#[trigger] f[i]).0 != key {
            absent_below(f, key);
        } else {
            let i = choose|i: int| 0 <= i < f.len() && (#[trigger] f[i]).0 == key;
            assert(text::text_lt(f[0].0, f[i].0));
        }
    }
}

/// Ordered fields are known by what they hold.
pub proof fn sorted_fields_are_unique(f: Fields, g: Fields)
    requires
        json::sorted(f),
        json::sorted(g),
        forall|k: Seq<char>| #[trigger] json::lookup(f, k) == json::lookup(g, k),
    ensures
        f == g,
    decreases f.len(),
{
    if f.len() == 0 {
        if g.len() > 0 {
            assert(json::lookup(g, g[0].0) == Some(g[0].1));
            assert(json::lookup(f, g[0].0) == json::lookup(g, g[0].0));
        }
        assert(f =~= g);
    } else if g.len() == 0 {
        assert(json::lookup(f, f[0].0) == Some(f[0].1));
        assert(json::lookup(f, f[0].0) == json::lookup(g, f[0].0));
    } else {
        assert(json::lookup(f, f[0].0) == json::lookup(g, f[0].0));
        assert(json::lookup(f, g[0].0) == json::lookup(g, g[0].0));
        head_is_least(g, f[0].0);
        head_is_least(f, g[0].0);
        if f[0].0 != g[0].0 {
            text::text_lt_transitive(f[0].0, g[0].0, f[0].0);
            text::text_lt_irreflexive(f[0].0);
        }
        let a = f.drop_first();
        let b = g.drop_first();
        assert forall|i: int, j: int| 0 <= i < j < a.len() implies text::text_lt(
            #[trigger] a[i].0,
            #[trigger] a[j].0,
        ) by {
            assert(text::text_lt(f[i + 1].0, f[j + 1].0));
        }
        assert forall|i: int, j: int| 0 <= i < j < b.len() implies text::text_lt(
            #[trigger] b[i].0,
            #[trigger] b[j].0,
        ) by {
            assert(text::text_lt(g[i + 1].0, g[j + 1].0));
        }
        assert forall|k: Seq<char>| #[trigger] json::lookup(a, k) == json::lookup(b, k) by {
            assert(json::lookup(f, k) == json::lookup(g, k));
            if k == f[0].0 {
                assert forall|i: int| 0 <= i < a.len() implies (#[trigger] a[i]).0 != k by {
                    assert(text::text_lt(f[0].0, f[i + 1].0));
                    text::text_lt_irreflexive(k);
                }
                assert forall|i: int| 0 <= i < b.len() implies (#[trigger] b[i]).0 != k by {
                    assert(text::text_lt(g[0].0, g[i + 1].0));
                    text::text_lt_irreflexive(k);
                }
                absent_below(a, k);
                absent_below(b, k);
            }
        }
        sorted_fields_are_unique(a, b);
        assert(f =~= seq![f[0]] + a);
        assert(g =~= seq![g[0]] + b);
    }
}

proof fn canonical_keeps_last_values(f: Fields, key: Seq<char>)
    ensures
        last_value(canonical_fields(f), key) == match last_value(f, key) {
            Some(v) => Some(canonical(v)),
            None => None,
        },
    decreases f.len(),
{
    if f.len() > 0 {
        canonical_keeps_last_values(f.drop_last(), key);
        let c = canonical_fields(f);
        assert(c.drop_last() =~= canonical_fields(f.drop_last()));
    }
}

/// The hash of a schema does not depend on the order of its keys: two objects
/// that give every key the same value have the same hash.
pub proof fn schema_hash_ignores_key_order(f: Fields, g: Fields)
    requires
        forall|k: Seq<char>| #[trigger] last_value(f, k) == last_value(g, k),
    ensures
        canonical(JsonV::Object(f)) == canonical(JsonV::Object(g)),
        hash_of(JsonV::Object(f)) == hash_of(JsonV::Object(g)),
{
    let a = json::put_all(Seq::empty(), canonical_fields(f));
    let b = json::put_all(Seq::empty(), canonical_fields(g));
    object_holds_last_values(canonical_fields(f), Seq::empty());
    object_holds_last_values(canonical_fields(g), Seq::empty());
    assert forall|k: Seq<char>| #[trigger] json::lookup(a, k) == json::lookup(b, k) by {
        object_holds_last_values(canonical_fields(f), k);
        object_holds_last_values(canonical_fields(g), k);
        canonical_keeps_last_values(f, k);
        canonical_keeps_last_values(g, k);
        assert(last_value(f, k) == last_value(g, k));
    }
    sorted_fields_are_unique(a, b);
}

/// A changed schema is noticed: schemas that are more than reordered have
/// different texts under their hashes.
pub proof fn changed_schemas_are_noticed(a: JsonV, b: JsonV)
    requires
        json_laws::well_written(canonical(a)),
        json_laws::well_written(canonical(b)),
        canonical(a) != canonical(b),
    ensures
        json::json_text(canonical(a)) != json::json_text(canonical(b)),
{
    if json::json_text(canonical(a)) == json::json_text(canonical(b)) {
        json_laws::texts_tell_values_apart(canonical(a), canonical(b));
    }
}

/// A schema that names no keyword that is understood fits every value.
pub proof fn unknown_keywords_are_ignored(s: Fields, v: JsonV, path: Seq<char>)
    requires
        json::lookup(s, "type"@) is None,
        json::lookup(s, "required"@) is None,
        json::lookup(s, "properties"@) is None,
        json::lookup(s, "items"@) is None,
        json::lookup(s, "enum"@) is None,
    ensures
        violations(JsonV::Object(s), v, path) == Seq::<Seq<char>>::empty(),
{
    assert(violations(JsonV::Object(s), v, path) =~= Seq::empty());
}

} // verus!
