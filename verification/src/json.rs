//! JSON values: the data that programs, traces and messages are made of.
//!
//! A `Json` is modelled by its view, a `JsonV` over mathematical sequences.
//! Objects are sequences of fields in key order; `put` keeps that order, and
//! `lookup` reads a field.  Numbers with a fraction or an exponent are held by
//! their shortest decimal text.
use crate::text;
use crate::text::{decimal_int_of, precedes, same_text};
use vstd::prelude::*;

verus! {

/// A JSON value.
#[derive(Debug)]
pub enum Json {
    Null,
    Bool(bool),
    Int(i128),
    /// A number that is no integer literal, by its shortest decimal text.
    Float(String),
    Str(String),
    Array(Vec<Json>),
    /// Fields in ascending key order.
    Object(Vec<(String, Json)>),
}

/// The mathematical model of a JSON value.
pub enum JsonV {
    Null,
    Bool(bool),
    Int(int),
    Float(Seq<char>),
    Str(Seq<char>),
    Array(Seq<JsonV>),
    Object(Seq<(Seq<char>, JsonV)>),
}

/// The fields of a JSON object, as a model.
pub type Fields = Seq<(Seq<char>, JsonV)>;

impl Json {
    pub open spec fn view(&self) -> JsonV
        decreases self,
    {
        match self {
            Json::Null => JsonV::Null,
            Json::Bool(b) => JsonV::Bool(*b),
            Json::Int(n) => JsonV::Int(*n as int),
            Json::Float(t) => JsonV::Float(t@),
            Json::Str(s) => JsonV::Str(s@),
            Json::Array(items) => JsonV::Array(
                Seq::new(
                    items@.len(),
                    |i: int|
                        if 0 <= i < items@.len() {
                            items@[i].view()
                        } else {
                            JsonV::Null
                        },
                ),
            ),
            Json::Object(fields) => JsonV::Object(
                Seq::new(
                    fields@.len(),
                    |i: int|
                        (
                            fields@[i].0@,
                            if 0 <= i < fields@.len() {
                                fields@[i].1.view()
                            } else {
                                JsonV::Null
                            },
                        ),
                ),
            ),
        }
    }
}

/// The model of a list of values.
pub open spec fn values(items: Seq<Json>) -> Seq<JsonV> {
    Seq::new(items.len(), |i: int| items[i]@)
}

/// The model of a list of fields.
pub open spec fn fields(items: Seq<(String, Json)>) -> Fields {
    Seq::new(items.len(), |i: int| (items[i].0@, items[i].1@))
}

/// The view of an array and of an object, by their elements.
pub broadcast proof fn view_of_parts(v: Json)
    ensures
        #[trigger] v@ == match v {
            Json::Array(items) => JsonV::Array(values(items@)),
            Json::Object(items) => JsonV::Object(fields(items@)),
            _ => v@,
        },
{
    match v {
        Json::Array(items) => {
            assert(v@->Array_0 =~= values(items@));
        },
        Json::Object(items) => {
            assert(v@->Object_0 =~= fields(items@));
        },
        _ => {},
    }
}

/// The model of a list that grows by one value.
pub broadcast proof fn values_push(items: Seq<Json>, v: Json)
    ensures
        #[trigger] values(items.push(v)) == values(items).push(v@),
{
    assert(values(items.push(v)) =~= values(items).push(v@));
}

/// The model of a list that grows by one field.
pub broadcast proof fn fields_push(items: Seq<(String, Json)>, f: (String, Json))
    ensures
        #[trigger] fields(items.push(f)) == fields(items).push((f.0@, f.1@)),
{
    assert(fields(items.push(f)) =~= fields(items).push((f.0@, f.1@)));
}

/// How the models of values and lists of values compose.
pub broadcast group group_json {
    view_of_parts,
    values_push,
    fields_push,
}

/// The value of the first field named `key`.
pub open spec fn lookup(f: Fields, key: Seq<char>) -> Option<JsonV>
    decreases f.len(),
{
    if f.len() == 0 {
        None
    } else if f[0].0 == key {
        Some(f[0].1)
    } else {
        lookup(f.drop_first(), key)
    }
}

/// The fields with `key` set to `value`: an equal key is overwritten, a new
/// one is placed before the first greater key.
pub open spec fn put(f: Fields, key: Seq<char>, value: JsonV) -> Fields
    decreases f.len(),
{
    if f.len() == 0 {
        seq![(key, value)]
    } else if f[0].0 == key {
        seq![(key, value)] + f.drop_first()
    } else if text::text_lt(key, f[0].0) {
        seq![(key, value)] + f
    } else {
        seq![f[0]] + put(f.drop_first(), key, value)
    }
}

/// Keys in strictly ascending order.
pub open spec fn sorted(f: Fields) -> bool {
    forall|i: int, j: int| 0 <= i < j < f.len() ==> text::text_lt(
        #[trigger] f[i].0,
        #[trigger] f[j].0,
    )
}

/// The fields that result from setting each listed field in turn.
pub open spec fn put_all(f: Fields, more: Fields) -> Fields
    decreases more.len(),
{
    if more.len() == 0 {
        f
    } else {
        put(put_all(f, more.drop_last()), more.last().0, more.last().1)
    }
}

/// The object with the listed fields.
pub open spec fn object(f: Fields) -> JsonV {
    JsonV::Object(put_all(Seq::empty(), f))
}

/// A field that was set is read back.
pub proof fn put_then_lookup(f: Fields, key: Seq<char>, value: JsonV)
    ensures
        lookup(put(f, key, value), key) == Some(value),
    decreases f.len(),
{
    if f.len() > 0 && f[0].0 != key && !text::text_lt(key, f[0].0) {
        put_then_lookup(f.drop_first(), key, value);
        assert((seq![f[0]] + put(f.drop_first(), key, value)).drop_first() =~= put(
            f.drop_first(),
            key,
            value,
        ));
    }
}

/// Setting a field leaves every other field as it was.
pub proof fn put_keeps_others(f: Fields, key: Seq<char>, value: JsonV, other: Seq<char>)
    requires
        other != key,
    ensures
        lookup(put(f, key, value), other) == lookup(f, other),
    decreases f.len(),
{
    if f.len() == 0 {
        assert(seq![(key, value)].drop_first() =~= f);
        assert(lookup(f, other) is None);
    } else if f[0].0 == key {
        assert((seq![(key, value)] + f.drop_first()).drop_first() =~= f.drop_first());
    } else if text::text_lt(key, f[0].0) {
        assert((seq![(key, value)] + f).drop_first() =~= f);
    } else {
        put_keeps_others(f.drop_first(), key, value, other);
        assert((seq![f[0]] + put(f.drop_first(), key, value)).drop_first() =~= put(
            f.drop_first(),
            key,
            value,
        ));
    }
}

/// Setting a field keeps the keys in strictly ascending order.
pub proof fn put_keeps_sorted(f: Fields, key: Seq<char>, value: JsonV)
    requires
        sorted(f),
    ensures
        sorted(put(f, key, value)),
        forall|k: Seq<char>|
            #![trigger text::text_lt(k, key)]
            text::text_lt(
                k,
                key,
            ) && (forall|i: int| 0 <= i < f.len() ==> text::text_lt(k, #[trigger] f[i].0))
                ==> forall|i: int|
                0 <= i < put(f, key, value).len() ==> text::text_lt(
                    k,
                    #[trigger] put(f, key, value)[i].0,
                ),
    decreases f.len(),
{
    if f.len() > 0 {
        let rest = f.drop_first();
        assert(forall|i: int| 0 <= i < rest.len() ==> rest[i] == f[i + 1]);
        assert(sorted(rest));
        if f[0].0 == key {
        } else if text::text_lt(key, f[0].0) {
            let p = put(f, key, value);
            assert forall|i: int, j: int| 0 <= i < j < p.len() implies text::text_lt(
                #[trigger] p[i].0,
                #[trigger] p[j].0,
            ) by {
                if i == 0 && j > 1 {
                    assert(p[1] == f[0] && p[j] == f[j - 1]);
                    text::text_lt_transitive(key, f[0].0, f[j - 1].0);
                }
            }
        } else {
            text::text_lt_total(key, f[0].0);
            put_keeps_sorted(rest, key, value);
            let p = put(f, key, value);
            let q = put(rest, key, value);
            assert(forall|i: int| 1 <= i < p.len() ==> p[i] == q[i - 1]);
            assert(forall|i: int| 0 <= i < rest.len() ==> text::text_lt(
                f[0].0,
                #[trigger] rest[i].0,
            ));
            assert(text::text_lt(f[0].0, key));
            assert(forall|i: int| 0 <= i < q.len() ==> text::text_lt(f[0].0, #[trigger] q[i].0));
            assert forall|k: Seq<char>|
                #![trigger text::text_lt(k, key)]
                text::text_lt(k, key) && (forall|i: int|
                    0 <= i < f.len() ==> text::text_lt(
                        k,
                        #[trigger] f[i].0,
                    )) implies (forall|i: int|
                0 <= i < p.len() ==> text::text_lt(k, #[trigger] p[i].0)) by {
                assert(forall|i: int| 0 <= i < rest.len() ==> text::text_lt(
                    k,
                    #[trigger] rest[i].0,
                ));
            }
        }
    }
}

impl JsonV {
    /// The field `key` of an object.
    pub open spec fn field(self, key: Seq<char>) -> Option<JsonV> {
        match self {
            JsonV::Object(f) => lookup(f, key),
            _ => None,
        }
    }

    /// The element `index` of an array.
    pub open spec fn item(self, index: int) -> Option<JsonV> {
        match self {
            JsonV::Array(items) => if 0 <= index < items.len() {
                Some(items[index])
            } else {
                None
            },
            _ => None,
        }
    }

    pub open spec fn as_text(self) -> Option<Seq<char>> {
        match self {
            JsonV::Str(s) => Some(s),
            _ => None,
        }
    }

    pub open spec fn as_bool(self) -> Option<bool> {
        match self {
            JsonV::Bool(b) => Some(b),
            _ => None,
        }
    }

    pub open spec fn as_items(self) -> Option<Seq<JsonV>> {
        match self {
            JsonV::Array(items) => Some(items),
            _ => None,
        }
    }

    /// An integer in the range of `i64`.
    pub open spec fn as_i64(self) -> Option<int> {
        match self {
            JsonV::Int(n) => if i64::MIN <= n <= i64::MAX {
                Some(n)
            } else {
                None
            },
            _ => None,
        }
    }

    /// An integer in the range of `u64`.
    pub open spec fn as_u64(self) -> Option<int> {
        match self {
            JsonV::Int(n) => if 0 <= n <= u64::MAX {
                Some(n)
            } else {
                None
            },
            _ => None,
        }
    }

    /// The text of the field `key`, where it is a string.
    pub open spec fn text_field(self, key: Seq<char>) -> Option<Seq<char>> {
        match self.field(key) {
            Some(v) => v.as_text(),
            None => None,
        }
    }
}

/// The two texts of a zero that carries a fraction.
pub open spec fn float_zero(t: Seq<char>) -> bool {
    t == "0.0"@ || t == "-0.0"@
}

/// Equality of JSON values: by structure, with the two signed zeros equal.
pub open spec fn same(a: JsonV, b: JsonV) -> bool
    decreases a,
{
    match (a, b) {
        (JsonV::Null, JsonV::Null) => true,
        (JsonV::Bool(x), JsonV::Bool(y)) => x == y,
        (JsonV::Int(x), JsonV::Int(y)) => x == y,
        (JsonV::Float(x), JsonV::Float(y)) => x == y || (float_zero(x) && float_zero(y)),
        (JsonV::Str(x), JsonV::Str(y)) => x == y,
        (JsonV::Array(x), JsonV::Array(y)) => {
            &&& x.len() == y.len()
            &&& forall|i: int| 0 <= i < x.len() ==> same(#[trigger] x[i], y[i])
        },
        (JsonV::Object(x), JsonV::Object(y)) => {
            &&& x.len() == y.len()
            &&& forall|i: int|
                0 <= i < x.len() ==> (#[trigger] x[i]).0 == y[i].0 && same(x[i].1, y[i].1)
        },
        _ => false,
    }
}

/// Every value equals itself.
pub proof fn same_reflexive(a: JsonV)
    ensures
        same(a, a),
    decreases a,
{
    match a {
        JsonV::Array(x) => {
            assert forall|i: int| 0 <= i < x.len() implies same(#[trigger] x[i], x[i]) by {
                same_reflexive(x[i]);
            }
        },
        JsonV::Object(x) => {
            assert forall|i: int| 0 <= i < x.len() implies same((#[trigger] x[i]).1, x[i].1) by {
                same_reflexive(x[i].1);
            }
        },
        _ => {},
    }
}

/// The lower-case hexadecimal digit of a number below sixteen.
pub open spec fn hex_digit(n: nat) -> char {
    if n < 10 {
        (48 + n) as char
    } else {
        (87 + n) as char
    }
}

/// One character inside a JSON string.
pub open spec fn escaped(c: char) -> Seq<char> {
    if c == '"' {
        seq!['\\', '"']
    } else if c == '\\' {
        seq!['\\', '\\']
    } else if c == '\x08' {
        seq!['\\', 'b']
    } else if c == '\x0c' {
        seq!['\\', 'f']
    } else if c == '\n' {
        seq!['\\', 'n']
    } else if c == '\r' {
        seq!['\\', 'r']
    } else if c == '\t' {
        seq!['\\', 't']
    } else if (c as u32) < 32 {
        seq!['\\', 'u', '0', '0', hex_digit((c as nat) / 16), hex_digit((c as nat) % 16)]
    } else {
        seq![c]
    }
}

/// The inside of a JSON string.
pub open spec fn escaped_text(s: Seq<char>) -> Seq<char>
    decreases s.len(),
{
    if s.len() == 0 {
        Seq::empty()
    } else {
        escaped_text(s.drop_last()) + escaped(s.last())
    }
}

/// A text as a JSON string literal.
pub open spec fn string_literal(s: Seq<char>) -> Seq<char> {
    seq!['"'] + escaped_text(s) + seq!['"']
}

/// The compact JSON text of a value, fields in the order in which they stand.
pub open spec fn json_text(v: JsonV) -> Seq<char>
    decreases v,
{
    match v {
        JsonV::Null => "null"@,
        JsonV::Bool(b) => if b {
            "true"@
        } else {
            "false"@
        },
        JsonV::Int(n) => text::decimal_int(n),
        JsonV::Float(t) => t,
        JsonV::Str(s) => string_literal(s),
        JsonV::Array(items) => seq!['['] + items_text(items) + seq![']'],
        JsonV::Object(f) => seq!['{'] + fields_text(f) + seq!['}'],
    }
}

/// The elements of an array, separated by commas.
pub open spec fn items_text(items: Seq<JsonV>) -> Seq<char>
    decreases items,
{
    if items.len() == 0 {
        Seq::empty()
    } else {
        let before = items_text(items.drop_last());
        let separated = if items.len() == 1 {
            before
        } else {
            before.push(',')
        };
        separated + json_text(items[items.len() - 1])
    }
}

/// The fields of an object, separated by commas.
pub open spec fn fields_text(f: Fields) -> Seq<char>
    decreases f,
{
    if f.len() == 0 {
        Seq::empty()
    } else {
        let before = fields_text(f.drop_last());
        let separated = if f.len() == 1 {
            before
        } else {
            before.push(',')
        };
        separated + string_literal(f[f.len() - 1].0).push(':') + json_text(f[f.len() - 1].1)
    }
}

impl Clone for Json {
    fn clone(&self) -> (r: Self)
        ensures
            r@ == self@,
        decreases self,
    {
        broadcast use group_json;

        match self {
            Json::Null => Json::Null,
            Json::Bool(b) => Json::Bool(*b),
            Json::Int(n) => Json::Int(*n),
            Json::Float(t) => Json::Float(t.clone()),
            Json::Str(s) => Json::Str(s.clone()),
            Json::Array(items) => {
                let mut out: Vec<Json> = Vec::new();
                let mut i: usize = 0;
                while i < items.len()
                    invariant
                        i <= items@.len(),
                        decreases_to!(self => items@),
                        values(out@) == values(items@).take(i as int),
                    decreases items@.len() - i,
                {
                    let item = items[i].clone();
                    let ghost before = out@;
                    out.push(item);
                    assert(values(out@) == values(before).push(item@));
                    i += 1;
                    assert(values(out@) =~= values(items@).take(i as int));
                }
                assert(values(items@).take(i as int) =~= values(items@));
                Json::Array(out)
            },
            Json::Object(items) => {
                let mut out: Vec<(String, Json)> = Vec::new();
                let mut i: usize = 0;
                while i < items.len()
                    invariant
                        i <= items@.len(),
                        decreases_to!(self => items@),
                        fields(out@) == fields(items@).take(i as int),
                    decreases items@.len() - i,
                {
                    let item = (items[i].0.clone(), items[i].1.clone());
                    let ghost before = out@;
                    out.push(item);
                    assert(fields(out@) == fields(before).push((item.0@, item.1@)));
                    i += 1;
                    assert(fields(out@) =~= fields(items@).take(i as int));
                }
                assert(fields(items@).take(i as int) =~= fields(items@));
                Json::Object(out)
            },
        }
    }
}

/// A copy of a list of values.
pub fn copy_values(items: &Vec<Json>) -> (r: Vec<Json>)
    ensures
        values(r@) == values(items@),
{
    broadcast use group_json;

    let mut out: Vec<Json> = Vec::new();
    let mut i: usize = 0;
    while i < items.len()
        invariant
            i <= items@.len(),
            values(out@) == values(items@).take(i as int),
        decreases items@.len() - i,
    {
        let item = items[i].clone();
        let ghost before = out@;
        out.push(item);
        assert(values(out@) == values(before).push(item@));
        i += 1;
        assert(values(out@) =~= values(items@).take(i as int));
    }
    assert(values(items@).take(i as int) =~= values(items@));
    out
}

/// A copy of a list of fields.
pub fn copy_fields(items: &Vec<(String, Json)>) -> (r: Vec<(String, Json)>)
    ensures
        fields(r@) == fields(items@),
{
    broadcast use group_json;

    let mut out: Vec<(String, Json)> = Vec::new();
    let mut i: usize = 0;
    while i < items.len()
        invariant
            i <= items@.len(),
            fields(out@) == fields(items@).take(i as int),
        decreases items@.len() - i,
    {
        let item = (items[i].0.clone(), items[i].1.clone());
        let ghost before = out@;
        out.push(item);
        assert(fields(out@) == fields(before).push((item.0@, item.1@)));
        i += 1;
        assert(fields(out@) =~= fields(items@).take(i as int));
    }
    assert(fields(items@).take(i as int) =~= fields(items@));
    out
}

/// Reads the first field named `key`.
pub fn get_field<'a>(items: &'a Vec<(String, Json)>, key: &str) -> (r: Option<&'a Json>)
    ensures
        match r {
            Some(v) => lookup(fields(items@), key@) == Some(v@),
            None => lookup(fields(items@), key@) is None,
        },
{
    let mut i: usize = 0;
    assert(fields(items@).skip(0) =~= fields(items@));
    while i < items.len()
        invariant
            i <= items@.len(),
            lookup(fields(items@), key@) == lookup(fields(items@).skip(i as int), key@),
        decreases items@.len() - i,
    {
        if same_text(items[i].0.as_str(), key) {
            return Some(&items[i].1);
        }
        assert(fields(items@).skip(i as int).drop_first() =~= fields(items@).skip(i + 1));
        i += 1;
    }
    None
}

/// Sets a field, keeping ascending key order.
pub fn put_field(items: &mut Vec<(String, Json)>, key: String, value: Json)
    ensures
        fields(final(items)@) == put(fields(old(items)@), key@, value@),
{
    let ghost f = fields(items@);
    let mut i: usize = 0;
    assert(f.skip(0) =~= f);
    assert(f.take(0) + put(f.skip(0), key@, value@) =~= put(f, key@, value@));
    while i < items.len()
        invariant
            i <= items@.len(),
            items@ == old(items)@,
            f == fields(items@),
            put(f, key@, value@) == f.take(i as int) + put(f.skip(i as int), key@, value@),
        decreases items@.len() - i,
    {
        let ghost rest = f.skip(i as int);
        assert(rest.drop_first() =~= f.skip(i + 1));
        if items[i].0 == key {
            items.set(i, (key, value));
            assert(fields(items@) =~= f.take(i as int) + put(rest, key@, value@));
            return;
        }
        if precedes(key.as_str(), items[i].0.as_str()) {
            items.insert(i, (key, value));
            assert(fields(items@) =~= f.take(i as int) + put(rest, key@, value@));
            return;
        }
        assert(f.take(i + 1) + put(f.skip(i + 1), key@, value@) =~= f.take(i as int) + put(
            rest,
            key@,
            value@,
        ));
        i += 1;
    }
    items.push((key, value));
    assert(fields(items@) =~= f.take(i as int) + put(f.skip(i as int), key@, value@));
}

/// The object with the listed fields.
pub fn object_of(list: Vec<(String, Json)>) -> (r: Json)
    ensures
        r@ == object(fields(list@)),
{
    broadcast use group_json;

    let mut out: Vec<(String, Json)> = Vec::new();
    let mut i: usize = 0;
    assert(fields(list@).take(0) =~= Seq::empty());
    assert(fields(out@) =~= Seq::empty());
    while i < list.len()
        invariant
            i <= list@.len(),
            fields(out@) == put_all(Seq::empty(), fields(list@).take(i as int)),
        decreases list@.len() - i,
    {
        put_field(&mut out, list[i].0.clone(), list[i].1.clone());
        assert(fields(list@).take(i + 1).drop_last() =~= fields(list@).take(i as int));
        i += 1;
    }
    assert(fields(list@).take(i as int) =~= fields(list@));
    Json::Object(out)
}

impl Json {
    /// A string value.
    pub fn text(s: &str) -> (r: Json)
        ensures
            r@ == JsonV::Str(s@),
    {
        Json::Str(s.to_owned())
    }

    /// The field `key` of an object.
    pub fn get(&self, key: &str) -> (r: Option<&Json>)
        ensures
            match r {
                Some(v) => self@.field(key@) == Some(v@),
                None => self@.field(key@) is None,
            },
    {
        broadcast use group_json;

        match self {
            Json::Object(items) => get_field(items, key),
            _ => None,
        }
    }

    /// The element `index` of an array.
    pub fn at(&self, index: usize) -> (r: Option<&Json>)
        ensures
            match r {
                Some(v) => self@.item(index as int) == Some(v@),
                None => self@.item(index as int) is None,
            },
    {
        broadcast use group_json;

        match self {
            Json::Array(items) => if index < items.len() {
                Some(&items[index])
            } else {
                None
            },
            _ => None,
        }
    }

    pub fn as_str(&self) -> (r: Option<&str>)
        ensures
            match r {
                Some(s) => self@.as_text() == Some(s@),
                None => self@.as_text() is None,
            },
    {
        match self {
            Json::Str(s) => Some(s.as_str()),
            _ => None,
        }
    }

    pub fn as_bool(&self) -> (r: Option<bool>)
        ensures
            r == self@.as_bool(),
    {
        match self {
            Json::Bool(b) => Some(*b),
            _ => None,
        }
    }

    pub fn as_array(&self) -> (r: Option<&Vec<Json>>)
        ensures
            match r {
                Some(items) => self@.as_items() == Some(values(items@)),
                None => self@.as_items() is None,
            },
    {
        broadcast use group_json;

        match self {
            Json::Array(items) => Some(items),
            _ => None,
        }
    }

    pub fn as_i64(&self) -> (r: Option<i64>)
        ensures
            match r {
                Some(n) => self@.as_i64() == Some(n as int),
                None => self@.as_i64() is None,
            },
    {
        match self {
            Json::Int(n) => if *n >= i64::MIN as i128 && *n <= i64::MAX as i128 {
                Some(*n as i64)
            } else {
                None
            },
            _ => None,
        }
    }

    pub fn as_u64(&self) -> (r: Option<u64>)
        ensures
            match r {
                Some(n) => self@.as_u64() == Some(n as int),
                None => self@.as_u64() is None,
            },
    {
        match self {
            Json::Int(n) => if *n >= 0 && *n <= u64::MAX as i128 {
                Some(*n as u64)
            } else {
                None
            },
            _ => None,
        }
    }

    /// The text of the field `key`, where it is a string.
    pub fn get_str(&self, key: &str) -> (r: Option<&str>)
        ensures
            match r {
                Some(s) => self@.text_field(key@) == Some(s@),
                None => self@.text_field(key@) is None,
            },
    {
        match self.get(key) {
            Some(v) => v.as_str(),
            None => None,
        }
    }
}

/// Whether a text is one of the two zeros that carry a fraction.
fn is_float_zero(t: &str) -> (r: bool)
    ensures
        r == float_zero(t@),
{
    same_text(t, "0.0") || same_text(t, "-0.0")
}

/// Whether two values are equal.
pub fn same_json(a: &Json, b: &Json) -> (r: bool)
    ensures
        r == same(a@, b@),
    decreases a,
{
    broadcast use group_json;

    match (a, b) {
        (Json::Null, Json::Null) => true,
        (Json::Bool(x), Json::Bool(y)) => *x == *y,
        (Json::Int(x), Json::Int(y)) => *x == *y,
        (Json::Float(x), Json::Float(y)) => *x == *y || (is_float_zero(x.as_str())
            && is_float_zero(y.as_str())),
        (Json::Str(x), Json::Str(y)) => *x == *y,
        (Json::Array(x), Json::Array(y)) => {
            if x.len() != y.len() {
                return false;
            }
            let ghost xs = values(x@);
            let ghost ys = values(y@);
            let mut i: usize = 0;
            while i < x.len()
                invariant
                    i <= x@.len(),
                    x@.len() == y@.len(),
                    a == Json::Array(*x),
                    a@ == JsonV::Array(xs),
                    b@ == JsonV::Array(ys),
                    xs == values(x@),
                    ys == values(y@),
                    forall|j: int| 0 <= j < i ==> same(#[trigger] xs[j], ys[j]),
                decreases x@.len() - i,
            {
                if !same_json(&x[i], &y[i]) {
                    assert(!same(xs[i as int], ys[i as int]));
                    return false;
                }
                i += 1;
            }
            true
        },
        (Json::Object(x), Json::Object(y)) => {
            if x.len() != y.len() {
                return false;
            }
            let ghost xs = fields(x@);
            let ghost ys = fields(y@);
            let mut i: usize = 0;
            while i < x.len()
                invariant
                    i <= x@.len(),
                    x@.len() == y@.len(),
                    a == Json::Object(*x),
                    a@ == JsonV::Object(xs),
                    b@ == JsonV::Object(ys),
                    xs == fields(x@),
                    ys == fields(y@),
                    forall|j: int|
                        0 <= j < i ==> (#[trigger] xs[j]).0 == ys[j].0 && same(xs[j].1, ys[j].1),
                decreases x@.len() - i,
            {
                if x[i].0 != y[i].0 || !same_json(&x[i].1, &y[i].1) {
                    assert(xs[i as int].0 != ys[i as int].0 || !same(
                        xs[i as int].1,
                        ys[i as int].1,
                    ));
                    return false;
                }
                i += 1;
            }
            true
        },
        _ => false,
    }
}

/// Calls `serde_json::to_string` on a text: a quoted literal in which quotes,
/// backslashes and control characters are escaped.
#[verifier::external_body]
pub(crate) fn json_string_literal(s: &str) -> (r: String)
    ensures
        r@ == string_literal(s@),
{
    serde_json::to_string(s).expect("a text always serializes")
}

impl Json {
    /// Appends the compact JSON text of the value.
    pub fn write_text(&self, out: &mut String)
        ensures
            final(out)@ == old(out)@ + json_text(self@),
        decreases self,
    {
        broadcast use group_json;

        let ghost start = out@;
        match self {
            Json::Null => {
                out.append("null");
            },
            Json::Bool(b) => {
                if *b {
                    out.append("true");
                } else {
                    out.append("false");
                }
            },
            Json::Int(n) => {
                out.append(decimal_int_of(*n).as_str());
            },
            Json::Float(t) => {
                out.append(t.as_str());
            },
            Json::Str(s) => {
                out.append(json_string_literal(s.as_str()).as_str());
            },
            Json::Array(items) => {
                out.push('[');
                let ghost vs = values(items@);
                let mut i: usize = 0;
                assert(vs.take(0) =~= Seq::empty());
                assert(out@ =~= start + (seq!['['] + items_text(vs.take(0))));
                while i < items.len()
                    invariant
                        i <= items@.len(),
                        decreases_to!(self => items@),
                        vs == values(items@),
                        out@ == start + (seq!['['] + items_text(vs.take(i as int))),
                    decreases items@.len() - i,
                {
                    let ghost before = out@;
                    if i > 0 {
                        out.push(',');
                    }
                    items[i].write_text(out);
                    assert(vs.take(i + 1).drop_last() =~= vs.take(i as int));
                    assert(out@ =~= start + (seq!['['] + items_text(vs.take(i + 1))));
                    i += 1;
                }
                assert(vs.take(i as int) =~= vs);
                out.push(']');
                assert(out@ =~= start + json_text(self@));
            },
            Json::Object(items) => {
                out.push('{');
                let ghost fs = fields(items@);
                let mut i: usize = 0;
                assert(fs.take(0) =~= Seq::empty());
                assert(out@ =~= start + (seq!['{'] + fields_text(fs.take(0))));
                while i < items.len()
                    invariant
                        i <= items@.len(),
                        decreases_to!(self => items@),
                        fs == fields(items@),
                        out@ == start + (seq!['{'] + fields_text(fs.take(i as int))),
                    decreases items@.len() - i,
                {
                    if i > 0 {
                        out.push(',');
                    }
                    out.append(json_string_literal(items[i].0.as_str()).as_str());
                    out.push(':');
                    items[i].1.write_text(out);
                    assert(fs.take(i + 1).drop_last() =~= fs.take(i as int));
                    assert(out@ =~= start + (seq!['{'] + fields_text(fs.take(i + 1))));
                    i += 1;
                }
                assert(fs.take(i as int) =~= fs);
                out.push('}');
                assert(out@ =~= start + json_text(self@));
            },
        }
    }

    /// The compact JSON text of the value.
    pub fn to_text(&self) -> (r: String)
        ensures
            r@ == json_text(self@),
    {
        let mut out = String::new();
        self.write_text(&mut out);
        assert(Seq::<char>::empty() + json_text(self@) =~= json_text(self@));
        out
    }
}

/// `serde_json::Value`, a parsed document.
#[verifier::external_type_specification]
#[verifier::external_body]
pub struct ExValue(serde_json::Value);

/// The JSON value that a `serde_json::Value` holds.
pub uninterp spec fn value_of(v: serde_json::Value) -> JsonV;

/// What `serde_json::from_str` makes of a text: a value, or the message of the
/// error.
pub uninterp spec fn parsed(text: Seq<char>) -> Result<JsonV, Seq<char>>;

/// One level of a `serde_json::Value`.
pub(crate) enum Opened {
    Null,
    Bool(bool),
    Int(i128),
    Float(String),
    Text(String),
    List(Vec<serde_json::Value>),
    Fields(Vec<(String, serde_json::Value)>),
}

/// Calls `serde_json::from_str` for a `serde_json::Value`; the outcome depends
/// on the text alone.
#[verifier::external_body]
fn parse_value(text: &str) -> (r: Result<serde_json::Value, String>)
    ensures
        match r {
            Ok(v) => parsed(text@) == Ok::<JsonV, Seq<char>>(value_of(v)),
            Err(m) => parsed(text@) == Err::<JsonV, Seq<char>>(m@),
        },
{
    serde_json::from_str::<serde_json::Value>(text).map_err(|e| e.to_string())
}

/// Takes one level off a `serde_json::Value`.  A number is an integer exactly
/// where `as_i128` gives one; any other number is kept by its `Display` text.
/// The fields of a `serde_json::Map` come out in ascending key order.
#[verifier::external_body]
fn open_value(v: serde_json::Value) -> (r: Opened)
    ensures
        match r {
            Opened::Null => value_of(v) == JsonV::Null,
            Opened::Bool(b) => value_of(v) == JsonV::Bool(b),
            Opened::Int(n) => value_of(v) == JsonV::Int(n as int) && i64::MIN <= n <= u64::MAX,
            Opened::Float(t) => value_of(v) == JsonV::Float(t@),
            Opened::Text(s) => value_of(v) == JsonV::Str(s@),
            Opened::List(items) => value_of(v) == JsonV::Array(
                Seq::new(items@.len(), |i: int| value_of(items@[i])),
            ),
            Opened::Fields(items) => value_of(v) == JsonV::Object(
                Seq::new(items@.len(), |i: int| (items@[i].0@, value_of(items@[i].1))),
            ) && (forall|i: int, j: int|
                0 <= i < j < items@.len() ==> text::text_lt(
                    #[trigger] items@[i].0@,
                    #[trigger] items@[j].0@,
                )),
        },
{
    match v {
        serde_json::Value::Null => Opened::Null,
        serde_json::Value::Bool(b) => Opened::Bool(b),
        serde_json::Value::Number(n) => match n.as_i128() {
            Some(i) => Opened::Int(i),
            None => Opened::Float(n.to_string()),
        },
        serde_json::Value::String(s) => Opened::Text(s),
        serde_json::Value::Array(items) => Opened::List(items),
        serde_json::Value::Object(map) => Opened::Fields(map.into_iter().collect()),
    }
}

/// The library's value for a `serde_json::Value`.
fn from_value(v: serde_json::Value) -> (r: Json)
    ensures
        r@ == value_of(v),
    decreases value_of(v),
{
    broadcast use group_json;

    let ghost whole = value_of(v);
    match open_value(v) {
        Opened::Null => Json::Null,
        Opened::Bool(b) => Json::Bool(b),
        Opened::Int(n) => Json::Int(n),
        Opened::Float(t) => Json::Float(t),
        Opened::Text(s) => Json::Str(s),
        Opened::List(items) => {
            let mut items = items;
            let ghost all = items@;
            let ghost vs = Seq::new(all.len(), |i: int| value_of(all[i]));
            let mut out: Vec<Json> = Vec::new();
            assert(decreases_to!(whole => whole->Array_0));
            while items.len() > 0
                invariant
                    decreases_to!(value_of(v) => vs),
                    vs == Seq::new(all.len(), |i: int| value_of(all[i])),
                    items@ == all.skip(out@.len() as int),
                    out@.len() <= all.len(),
                    values(out@) == vs.take(out@.len() as int),
                decreases items@.len(),
            {
                let ghost n = out@.len();
                let item = items.remove(0);
                assert(decreases_to!(vs => vs[n as int]));
                let converted = from_value(item);
                let ghost before = out@;
                out.push(converted);
                assert(values(out@) == values(before).push(converted@));
                assert(items@ =~= all.skip(out@.len() as int));
                assert(values(out@) =~= vs.take(out@.len() as int));
            }
            assert(vs.take(out@.len() as int) =~= vs);
            Json::Array(out)
        },
        Opened::Fields(items) => {
            let mut items = items;
            let ghost all = items@;
            let ghost fs = Seq::new(all.len(), |i: int| (all[i].0@, value_of(all[i].1)));
            let mut out: Vec<(String, Json)> = Vec::new();
            assert(decreases_to!(whole => whole->Object_0));
            while items.len() > 0
                invariant
                    decreases_to!(value_of(v) => fs),
                    fs == Seq::new(all.len(), |i: int| (all[i].0@, value_of(all[i].1))),
                    items@ == all.skip(out@.len() as int),
                    out@.len() <= all.len(),
                    fields(out@) == fs.take(out@.len() as int),
                decreases items@.len(),
            {
                let ghost n = out@.len();
                let (key, item) = items.remove(0);
                assert(decreases_to!(fs => fs[n as int]));
                assert(decreases_to!(fs[n as int] => fs[n as int].1));
                let converted = (key, from_value(item));
                let ghost before = out@;
                out.push(converted);
                assert(fields(out@) == fields(before).push((converted.0@, converted.1@)));
                assert(items@ =~= all.skip(out@.len() as int));
                assert(fields(out@) =~= fs.take(out@.len() as int));
            }
            assert(fs.take(out@.len() as int) =~= fs);
            Json::Object(out)
        },
    }
}

/// Parses a JSON text; the error is the parser's message.
pub fn parse(text: &str) -> (r: Result<Json, String>)
    ensures
        match r {
            Ok(v) => parsed(text@) == Ok::<JsonV, Seq<char>>(v@),
            Err(m) => parsed(text@) == Err::<JsonV, Seq<char>>(m@),
        },
{
    match parse_value(text) {
        Ok(v) => Ok(from_value(v)),
        Err(m) => Err(m),
    }
}

} // verus!
