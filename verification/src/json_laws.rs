//! JSON texts tell the values apart that they stand for.
use crate::json;
use crate::json::{Fields, JsonV};
use crate::text;
use vstd::prelude::*;

verus! {

proof fn digits_are_apart(a: nat, b: nat)
    requires
        a < 10,
        b < 10,
    ensures
        '0' <= text::digit(a) <= '9',
        text::digit(a) == text::digit(b) ==> a == b,
{
}

proof fn hex_digits_are_apart(a: nat, b: nat)
    requires
        a < 16,
        b < 16,
    ensures
        json::hex_digit(a) == json::hex_digit(b) ==> a == b,
{
}

proof fn escapes_are_apart(c: char, d: char, x: Seq<char>, y: Seq<char>)
    requires
        json::escaped(c) + x == json::escaped(d) + y,
    ensures
        c == d,
        x == y,
{
    let p = json::escaped(c);
    let q = json::escaped(d);
    let both = p + x;
    if (c as u32) < 32 && (d as u32) < 32 {
        hex_digits_are_apart((c as nat) / 16, (d as nat) / 16);
        hex_digits_are_apart((c as nat) % 16, (d as nat) % 16);
    }
    assert(both[0] == p[0] && both[0] == q[0]);
    if p.len() > 1 {
        assert(both[1] == p[1]);
    }
    if q.len() > 1 {
        assert(both[1] == q[1]);
    }
    if p.len() == 6 && q.len() == 6 {
        assert(both[4] == p[4] && both[4] == q[4]);
        assert(both[5] == p[5] && both[5] == q[5]);
    }
    assert(c == d);
    assert(x =~= both.skip(p.len() as int));
    assert(y =~= both.skip(q.len() as int));
}

proof fn escapes_split(s: Seq<char>)
    requires
        s.len() > 0,
    ensures
        json::escaped_text(s) == json::escaped(s[0]) + json::escaped_text(s.skip(1)),
    decreases s.len(),
{
    if s.len() == 1 {
        assert(s.drop_last() =~= Seq::empty());
        assert(s.skip(1) =~= Seq::empty());
        assert(json::escaped_text(s.skip(1)) =~= Seq::empty());
        assert(json::escaped_text(s.drop_last()) =~= Seq::empty());
        assert(json::escaped_text(s) =~= json::escaped(s[0]));
    } else {
        let less = s.drop_last();
        escapes_split(less);
        assert(less.skip(1) =~= s.skip(1).drop_last());
        assert(s.skip(1).last() == s.last());
        assert(json::escaped_text(s) =~= json::escaped(s[0]) + json::escaped_text(s.skip(1)));
    }
}

proof fn insides_are_apart(a: Seq<char>, b: Seq<char>, x: Seq<char>, y: Seq<char>)
    requires
        json::escaped_text(a) + seq!['"'] + x == json::escaped_text(b) + seq!['"'] + y,
    ensures
        a == b,
        x == y,
    decreases a.len(),
{
    let both = json::escaped_text(a) + seq!['"'] + x;
    let empty: Seq<char> = Seq::empty();
    if a.len() == 0 && b.len() == 0 {
        assert(both.skip(1) =~= x);
        assert(both.skip(1) =~= y);
        assert(a =~= b);
    } else if a.len() == 0 {
        escapes_split(b);
        assert(both[0] == '"');
        assert(both[0] == json::escaped(b[0])[0]);
    } else if b.len() == 0 {
        escapes_split(a);
        assert(both[0] == '"');
        assert(both[0] == json::escaped(a[0])[0]);
    } else {
        escapes_split(a);
        escapes_split(b);
        let p = json::escaped_text(a.skip(1)) + seq!['"'] + x;
        let q = json::escaped_text(b.skip(1)) + seq!['"'] + y;
        assert(both =~= json::escaped(a[0]) + p);
        assert(both =~= json::escaped(b[0]) + q);
        escapes_are_apart(a[0], b[0], p, q);
        insides_are_apart(a.skip(1), b.skip(1), x, y);
        assert(a =~= seq![a[0]] + a.skip(1));
        assert(b =~= seq![b[0]] + b.skip(1));
    }
}

proof fn literals_are_apart(a: Seq<char>, b: Seq<char>, x: Seq<char>, y: Seq<char>)
    requires
        json::string_literal(a) + x == json::string_literal(b) + y,
    ensures
        a == b,
        x == y,
{
    let both = json::string_literal(a) + x;
    assert(both.skip(1) =~= json::escaped_text(a) + seq!['"'] + x);
    assert(both.skip(1) =~= json::escaped_text(b) + seq!['"'] + y);
    insides_are_apart(a, b, x, y);
}

/// Whether a character may stand in a number.
pub open spec fn in_number(c: char) -> bool {
    '0' <= c <= '9' || c == '-' || c == '+' || c == '.' || c == 'e' || c == 'E'
}

/// Whether a text is written like a number that is no integer.
pub open spec fn like_float(t: Seq<char>) -> bool {
    &&& forall|i: int| 0 <= i < t.len() ==> in_number(#[trigger] t[i])
    &&& t.contains('.') || t.contains('e') || t.contains('E')
}

/// Whether the numbers of a value are written as numbers.
pub open spec fn well_written(v: JsonV) -> bool
    decreases v,
{
    match v {
        JsonV::Float(t) => like_float(t),
        JsonV::Array(items) => forall|i: int|
            0 <= i < items.len() ==> well_written(#[trigger] items[i]),
        JsonV::Object(f) => forall|i: int|
            0 <= i < f.len() ==> well_written((#[trigger] f[i]).1),
        _ => true,
    }
}

/// Whether a text begins behind a value.
spec fn behind(s: Seq<char>) -> bool {
    s.len() == 0 || s[0] == ',' || s[0] == ']' || s[0] == '}'
}

proof fn numbers_are_apart(a: Seq<char>, b: Seq<char>, x: Seq<char>, y: Seq<char>)
    requires
        forall|i: int| 0 <= i < a.len() ==> in_number(#[trigger] a[i]),
        forall|i: int| 0 <= i < b.len() ==> in_number(#[trigger] b[i]),
        behind(x),
        behind(y),
        a + x == b + y,
    ensures
        a == b,
        x == y,
{
    let both = a + x;
    assert(both.len() == a.len() + x.len() && both.len() == b.len() + y.len());
    if a.len() < b.len() {
        assert(both[a.len() as int] == x[0]);
        assert(both[a.len() as int] == b[a.len() as int]);
    } else if b.len() < a.len() {
        assert(both[b.len() as int] == y[0]);
        assert(both[b.len() as int] == a[b.len() as int]);
    }
    assert(a =~= both.take(a.len() as int));
    assert(b =~= both.take(b.len() as int));
    assert(x =~= both.skip(a.len() as int));
    assert(y =~= both.skip(b.len() as int));
}

/// A decimal rendering is made of digits.
pub proof fn decimals_are_digits(n: nat)
    ensures
        text::decimal(n).len() > 0,
        forall|i: int|
            0 <= i < text::decimal(n).len() ==> '0' <= #[trigger] text::decimal(n)[i] <= '9',
    decreases n,
{
    if n >= 10 {
        decimals_are_digits(n / 10);
        digits_are_apart(n % 10, 0);
    } else {
        digits_are_apart(n, 0);
    }
}

/// Numbers are told apart by their decimal digits.
pub proof fn decimals_are_apart(a: nat, b: nat)
    requires
        text::decimal(a) == text::decimal(b),
    ensures
        a == b,
    decreases a,
{
    let s = text::decimal(a);
    if a < 10 && b < 10 {
        digits_are_apart(a, b);
        assert(s[0] == text::digit(a) && s[0] == text::digit(b));
    } else if a < 10 {
        decimals_are_digits(b / 10);
        assert(s.len() == 1);
    } else if b < 10 {
        decimals_are_digits(a / 10);
        assert(s.len() == 1);
    } else {
        digits_are_apart(a % 10, b % 10);
        assert(s.last() == text::digit(a % 10) && s.last() == text::digit(b % 10));
        assert(s.drop_last() =~= text::decimal(a / 10));
        assert(s.drop_last() =~= text::decimal(b / 10));
        decimals_are_apart(a / 10, b / 10);
    }
}

proof fn integers_are_numbers(n: int)
    ensures
        text::decimal_int(n).len() > 0,
        forall|i: int|
            0 <= i < text::decimal_int(n).len() ==> '0' <= #[trigger] text::decimal_int(n)[i] <= '9'
                || text::decimal_int(n)[i] == '-',
{
    if n < 0 {
        decimals_are_digits((-n) as nat);
    } else {
        decimals_are_digits(n as nat);
    }
}

proof fn integers_are_apart(a: int, b: int)
    requires
        text::decimal_int(a) == text::decimal_int(b),
    ensures
        a == b,
{
    let s = text::decimal_int(a);
    if a < 0 && b < 0 {
        assert(s.skip(1) =~= text::decimal((-a) as nat));
        assert(s.skip(1) =~= text::decimal((-b) as nat));
        decimals_are_apart((-a) as nat, (-b) as nat);
    } else if a < 0 {
        decimals_are_digits(b as nat);
        assert(s[0] == '-');
    } else if b < 0 {
        decimals_are_digits(a as nat);
        assert(s[0] == '-');
    } else {
        decimals_are_apart(a as nat, b as nat);
    }
}

/// Some elements, each behind a comma.
spec fn more_items(items: Seq<JsonV>) -> Seq<char>
    decreases items.len(),
{
    if items.len() == 0 {
        Seq::empty()
    } else {
        seq![','] + json::json_text(items[0]) + more_items(items.skip(1))
    }
}

proof fn one_item_more(items: Seq<JsonV>, v: JsonV)
    ensures
        more_items(items.push(v)) == more_items(items) + seq![','] + json::json_text(v),
    decreases items.len(),
{
    let all = items.push(v);
    if items.len() == 0 {
        assert(all.skip(1) =~= Seq::empty());
        assert(more_items(all.skip(1)) =~= Seq::empty());
        assert(more_items(all) =~= more_items(items) + seq![','] + json::json_text(v));
    } else {
        one_item_more(items.skip(1), v);
        assert(all.skip(1) =~= items.skip(1).push(v));
        assert(more_items(all) =~= more_items(items) + seq![','] + json::json_text(v));
    }
}

proof fn items_lead(items: Seq<JsonV>)
    requires
        items.len() > 0,
    ensures
        json::items_text(items) == json::json_text(items[0]) + more_items(items.skip(1)),
    decreases items.len(),
{
    let less = items.drop_last();
    if items.len() == 1 {
        assert(less =~= Seq::empty());
        assert(items.skip(1) =~= Seq::empty());
        assert(json::items_text(less) =~= Seq::empty());
        assert(more_items(items.skip(1)) =~= Seq::empty());
        assert(json::items_text(items) =~= json::json_text(items[0]));
    } else {
        items_lead(less);
        one_item_more(less.skip(1), items.last());
        assert(items.skip(1) =~= less.skip(1).push(items.last()));
        assert(json::items_text(items) =~= json::json_text(items[0]) + more_items(items.skip(1)));
    }
}

/// A field as it is written.
spec fn field_text(f: (Seq<char>, JsonV)) -> Seq<char> {
    json::string_literal(f.0) + seq![':'] + json::json_text(f.1)
}

/// Some fields, each behind a comma.
spec fn more_fields(f: Fields) -> Seq<char>
    decreases f.len(),
{
    if f.len() == 0 {
        Seq::empty()
    } else {
        seq![','] + field_text(f[0]) + more_fields(f.skip(1))
    }
}

proof fn one_field_more(f: Fields, x: (Seq<char>, JsonV))
    ensures
        more_fields(f.push(x)) == more_fields(f) + seq![','] + field_text(x),
    decreases f.len(),
{
    let all = f.push(x);
    if f.len() == 0 {
        assert(all.skip(1) =~= Seq::empty());
        assert(more_fields(all.skip(1)) =~= Seq::empty());
        assert(more_fields(all) =~= more_fields(f) + seq![','] + field_text(x));
    } else {
        one_field_more(f.skip(1), x);
        assert(all.skip(1) =~= f.skip(1).push(x));
        assert(more_fields(all) =~= more_fields(f) + seq![','] + field_text(x));
    }
}

proof fn fields_lead(f: Fields)
    requires
        f.len() > 0,
    ensures
        json::fields_text(f) == field_text(f[0]) + more_fields(f.skip(1)),
    decreases f.len(),
{
    let less = f.drop_last();
    let last = f.last();
    assert(json::string_literal(last.0).push(':') =~= json::string_literal(last.0) + seq![':']);
    if f.len() == 1 {
        assert(less =~= Seq::empty());
        assert(f.skip(1) =~= Seq::empty());
        assert(json::fields_text(less) =~= Seq::empty());
        assert(more_fields(f.skip(1)) =~= Seq::empty());
        assert(json::fields_text(f) =~= field_text(f[0]));
    } else {
        fields_lead(less);
        one_field_more(less.skip(1), last);
        assert(f.skip(1) =~= less.skip(1).push(last));
        assert(json::fields_text(f) =~= field_text(f[0]) + more_fields(f.skip(1)));
    }
}

/// What the text of a value begins with.
spec fn opener(v: JsonV) -> char {
    match v {
        JsonV::Null => 'n',
        JsonV::Bool(b) => if b {
            't'
        } else {
            'f'
        },
        JsonV::Str(_) => '"',
        JsonV::Array(_) => '[',
        JsonV::Object(_) => '{',
        _ => '0',
    }
}

spec fn is_number(v: JsonV) -> bool {
    v is Int || v is Float
}

proof fn texts_open(v: JsonV)
    requires
        well_written(v),
    ensures
        json::json_text(v).len() > 0,
        is_number(v) ==> forall|i: int|
            0 <= i < json::json_text(v).len() ==> in_number(#[trigger] json::json_text(v)[i]),
        !is_number(v) ==> json::json_text(v)[0] == opener(v),
{
    reveal_strlit("null");
    reveal_strlit("true");
    reveal_strlit("false");
    match v {
        JsonV::Int(n) => {
            integers_are_numbers(n);
        },
        _ => {},
    }
}

proof fn numbers_tell(a: JsonV, b: JsonV)
    requires
        well_written(a),
        well_written(b),
        is_number(a),
        is_number(b),
        json::json_text(a) == json::json_text(b),
    ensures
        a == b,
{
    match (a, b) {
        (JsonV::Int(x), JsonV::Int(y)) => {
            integers_are_apart(x, y);
        },
        (JsonV::Int(x), JsonV::Float(t)) => {
            integers_are_numbers(x);
        },
        (JsonV::Float(t), JsonV::Int(y)) => {
            integers_are_numbers(y);
        },
        _ => {},
    }
}

/// Values whose texts begin the same text, each up to a place where a value may
/// end, are the same, and so is what follows them.
proof fn values_are_apart(a: JsonV, b: JsonV, x: Seq<char>, y: Seq<char>)
    requires
        well_written(a),
        well_written(b),
        behind(x),
        behind(y),
        json::json_text(a) + x == json::json_text(b) + y,
    ensures
        a == b,
        x == y,
    decreases a,
{
    let p = json::json_text(a);
    let q = json::json_text(b);
    let both = p + x;
    texts_open(a);
    texts_open(b);
    assert(both[0] == p[0] && both[0] == q[0]);
    if is_number(a) {
        assert(in_number(p[0]));
        assert(is_number(b));
        numbers_are_apart(p, q, x, y);
        numbers_tell(a, b);
    } else {
        if is_number(b) {
            assert(in_number(q[0]));
        }
        match (a, b) {
            (JsonV::Str(s), JsonV::Str(t)) => {
                literals_are_apart(s, t, x, y);
            },
            (JsonV::Array(s), JsonV::Array(t)) => {
                lists_are_apart(s, t, x, y);
            },
            (JsonV::Object(s), JsonV::Object(t)) => {
                objects_are_apart(s, t, x, y);
            },
            _ => {
                assert(a == b && p == q);
                assert(x =~= both.skip(p.len() as int));
                assert(y =~= both.skip(q.len() as int));
            },
        }
    }
}

proof fn lists_are_apart(s: Seq<JsonV>, t: Seq<JsonV>, x: Seq<char>, y: Seq<char>)
    requires
        forall|i: int| 0 <= i < s.len() ==> well_written(#[trigger] s[i]),
        forall|i: int| 0 <= i < t.len() ==> well_written(#[trigger] t[i]),
        behind(x),
        behind(y),
        seq!['['] + json::items_text(s) + seq![']'] + x == seq!['['] + json::items_text(t) + seq![
            ']',
        ] + y,
    ensures
        s == t,
        x == y,
    decreases s,
{
    let both = seq!['['] + json::items_text(s) + seq![']'] + x;
    let u = json::items_text(s) + seq![']'] + x;
    let v = json::items_text(t) + seq![']'] + y;
    assert(both.skip(1) =~= u);
    assert(both.skip(1) =~= v);
    if s.len() > 0 {
        items_lead(s);
        texts_open(s[0]);
    }
    if t.len() > 0 {
        items_lead(t);
        texts_open(t[0]);
    }
    if s.len() == 0 && t.len() == 0 {
        assert(u.skip(1) =~= x && v.skip(1) =~= y);
        assert(s =~= t);
    } else if s.len() == 0 {
        assert(u[0] == ']');
        assert(v[0] == json::json_text(t[0])[0]);
        assert(in_number(v[0]) || v[0] == opener(t[0]));
    } else if t.len() == 0 {
        assert(v[0] == ']');
        assert(u[0] == json::json_text(s[0])[0]);
        assert(in_number(u[0]) || u[0] == opener(s[0]));
    } else {
        let m = more_items(s.skip(1)) + seq![']'] + x;
        let n = more_items(t.skip(1)) + seq![']'] + y;
        assert(u =~= json::json_text(s[0]) + m);
        assert(v =~= json::json_text(t[0]) + n);
        values_are_apart(s[0], t[0], m, n);
        items_are_apart(s.skip(1), t.skip(1), x, y);
        assert(s =~= seq![s[0]] + s.skip(1));
        assert(t =~= seq![t[0]] + t.skip(1));
    }
}

proof fn objects_are_apart(s: Fields, t: Fields, x: Seq<char>, y: Seq<char>)
    requires
        forall|i: int| 0 <= i < s.len() ==> well_written((#[trigger] s[i]).1),
        forall|i: int| 0 <= i < t.len() ==> well_written((#[trigger] t[i]).1),
        behind(x),
        behind(y),
        seq!['{'] + json::fields_text(s) + seq!['}'] + x == seq!['{'] + json::fields_text(t) + seq![
            '}',
        ] + y,
    ensures
        s == t,
        x == y,
    decreases s,
{
    let both = seq!['{'] + json::fields_text(s) + seq!['}'] + x;
    let u = json::fields_text(s) + seq!['}'] + x;
    let v = json::fields_text(t) + seq!['}'] + y;
    assert(both.skip(1) =~= u);
    assert(both.skip(1) =~= v);
    if s.len() > 0 {
        fields_lead(s);
    }
    if t.len() > 0 {
        fields_lead(t);
    }
    if s.len() == 0 && t.len() == 0 {
        assert(u.skip(1) =~= x && v.skip(1) =~= y);
        assert(s =~= t);
    } else if s.len() == 0 {
        assert(u[0] == '}' && v[0] == '"');
    } else if t.len() == 0 {
        assert(v[0] == '}' && u[0] == '"');
    } else {
        let m = more_fields(s.skip(1)) + seq!['}'] + x;
        let n = more_fields(t.skip(1)) + seq!['}'] + y;
        let k = seq![':'] + json::json_text(s[0].1) + m;
        let l = seq![':'] + json::json_text(t[0].1) + n;
        assert(u =~= json::string_literal(s[0].0) + k);
        assert(v =~= json::string_literal(t[0].0) + l);
        literals_are_apart(s[0].0, t[0].0, k, l);
        assert(k.skip(1) =~= json::json_text(s[0].1) + m);
        assert(l.skip(1) =~= json::json_text(t[0].1) + n);
        values_are_apart(s[0].1, t[0].1, m, n);
        fields_are_apart(s.skip(1), t.skip(1), x, y);
        assert(s =~= seq![s[0]] + s.skip(1));
        assert(t =~= seq![t[0]] + t.skip(1));
    }
}

proof fn items_are_apart(s: Seq<JsonV>, t: Seq<JsonV>, x: Seq<char>, y: Seq<char>)
    requires
        forall|i: int| 0 <= i < s.len() ==> well_written(#[trigger] s[i]),
        forall|i: int| 0 <= i < t.len() ==> well_written(#[trigger] t[i]),
        behind(x),
        behind(y),
        more_items(s) + seq![']'] + x == more_items(t) + seq![']'] + y,
    ensures
        s == t,
        x == y,
    decreases s,
{
    let both = more_items(s) + seq![']'] + x;
    if s.len() == 0 && t.len() == 0 {
        assert(both.skip(1) =~= x && both.skip(1) =~= y);
        assert(s =~= t);
    } else if s.len() == 0 || t.len() == 0 {
        assert(both[0] == ']' && both[0] == ',');
    } else {
        let m = more_items(s.skip(1)) + seq![']'] + x;
        let n = more_items(t.skip(1)) + seq![']'] + y;
        assert(both.skip(1) =~= json::json_text(s[0]) + m);
        assert(both.skip(1) =~= json::json_text(t[0]) + n);
        values_are_apart(s[0], t[0], m, n);
        items_are_apart(s.skip(1), t.skip(1), x, y);
        assert(s =~= seq![s[0]] + s.skip(1));
        assert(t =~= seq![t[0]] + t.skip(1));
    }
}

proof fn fields_are_apart(s: Fields, t: Fields, x: Seq<char>, y: Seq<char>)
    requires
        forall|i: int| 0 <= i < s.len() ==> well_written((#[trigger] s[i]).1),
        forall|i: int| 0 <= i < t.len() ==> well_written((#[trigger] t[i]).1),
        behind(x),
        behind(y),
        more_fields(s) + seq!['}'] + x == more_fields(t) + seq!['}'] + y,
    ensures
        s == t,
        x == y,
    decreases s,
{
    let both = more_fields(s) + seq!['}'] + x;
    if s.len() == 0 && t.len() == 0 {
        assert(both.skip(1) =~= x && both.skip(1) =~= y);
        assert(s =~= t);
    } else if s.len() == 0 || t.len() == 0 {
        assert(both[0] == '}' && both[0] == ',');
    } else {
        let m = more_fields(s.skip(1)) + seq!['}'] + x;
        let n = more_fields(t.skip(1)) + seq!['}'] + y;
        let k = seq![':'] + json::json_text(s[0].1) + m;
        let l = seq![':'] + json::json_text(t[0].1) + n;
        assert(both.skip(1) =~= json::string_literal(s[0].0) + k);
        assert(both.skip(1) =~= json::string_literal(t[0].0) + l);
        literals_are_apart(s[0].0, t[0].0, k, l);
        assert(k.skip(1) =~= json::json_text(s[0].1) + m);
        assert(l.skip(1) =~= json::json_text(t[0].1) + n);
        values_are_apart(s[0].1, t[0].1, m, n);
        fields_are_apart(s.skip(1), t.skip(1), x, y);
        assert(s =~= seq![s[0]] + s.skip(1));
        assert(t =~= seq![t[0]] + t.skip(1));
    }
}

/// Different values have different JSON texts.
pub proof fn texts_tell_values_apart(a: JsonV, b: JsonV)
    requires
        well_written(a),
        well_written(b),
        json::json_text(a) == json::json_text(b),
    ensures
        a == b,
{
    let none: Seq<char> = Seq::empty();
    assert(json::json_text(a) + none =~= json::json_text(b) + none);
    values_are_apart(a, b, none, none);
}

} // verus!
