//! JSON values as the SDK builds, canonicalizes and writes them.
use vstd::prelude::*;

use crate::text::{append_decimal, chars_of, decimal, push_char};
use vstd::string::*;

verus! {

/// A JSON number: a non-negative integer, a negative integer, or a float
/// kept as the text that JSON writers print for it.
#[derive(Debug, Clone, PartialEq)]
pub enum JsonNumber {
    PosInt(u64),
    NegInt(i64),
    Float(String),
}

/// A JSON document. Objects keep their members in insertion order.
#[derive(Debug, PartialEq)]
pub enum JsonValue {
    Null,
    Bool(bool),
    Number(JsonNumber),
    String(String),
    Array(Vec<JsonValue>),
    Object(Vec<(String, JsonValue)>),
}

/// Mathematical model of a JSON number.
pub enum NumberModel {
    PosInt(u64),
    NegInt(i64),
    Float(Seq<char>),
}

/// Mathematical model of a JSON document.
#[verifier::ext_equal]
pub enum Json {
    Null,
    Bool(bool),
    Number(NumberModel),
    Str(Seq<char>),
    Array(Seq<Json>),
    Object(Seq<(Seq<char>, Json)>),
}

pub open spec fn number_model(n: JsonNumber) -> NumberModel {
    match n {
        JsonNumber::PosInt(u) => NumberModel::PosInt(u),
        JsonNumber::NegInt(i) => NumberModel::NegInt(i),
        JsonNumber::Float(t) => NumberModel::Float(t@),
    }
}

/// The model of a JSON value.
pub open spec fn json_model(v: JsonValue) -> Json
    decreases v,
{
    match v {
        JsonValue::Null => Json::Null,
        JsonValue::Bool(b) => Json::Bool(b),
        JsonValue::Number(n) => Json::Number(number_model(n)),
        JsonValue::String(s) => Json::Str(s@),
        JsonValue::Array(items) => Json::Array(items_model(items@)),
        JsonValue::Object(members) => Json::Object(members_model(members@)),
    }
}

pub open spec fn items_model(s: Seq<JsonValue>) -> Seq<Json>
    decreases s,
{
    if s.len() == 0 {
        Seq::empty()
    } else {
        items_model(s.subrange(0, s.len() - 1)).push(json_model(s[s.len() - 1]))
    }
}

pub open spec fn members_model(s: Seq<(String, JsonValue)>) -> Seq<(Seq<char>, Json)>
    decreases s,
{
    if s.len() == 0 {
        Seq::empty()
    } else {
        members_model(s.subrange(0, s.len() - 1)).push(
            (s[s.len() - 1].0@, json_model(s[s.len() - 1].1)),
        )
    }
}

impl View for JsonValue {
    type V = Json;

    open spec fn view(&self) -> Json {
        json_model(*self)
    }
}


/// Strict order on member names: lexicographic by Unicode scalar value,
/// which is the order of their UTF-8 bytes.
pub open spec fn key_lt(a: Seq<char>, b: Seq<char>) -> bool
    decreases a.len(),
{
    if a.len() == 0 {
        b.len() > 0
    } else if b.len() == 0 {
        false
    } else if (a[0] as u32) < (b[0] as u32) {
        true
    } else if a[0] == b[0] {
        key_lt(a.drop_first(), b.drop_first())
    } else {
        false
    }
}

/// Inserts `e` into `sorted` after every member whose name is not greater
/// than the name of `e`.
pub open spec fn insert_member(sorted: Seq<(Seq<char>, Json)>, e: (Seq<char>, Json)) -> Seq<
    (Seq<char>, Json),
>
    decreases sorted.len(),
{
    if sorted.len() == 0 {
        seq![e]
    } else if key_lt(e.0, sorted[0].0) {
        seq![e] + sorted
    } else {
        seq![sorted[0]] + insert_member(sorted.drop_first(), e)
    }
}

/// Stable sort of members by name.
pub open spec fn sort_members(s: Seq<(Seq<char>, Json)>) -> Seq<(Seq<char>, Json)>
    decreases s.len(),
{
    if s.len() == 0 {
        s
    } else {
        insert_member(sort_members(s.drop_last()), s.last())
    }
}

/// The canonical form of a document: every object has its members sorted
/// by name, at every depth; arrays keep their order.
pub open spec fn canonical(j: Json) -> Json
    decreases j,
{
    match j {
        Json::Array(items) => Json::Array(canonical_items(items)),
        Json::Object(members) => Json::Object(sort_members(canonical_members(members))),
        _ => j,
    }
}

pub open spec fn canonical_items(s: Seq<Json>) -> Seq<Json>
    decreases s,
{
    if s.len() == 0 {
        Seq::empty()
    } else {
        canonical_items(s.subrange(0, s.len() - 1)).push(canonical(s[s.len() - 1]))
    }
}

pub open spec fn canonical_members(s: Seq<(Seq<char>, Json)>) -> Seq<(Seq<char>, Json)>
    decreases s,
{
    if s.len() == 0 {
        Seq::empty()
    } else {
        canonical_members(s.subrange(0, s.len() - 1)).push(
            (s[s.len() - 1].0, canonical(s[s.len() - 1].1)),
        )
    }
}


pub proof fn lemma_items_model(s: Seq<JsonValue>)
    ensures
        items_model(s).len() == s.len(),
        forall|i: int| 0 <= i < s.len() ==> #[trigger] items_model(s)[i] == json_model(s[i]),
    decreases s.len(),
{
    if s.len() > 0 {
        lemma_items_model(s.subrange(0, s.len() - 1));
    }
}

pub proof fn lemma_members_model(s: Seq<(String, JsonValue)>)
    ensures
        members_model(s).len() == s.len(),
        forall|i: int|
            0 <= i < s.len() ==> #[trigger] members_model(s)[i] == (s[i].0@, json_model(s[i].1)),
    decreases s.len(),
{
    if s.len() > 0 {
        lemma_members_model(s.subrange(0, s.len() - 1));
    }
}

pub proof fn lemma_canonical_items(s: Seq<Json>)
    ensures
        canonical_items(s).len() == s.len(),
        forall|i: int| 0 <= i < s.len() ==> #[trigger] canonical_items(s)[i] == canonical(s[i]),
    decreases s.len(),
{
    if s.len() > 0 {
        lemma_canonical_items(s.subrange(0, s.len() - 1));
    }
}

pub proof fn lemma_canonical_members(s: Seq<(Seq<char>, Json)>)
    ensures
        canonical_members(s).len() == s.len(),
        forall|i: int|
            0 <= i < s.len() ==> #[trigger] canonical_members(s)[i] == (s[i].0, canonical(s[i].1)),
    decreases s.len(),
{
    if s.len() > 0 {
        lemma_canonical_members(s.subrange(0, s.len() - 1));
    }
}

/// `insert_member` places `e` at the first position whose name is greater.
proof fn lemma_insert_member_at(s: Seq<(Seq<char>, Json)>, e: (Seq<char>, Json), p: int)
    requires
        0 <= p <= s.len(),
        forall|i: int| 0 <= i < p ==> !key_lt(e.0, #[trigger] s[i].0),
        p < s.len() ==> key_lt(e.0, s[p].0),
    ensures
        insert_member(s, e) == s.insert(p, e),
    decreases s.len(),
{
    if s.len() == 0 {
        assert(s.insert(p, e) =~= seq![e]);
    } else if p == 0 {
        assert(s.insert(p, e) =~= seq![e] + s);
    } else {
        let t = s.drop_first();
        assert forall|i: int| 0 <= i < p - 1 implies !key_lt(e.0, #[trigger] t[i].0) by {
            assert(t[i] == s[i + 1]);
        }
        lemma_insert_member_at(t, e, p - 1);
        assert(s.insert(p, e) =~= seq![s[0]] + t.insert(p - 1, e));
    }
}

/// Whether `a` sorts strictly before `b`.
fn key_less(a: &str, b: &str) -> (r: bool)
    ensures
        r == key_lt(a@, b@),
{
    let x = chars_of(a);
    let y = chars_of(b);
    let mut i: usize = 0;
    assert(x@.skip(0) =~= x@);
    assert(y@.skip(0) =~= y@);
    while i < x.len() && i < y.len()
        invariant
            i <= x@.len(),
            i <= y@.len(),
            key_lt(a@, b@) == key_lt(x@.skip(i as int), y@.skip(i as int)),
            x@ == a@,
            y@ == b@,
        decreases x@.len() - i,
    {
        let c = x[i];
        let d = y[i];
        if (c as u32) < (d as u32) {
            return true;
        }
        if c != d {
            return false;
        }
        assert(x@.skip(i as int).drop_first() =~= x@.skip(i + 1));
        assert(y@.skip(i as int).drop_first() =~= y@.skip(i + 1));
        i = i + 1;
    }
    i == x.len() && i < y.len()
}

/// Inserts `e` into the name-sorted `sorted`, after the members whose names
/// are not greater.
fn insert_member_sorted(sorted: &mut Vec<(String, JsonValue)>, e: (String, JsonValue))
    ensures
        members_model(final(sorted)@) == insert_member(
            members_model(old(sorted)@),
            (e.0@, json_model(e.1)),
        ),
{
    let ghost m = members_model(sorted@);
    let ghost me = (e.0@, json_model(e.1));
    proof {
        lemma_members_model(sorted@);
    }
    let mut p: usize = 0;
    while p < sorted.len()
        invariant
            p <= sorted@.len(),
            m == members_model(sorted@),
            me == (e.0@, json_model(e.1)),
            m.len() == sorted@.len(),
            forall|i: int| 0 <= i < sorted@.len() ==> #[trigger] m[i] == (sorted@[i].0@, json_model(sorted@[i].1)),
            forall|i: int| 0 <= i < p ==> !key_lt(me.0, #[trigger] m[i].0),
        ensures
            p <= sorted@.len(),
            forall|i: int| 0 <= i < p ==> !key_lt(me.0, #[trigger] m[i].0),
            p < sorted@.len() ==> key_lt(me.0, m[p as int].0),
        decreases sorted@.len() - p,
    {
        assert(m[p as int] == (sorted@[p as int].0@, json_model(sorted@[p as int].1)));
        if key_less(e.0.as_str(), sorted[p].0.as_str()) {
            break;
        }
        p = p + 1;
    }
    proof {
        lemma_insert_member_at(m, me, p as int);
    }
    let ghost old_s = sorted@;
    sorted.insert(p, e);
    proof {
        lemma_members_model(sorted@);
        assert(members_model(sorted@) =~= m.insert(p as int, me)) by {
            assert(sorted@ =~= old_s.insert(p as int, e));
        }
    }
}


impl JsonNumber {
    /// A copy of this number.
    pub fn duplicate(&self) -> (r: JsonNumber)
        ensures
            number_model(r) == number_model(*self),
    {
        match self {
            JsonNumber::PosInt(u) => JsonNumber::PosInt(*u),
            JsonNumber::NegInt(i) => JsonNumber::NegInt(*i),
            JsonNumber::Float(t) => JsonNumber::Float(t.clone()),
        }
    }
}

impl JsonValue {
    /// The canonical form of this document: members of every object sorted
    /// by name (byte order of their UTF-8), at every depth.
    pub fn canonicalize(&self) -> (r: JsonValue)
        ensures
            r@ == canonical(self@),
        decreases self,
    {
        match self {
            JsonValue::Null => JsonValue::Null,
            JsonValue::Bool(b) => JsonValue::Bool(*b),
            JsonValue::Number(n) => JsonValue::Number(n.duplicate()),
            JsonValue::String(t) => JsonValue::String(t.clone()),
            JsonValue::Array(items) => {
                let ghost src = items_model(items@);
                proof {
                    lemma_items_model(items@);
                    lemma_canonical_items(src);
                }
                let mut out: Vec<JsonValue> = Vec::new();
                let n = items.len();
                for i in 0..n
                    invariant
                        n == items@.len(),
                        *self == JsonValue::Array(*items),
                        src == items_model(items@),
                        src.len() == n,
                        forall|k: int| 0 <= k < n ==> #[trigger] src[k] == json_model(items@[k]),
                        out@.len() == i,
                        forall|k: int|
                            0 <= k < i ==> #[trigger] json_model(out@[k]) == canonical(src[k]),
                {
                    assert(decreases_to!(*self => (*self)->Array_0));
                    assert(decreases_to!(*items => items@));
                    assert(decreases_to!(items@ => items@[i as int]));
                    let c = items[i].canonicalize();
                    out.push(c);
                }
                proof {
                    lemma_items_model(out@);
                    assert(items_model(out@) =~= canonical_items(src));
                }
                JsonValue::Array(out)
            },
            JsonValue::Object(members) => {
                let ghost src = members_model(members@);
                let ghost cm = canonical_members(src);
                proof {
                    lemma_members_model(members@);
                    lemma_canonical_members(src);
                }
                let mut out: Vec<(String, JsonValue)> = Vec::new();
                let n = members.len();
                assert(sort_members(cm.take(0)) =~= members_model(out@));
                for i in 0..n
                    invariant
                        n == members@.len(),
                        *self == JsonValue::Object(*members),
                        src == members_model(members@),
                        cm == canonical_members(src),
                        src.len() == n,
                        cm.len() == n,
                        forall|k: int|
                            0 <= k < n ==> #[trigger] src[k] == (
                                members@[k].0@,
                                json_model(members@[k].1),
                            ),
                        forall|k: int| 0 <= k < n ==> #[trigger] cm[k] == (src[k].0, canonical(src[k].1)),
                        members_model(out@) == sort_members(cm.take(i as int)),
                {
                    assert(decreases_to!(*self => (*self)->Object_0));
                    assert(decreases_to!(*members => members@));
                    assert(decreases_to!(members@ => members@[i as int]));
                    assert(decreases_to!(members@[i as int] => members@[i as int].1));
                    let c = members[i].1.canonicalize();
                    let k = members[i].0.clone();
                    insert_member_sorted(&mut out, (k, c));
                    assert(cm.take(i + 1).drop_last() =~= cm.take(i as int));
                }
                assert(cm.take(n as int) =~= cm);
                JsonValue::Object(out)
            },
        }
    }
}


/// Lower-case hexadecimal digit for `d < 16`.
pub open spec fn hex_digit(d: nat) -> char {
    if d < 10 {
        ((d + 48) as u8) as char
    } else {
        ((d + 87) as u8) as char
    }
}

/// How a character is written inside a JSON string: quote and backslash
/// escaped, the short escapes for backspace, form feed, line feed, carriage
/// return and tab, `\u00xx` for the other control characters below 0x20,
/// every other character as itself.
pub open spec fn escape_char(c: char) -> Seq<char> {
    let u = c as u32;
    if c == '"' {
        seq!['\\', '"']
    } else if c == '\\' {
        seq!['\\', '\\']
    } else if u == 8 {
        seq!['\\', 'b']
    } else if u == 12 {
        seq!['\\', 'f']
    } else if u == 10 {
        seq!['\\', 'n']
    } else if u == 13 {
        seq!['\\', 'r']
    } else if u == 9 {
        seq!['\\', 't']
    } else if u < 32 {
        seq!['\\', 'u', '0', '0', hex_digit((u / 16) as nat), hex_digit((u % 16) as nat)]
    } else {
        seq![c]
    }
}

pub open spec fn escaped(s: Seq<char>) -> Seq<char>
    decreases s.len(),
{
    if s.len() == 0 {
        Seq::empty()
    } else {
        escaped(s.drop_last()) + escape_char(s.last())
    }
}

/// A JSON string literal holding `s`.
pub open spec fn quoted(s: Seq<char>) -> Seq<char> {
    seq!['"'] + escaped(s) + seq!['"']
}

pub open spec fn number_text(n: NumberModel) -> Seq<char> {
    match n {
        NumberModel::PosInt(u) => decimal(u as nat),
        NumberModel::NegInt(i) => if i < 0 {
            seq!['-'] + decimal((-i) as nat)
        } else {
            decimal(i as nat)
        },
        NumberModel::Float(t) => t,
    }
}

/// Compact JSON text of a document: no whitespace, members and items in
/// the order the document holds them.
pub open spec fn json_text(j: Json) -> Seq<char>
    decreases j,
{
    match j {
        Json::Null => seq!['n', 'u', 'l', 'l'],
        Json::Bool(b) => if b {
            seq!['t', 'r', 'u', 'e']
        } else {
            seq!['f', 'a', 'l', 's', 'e']
        },
        Json::Number(n) => number_text(n),
        Json::Str(t) => quoted(t),
        Json::Array(items) => seq!['['] + items_text(items) + seq![']'],
        Json::Object(members) => seq!['{'] + members_text(members) + seq!['}'],
    }
}

pub open spec fn items_text(s: Seq<Json>) -> Seq<char>
    decreases s,
{
    if s.len() == 0 {
        Seq::empty()
    } else if s.len() == 1 {
        json_text(s[0])
    } else {
        items_text(s.subrange(0, s.len() - 1)) + seq![','] + json_text(s[s.len() - 1])
    }
}

pub open spec fn member_text(m: (Seq<char>, Json)) -> Seq<char>
    decreases m,
{
    quoted(m.0) + seq![':'] + json_text(m.1)
}

pub open spec fn members_text(s: Seq<(Seq<char>, Json)>) -> Seq<char>
    decreases s,
{
    if s.len() == 0 {
        Seq::empty()
    } else if s.len() == 1 {
        member_text(s[0])
    } else {
        members_text(s.subrange(0, s.len() - 1)) + seq![','] + member_text(s[s.len() - 1])
    }
}

fn hex_char(d: u32) -> (c: char)
    requires
        d < 16,
    ensures
        c == hex_digit(d as nat),
{
    if d < 10 {
        ((d as u8) + 48) as char
    } else {
        ((d as u8) + 87) as char
    }
}

/// Appends the JSON string literal for `s`.
pub fn write_quoted(out: &mut String, s: &str)
    ensures
        final(out)@ == old(out)@ + quoted(s@),
{
    let cs = chars_of(s);
    push_char(out, '"');
    let ghost start = out@;
    let n = cs.len();
    for i in 0..n
        invariant
            n == cs@.len(),
            cs@ == s@,
            out@ == start + escaped(cs@.take(i as int)),
    {
        let c = cs[i];
        let u = c as u32;
        if c == '"' {
            push_char(out, '\\');
            push_char(out, '"');
        } else if c == '\\' {
            push_char(out, '\\');
            push_char(out, '\\');
        } else if u == 8 {
            push_char(out, '\\');
            push_char(out, 'b');
        } else if u == 12 {
            push_char(out, '\\');
            push_char(out, 'f');
        } else if u == 10 {
            push_char(out, '\\');
            push_char(out, 'n');
        } else if u == 13 {
            push_char(out, '\\');
            push_char(out, 'r');
        } else if u == 9 {
            push_char(out, '\\');
            push_char(out, 't');
        } else if u < 32 {
            push_char(out, '\\');
            push_char(out, 'u');
            push_char(out, '0');
            push_char(out, '0');
            push_char(out, hex_char(u / 16));
            push_char(out, hex_char(u % 16));
        } else {
            push_char(out, c);
        }
        assert(cs@.take(i + 1).drop_last() =~= cs@.take(i as int));
        assert(out@ =~= start + escaped(cs@.take(i + 1)));
    }
    assert(cs@.take(n as int) =~= cs@);
    push_char(out, '"');
    assert(out@ =~= old(out)@ + quoted(s@));
}

fn write_number(out: &mut String, n: &JsonNumber)
    ensures
        final(out)@ == old(out)@ + number_text(number_model(*n)),
{
    match n {
        JsonNumber::PosInt(u) => append_decimal(out, *u),
        JsonNumber::NegInt(i) => {
            if *i < 0 {
                push_char(out, '-');
                let m: u64 = ((-(*i + 1)) as u64) + 1;
                append_decimal(out, m);
                assert(seq!['-'] + decimal(m as nat) =~= seq!['-'].add(decimal(m as nat)));
                assert(old(out)@ + (seq!['-'] + decimal(m as nat)) =~= old(out)@.push('-') + decimal(m as nat));
            } else {
                append_decimal(out, *i as u64);
            }
        },
        JsonNumber::Float(t) => {
            out.append(t.as_str());
        },
    }
}

/// Appends the compact JSON text of `v`.
pub fn write_json(out: &mut String, v: &JsonValue)
    ensures
        final(out)@ == old(out)@ + json_text(v@),
    decreases v,
{
    match v {
        JsonValue::Null => {
            out.append("null");
            proof {
                reveal_strlit("null");
            }
            assert(json_text(v@) =~= "null"@);
        },
        JsonValue::Bool(b) => {
            if *b {
                out.append("true");
                proof {
                    reveal_strlit("true");
                }
                assert(json_text(v@) =~= "true"@);
            } else {
                out.append("false");
                proof {
                    reveal_strlit("false");
                }
                assert(json_text(v@) =~= "false"@);
            }
        },
        JsonValue::Number(n) => write_number(out, n),
        JsonValue::String(t) => write_quoted(out, t.as_str()),
        JsonValue::Array(items) => {
            let ghost src = items_model(items@);
            proof {
                lemma_items_model(items@);
            }
            push_char(out, '[');
            let ghost start = out@;
            let n = items.len();
            for i in 0..n
                invariant
                    n == items@.len(),
                    *v == JsonValue::Array(*items),
                    src == items_model(items@),
                    src.len() == n,
                    forall|k: int| 0 <= k < n ==> #[trigger] src[k] == json_model(items@[k]),
                    out@ == start + items_text(src.take(i as int)),
            {
                assert(decreases_to!(*v => (*v)->Array_0));
                assert(decreases_to!(*items => items@));
                assert(decreases_to!(items@ => items@[i as int]));
                if i > 0 {
                    push_char(out, ',');
                }
                write_json(out, &items[i]);
                assert(src.take(i + 1).subrange(0, i as int) =~= src.take(i as int));
                assert(out@ =~= start + items_text(src.take(i + 1)));
            }
            assert(src.take(n as int) =~= src);
            push_char(out, ']');
            assert(out@ =~= old(out)@ + json_text(v@));
        },
        JsonValue::Object(members) => {
            let ghost src = members_model(members@);
            proof {
                lemma_members_model(members@);
            }
            push_char(out, '{');
            let ghost start = out@;
            let n = members.len();
            for i in 0..n
                invariant
                    n == members@.len(),
                    *v == JsonValue::Object(*members),
                    src == members_model(members@),
                    src.len() == n,
                    forall|k: int|
                        0 <= k < n ==> #[trigger] src[k] == (
                            members@[k].0@,
                            json_model(members@[k].1),
                        ),
                    out@ == start + members_text(src.take(i as int)),
            {
                assert(decreases_to!(*v => (*v)->Object_0));
                assert(decreases_to!(*members => members@));
                assert(decreases_to!(members@ => members@[i as int]));
                assert(decreases_to!(members@[i as int] => members@[i as int].1));
                if i > 0 {
                    push_char(out, ',');
                }
                let ghost before = out@;
                write_quoted(out, members[i].0.as_str());
                push_char(out, ':');
                write_json(out, &members[i].1);
                assert(member_text(src[i as int]) == quoted(src[i as int].0) + seq![':'] + json_text(
                    src[i as int].1,
                ));
                assert(out@ =~= before + member_text(src[i as int]));
                assert(src.take(i + 1).subrange(0, i as int) =~= src.take(i as int));
                assert(out@ =~= start + members_text(src.take(i + 1)));
            }
            assert(src.take(n as int) =~= src);
            push_char(out, '}');
            assert(out@ =~= old(out)@ + json_text(v@));
        },
    }
}

/// Canonical JSON text of `value`: compact, with the members of every
/// object sorted by name at every depth.
pub fn canonical_json(value: &JsonValue) -> (s: String)
    ensures
        s@ == json_text(canonical(value@)),
{
    let c = value.canonicalize();
    let mut s = String::new();
    write_json(&mut s, &c);
    assert(s@ =~= json_text(canonical(value@)));
    s
}

/// The value of the first member named `key`, when `j` is an object.
pub open spec fn member_value(j: Json, key: Seq<char>) -> Option<Json> {
    match j {
        Json::Object(members) => first_member(members, key),
        _ => None,
    }
}

pub open spec fn first_member(members: Seq<(Seq<char>, Json)>, key: Seq<char>) -> Option<Json>
    decreases members.len(),
{
    if members.len() == 0 {
        None
    } else if members[0].0 == key {
        Some(members[0].1)
    } else {
        first_member(members.drop_first(), key)
    }
}

/// The first member named `key` is the one at the first position that has
/// that name, and there is none when no position has it.
pub proof fn lemma_first_member(members: Seq<(Seq<char>, Json)>, key: Seq<char>, p: int)
    requires
        0 <= p <= members.len(),
        forall|j: int| 0 <= j < p ==> (#[trigger] members[j]).0 != key,
        p < members.len() ==> members[p].0 == key,
    ensures
        first_member(members, key) == (if p < members.len() {
            Some(members[p].1)
        } else {
            None::<Json>
        }),
    decreases members.len(),
{
    if members.len() > 0 && p > 0 {
        let t = members.drop_first();
        assert forall|j: int| 0 <= j < p - 1 implies (#[trigger] t[j]).0 != key by {
            assert(t[j] == members[j + 1]);
        }
        assert(members[0].0 != key);
        lemma_first_member(t, key, p - 1);
    }
}

impl JsonValue {
    /// The member named `key` when this is an object (`Value::get`).
    pub fn get(&self, key: &str) -> (r: Option<&JsonValue>)
        ensures
            match r {
                Some(v) => member_value(self@, key@) == Some(v@),
                None => member_value(self@, key@) is None,
            },
    {
        match self {
            JsonValue::Object(members) => {
                proof {
                    lemma_members_model(members@);
                }
                let ghost ms = members_model(members@);
                let n = members.len();
                let mut p: usize = 0;
                while p < n
                    invariant
                        n == members@.len(),
                        ms == members_model(members@),
                        *self == JsonValue::Object(*members),
                        ms.len() == n,
                        forall|k: int|
                            0 <= k < n ==> #[trigger] ms[k] == (
                                members@[k].0@,
                                json_model(members@[k].1),
                            ),
                        p <= n,
                        forall|j: int| 0 <= j < p ==> (#[trigger] ms[j]).0 != key@,
                    decreases n - p,
                {
                    assert(ms[p as int].0 == members@[p as int].0@);
                    if crate::text::str_eq(members[p].0.as_str(), key) {
                        proof {
                            lemma_first_member(ms, key@, p as int);
                        }
                        return Some(&members[p].1);
                    }
                    p = p + 1;
                }
                proof {
                    lemma_first_member(ms, key@, p as int);
                }
                None
            },
            _ => None,
        }
    }

    /// The text when this is a string (`Value::as_str`).
    pub fn as_str(&self) -> (r: Option<&str>)
        ensures
            match r {
                Some(t) => self@ == Json::Str(t@),
                None => !(self@ is Str),
            },
    {
        match self {
            JsonValue::String(t) => Some(t.as_str()),
            _ => None,
        }
    }
}

impl JsonValue {
    /// A deep copy of this document.
    pub fn duplicate(&self) -> (r: JsonValue)
        ensures
            r@ == self@,
        decreases self,
    {
        match self {
            JsonValue::Null => JsonValue::Null,
            JsonValue::Bool(b) => JsonValue::Bool(*b),
            JsonValue::Number(n) => JsonValue::Number(n.duplicate()),
            JsonValue::String(t) => JsonValue::String(t.clone()),
            JsonValue::Array(items) => {
                proof {
                    lemma_items_model(items@);
                }
                let mut out: Vec<JsonValue> = Vec::new();
                let n = items.len();
                for i in 0..n
                    invariant
                        n == items@.len(),
                        *self == JsonValue::Array(*items),
                        out@.len() == i,
                        forall|k: int|
                            0 <= k < i ==> #[trigger] json_model(out@[k]) == json_model(items@[k]),
                {
                    assert(decreases_to!(*self => (*self)->Array_0));
                    assert(decreases_to!(*items => items@));
                    assert(decreases_to!(items@ => items@[i as int]));
                    out.push(items[i].duplicate());
                }
                proof {
                    lemma_items_model(out@);
                    assert(items_model(out@) =~= items_model(items@));
                }
                JsonValue::Array(out)
            },
            JsonValue::Object(members) => {
                proof {
                    lemma_members_model(members@);
                }
                let mut out: Vec<(String, JsonValue)> = Vec::new();
                let n = members.len();
                for i in 0..n
                    invariant
                        n == members@.len(),
                        *self == JsonValue::Object(*members),
                        out@.len() == i,
                        forall|k: int|
                            0 <= k < i ==> (#[trigger] out@[k]).0@ == members@[k].0@ && json_model(
                                out@[k].1,
                            ) == json_model(members@[k].1),
                {
                    assert(decreases_to!(*self => (*self)->Object_0));
                    assert(decreases_to!(*members => members@));
                    assert(decreases_to!(members@ => members@[i as int]));
                    assert(decreases_to!(members@[i as int] => members@[i as int].1));
                    let v = members[i].1.duplicate();
                    out.push((members[i].0.clone(), v));
                }
                proof {
                    lemma_members_model(out@);
                    assert(members_model(out@) =~= members_model(members@));
                }
                JsonValue::Object(out)
            },
        }
    }
}

impl Clone for JsonValue {
    fn clone(&self) -> (r: Self)
        ensures
            r@ == self@,
    {
        self.duplicate()
    }
}

/// Members in non-decreasing order of name.
pub open spec fn members_sorted(s: Seq<(Seq<char>, Json)>) -> bool {
    forall|i: int, k: int| 0 <= i < k < s.len() ==> !key_lt(#[trigger] s[k].0, #[trigger] s[i].0)
}

/// Whether a document is in canonical form: every object, at every depth,
/// has its members in non-decreasing order of name.
pub open spec fn is_canonical(j: Json) -> bool
    decreases j,
{
    match j {
        Json::Array(items) => items_canonical(items),
        Json::Object(members) => members_sorted(members) && members_canonical(members),
        _ => true,
    }
}

pub open spec fn items_canonical(s: Seq<Json>) -> bool
    decreases s,
{
    s.len() == 0 || (items_canonical(s.subrange(0, s.len() - 1)) && is_canonical(s[s.len() - 1]))
}

pub open spec fn members_canonical(s: Seq<(Seq<char>, Json)>) -> bool
    decreases s,
{
    s.len() == 0 || (members_canonical(s.subrange(0, s.len() - 1)) && is_canonical(
        s[s.len() - 1].1,
    ))
}

proof fn lemma_items_canonical(s: Seq<Json>)
    ensures
        items_canonical(s) <==> forall|i: int| 0 <= i < s.len() ==> #[trigger] is_canonical(s[i]),
    decreases s.len(),
{
    if s.len() > 0 {
        let t = s.subrange(0, s.len() - 1);
        lemma_items_canonical(t);
        assert forall|i: int| 0 <= i < t.len() implies #[trigger] t[i] == s[i] by {}
        if forall|i: int| 0 <= i < s.len() ==> #[trigger] is_canonical(s[i]) {
            assert(is_canonical(s[s.len() - 1]));
            assert forall|i: int| 0 <= i < t.len() implies #[trigger] is_canonical(t[i]) by {
                assert(is_canonical(s[i]));
            }
        }
        if items_canonical(s) {
            assert forall|i: int| 0 <= i < s.len() implies #[trigger] is_canonical(s[i]) by {
                if i < t.len() {
                    assert(is_canonical(t[i]));
                }
            }
        }
    }
}

proof fn lemma_members_canonical(s: Seq<(Seq<char>, Json)>)
    ensures
        members_canonical(s) <==> forall|i: int|
            0 <= i < s.len() ==> #[trigger] is_canonical(s[i].1),
    decreases s.len(),
{
    if s.len() > 0 {
        let t = s.subrange(0, s.len() - 1);
        lemma_members_canonical(t);
        assert forall|i: int| 0 <= i < t.len() implies #[trigger] t[i] == s[i] by {}
        if forall|i: int| 0 <= i < s.len() ==> #[trigger] is_canonical(s[i].1) {
            assert(is_canonical(s[s.len() - 1].1));
            assert forall|i: int| 0 <= i < t.len() implies #[trigger] is_canonical(t[i].1) by {
                assert(is_canonical(s[i].1));
            }
        }
        if members_canonical(s) {
            assert forall|i: int| 0 <= i < s.len() implies #[trigger] is_canonical(s[i].1) by {
                if i < t.len() {
                    assert(is_canonical(t[i].1));
                }
            }
        }
    }
}

/// The order on names is irreflexive.
pub proof fn lemma_key_lt_irreflexive(a: Seq<char>)
    ensures
        !key_lt(a, a),
    decreases a.len(),
{
    if a.len() > 0 {
        lemma_key_lt_irreflexive(a.drop_first());
    }
}

/// The order on names is transitive.
pub proof fn lemma_key_lt_transitive(a: Seq<char>, b: Seq<char>, c: Seq<char>)
    requires
        key_lt(a, b),
        key_lt(b, c),
    ensures
        key_lt(a, c),
    decreases a.len(),
{
    if a.len() > 0 && b.len() > 0 && c.len() > 0 && a[0] == b[0] && b[0] == c[0] {
        lemma_key_lt_transitive(a.drop_first(), b.drop_first(), c.drop_first());
    }
}

/// The order on names is total on distinct names.
pub proof fn lemma_key_lt_total(a: Seq<char>, b: Seq<char>)
    requires
        a != b,
    ensures
        key_lt(a, b) || key_lt(b, a),
    decreases a.len(),
{
    if a.len() > 0 && b.len() > 0 {
        if a[0] == b[0] {
            if a.drop_first() == b.drop_first() {
                assert(a =~= seq![a[0]] + a.drop_first());
                assert(b =~= seq![b[0]] + b.drop_first());
            }
            lemma_key_lt_total(a.drop_first(), b.drop_first());
        } else {
            vstd::utf8::char_u32_cast(a[0], a[0] as u32);
            vstd::utf8::char_u32_cast(b[0], b[0] as u32);
            assert((a[0] as u32) != (b[0] as u32));
        }
    } else if a.len() == 0 && b.len() == 0 {
        assert(a =~= b);
    }
}

proof fn lemma_insert_member_shape(s: Seq<(Seq<char>, Json)>, e: (Seq<char>, Json)) -> (p: int)
    ensures
        0 <= p <= s.len(),
        insert_member(s, e) == s.insert(p, e),
        forall|j: int| 0 <= j < p ==> !key_lt(e.0, #[trigger] s[j].0),
        p < s.len() ==> key_lt(e.0, s[p].0),
    decreases s.len(),
{
    if s.len() == 0 {
        assert(s.insert(0, e) =~= seq![e]);
        0
    } else if key_lt(e.0, s[0].0) {
        assert(s.insert(0, e) =~= seq![e] + s);
        0
    } else {
        let t = s.drop_first();
        let q = lemma_insert_member_shape(t, e);
        assert(s.insert(q + 1, e) =~= seq![s[0]] + t.insert(q, e));
        assert forall|j: int| 0 <= j < q + 1 implies !key_lt(e.0, #[trigger] s[j].0) by {
            if j > 0 {
                assert(s[j] == t[j - 1]);
            }
        }
        q + 1
    }
}

proof fn lemma_insert_member_sorted(s: Seq<(Seq<char>, Json)>, e: (Seq<char>, Json))
    requires
        members_sorted(s),
    ensures
        members_sorted(insert_member(s, e)),
        insert_member(s, e).to_multiset() == s.to_multiset().insert(e),
{
    broadcast use vstd::seq_lib::group_to_multiset_ensures;

    let p = lemma_insert_member_shape(s, e);
    let r = s.insert(p, e);
    assert forall|i: int, k: int| 0 <= i < k < r.len() implies !key_lt(
        #[trigger] r[k].0,
        #[trigger] r[i].0,
    ) by {
        if i < p && k < p {
            assert(r[i] == s[i] && r[k] == s[k]);
        } else if i < p && k == p {
            assert(r[i] == s[i] && r[k] == e);
        } else if i < p && k > p {
            assert(r[i] == s[i] && r[k] == s[k - 1]);
        } else if i == p {
            assert(r[i] == e && r[k] == s[k - 1]);
            if key_lt(s[k - 1].0, e.0) {
                lemma_key_lt_transitive(s[k - 1].0, e.0, s[p].0);
                if k - 1 > p {
                    assert(!key_lt(s[k - 1].0, s[p].0));
                } else {
                    lemma_key_lt_irreflexive(s[p].0);
                }
            }
        } else {
            assert(r[i] == s[i - 1] && r[k] == s[k - 1]);
        }
    }
}

/// Sorting members puts them in non-decreasing order of name and only
/// reorders them.
pub proof fn lemma_sort_members(s: Seq<(Seq<char>, Json)>)
    ensures
        members_sorted(sort_members(s)),
        sort_members(s).to_multiset() == s.to_multiset(),
    decreases s.len(),
{
    broadcast use vstd::seq_lib::group_to_multiset_ensures;

    if s.len() > 0 {
        lemma_sort_members(s.drop_last());
        lemma_insert_member_sorted(sort_members(s.drop_last()), s.last());
        assert(s =~= s.drop_last().push(s.last()));
    }
}

/// Sorting members that are already sorted changes nothing.
pub proof fn lemma_sort_members_sorted_identity(s: Seq<(Seq<char>, Json)>)
    requires
        members_sorted(s),
    ensures
        sort_members(s) == s,
    decreases s.len(),
{
    if s.len() > 0 {
        let d = s.drop_last();
        assert(members_sorted(d)) by {
            assert forall|i: int, k: int| 0 <= i < k < d.len() implies !key_lt(
                #[trigger] d[k].0,
                #[trigger] d[i].0,
            ) by {
                assert(d[i] == s[i] && d[k] == s[k]);
            }
        }
        lemma_sort_members_sorted_identity(d);
        let p = lemma_insert_member_shape(d, s.last());
        if p < d.len() {
            assert(d[p] == s[p]);
            assert(!key_lt(s[s.len() - 1].0, s[p].0));
        }
        assert(d.insert(d.len() as int, s.last()) =~= s);
    }
}

/// Canonicalization gives a document in canonical form: at every depth,
/// the members of every object are in non-decreasing order of name.
pub proof fn lemma_canonical_is_canonical(j: Json)
    ensures
        is_canonical(canonical(j)),
    decreases j,
{
    broadcast use vstd::seq_lib::group_to_multiset_ensures;

    match j {
        Json::Array(items) => {
            lemma_canonical_items(items);
            let c = canonical_items(items);
            assert forall|i: int| 0 <= i < c.len() implies #[trigger] is_canonical(c[i]) by {
                lemma_canonical_is_canonical(items[i]);
            }
            lemma_items_canonical(c);
        },
        Json::Object(members) => {
            lemma_canonical_members(members);
            let cm = canonical_members(members);
            assert forall|i: int| 0 <= i < cm.len() implies #[trigger] is_canonical(cm[i].1) by {
                lemma_canonical_is_canonical(members[i].1);
            }
            lemma_sort_members(cm);
            let sm = sort_members(cm);
            assert forall|i: int| 0 <= i < sm.len() implies #[trigger] is_canonical(sm[i].1) by {
                assert(sm.contains(sm[i]));
                assert(sm.to_multiset().count(sm[i]) > 0);
                assert(cm.contains(sm[i]));
                let k = choose|k: int| 0 <= k < cm.len() && cm[k] == sm[i];
                assert(is_canonical(cm[k].1));
            }
            lemma_members_canonical(sm);
        },
        _ => {},
    }
}

/// A document already in canonical form is its own canonical form.
pub proof fn lemma_canonical_fixes_canonical(j: Json)
    requires
        is_canonical(j),
    ensures
        canonical(j) == j,
    decreases j,
{
    match j {
        Json::Array(items) => {
            lemma_items_canonical(items);
            lemma_canonical_items(items);
            assert forall|i: int| 0 <= i < items.len() implies #[trigger] canonical(items[i])
                == items[i] by {
                lemma_canonical_fixes_canonical(items[i]);
            }
            assert(canonical_items(items) =~= items);
        },
        Json::Object(members) => {
            lemma_members_canonical(members);
            lemma_canonical_members(members);
            assert forall|i: int| 0 <= i < members.len() implies #[trigger] canonical(
                members[i].1,
            ) == members[i].1 by {
                lemma_canonical_fixes_canonical(members[i].1);
            }
            assert(canonical_members(members) =~= members);
            lemma_sort_members_sorted_identity(members);
        },
        _ => {},
    }
}

/// Canonicalizing twice is canonicalizing once.
pub proof fn lemma_canonical_idempotent(j: Json)
    ensures
        canonical(canonical(j)) == canonical(j),
{
    lemma_canonical_is_canonical(j);
    lemma_canonical_fixes_canonical(canonical(j));
}

/// Canonicalizing an object keeps its members, each with its value
/// canonicalized, and only reorders them by name.
pub proof fn lemma_canonical_reorders_members(members: Seq<(Seq<char>, Json)>)
    ensures
        canonical(Json::Object(members)) matches Json::Object(sorted) && members_sorted(sorted)
            && sorted.to_multiset() == canonical_members(members).to_multiset(),
{
    lemma_sort_members(canonical_members(members));
}

/// No two members share a name.
pub open spec fn names_distinct(s: Seq<(Seq<char>, Json)>) -> bool {
    forall|i: int, k: int| 0 <= i < k < s.len() ==> #[trigger] s[i].0 != #[trigger] s[k].0
}

proof fn lemma_same_members_names_distinct(a: Seq<(Seq<char>, Json)>, b: Seq<(Seq<char>, Json)>)
    requires
        a.to_multiset() == b.to_multiset(),
        names_distinct(a),
    ensures
        names_distinct(b),
{
    broadcast use vstd::seq_lib::group_to_multiset_ensures;

    assert forall|i: int, k: int| 0 <= i < k < b.len() implies #[trigger] b[i].0 != #[trigger] b[k].0 by {
        if b[i].0 == b[k].0 {
            assert(b.contains(b[i]));
            assert(b.to_multiset().count(b[i]) > 0);
            assert(a.contains(b[i]));
            let p = choose|p: int| 0 <= p < a.len() && a[p] == b[i];
            if b[i] == b[k] {
                let bk = b.remove(k);
                assert(bk[i] == b[i]);
                assert(bk.contains(b[i]));
                assert(bk.to_multiset().count(b[i]) > 0);
                let ap = a.remove(p);
                assert(ap.to_multiset() == bk.to_multiset());
                assert(ap.contains(b[i]));
                let q = choose|q: int| 0 <= q < ap.len() && ap[q] == b[i];
                if q < p {
                    assert(a[q] == b[i]);
                    assert(a[q].0 == a[p].0);
                } else {
                    assert(a[q + 1] == b[i]);
                    assert(a[p].0 == a[q + 1].0);
                }
            } else {
                assert(b.contains(b[k]));
                assert(b.to_multiset().count(b[k]) > 0);
                assert(a.contains(b[k]));
                let q = choose|q: int| 0 <= q < a.len() && a[q] == b[k];
                assert(p != q);
                if p < q {
                    assert(a[p].0 == a[q].0);
                } else {
                    assert(a[q].0 == a[p].0);
                }
            }
        }
    }
}

/// When the members of an object have distinct names, as the members of a
/// JSON object do, its canonical form has them in strictly increasing order
/// of name.
pub proof fn lemma_canonical_strictly_sorted(members: Seq<(Seq<char>, Json)>)
    requires
        names_distinct(members),
    ensures
        canonical(Json::Object(members)) matches Json::Object(sorted) && members_strictly_sorted(
            sorted,
        ),
{
    let cm = canonical_members(members);
    lemma_canonical_members(members);
    assert(names_distinct(cm)) by {
        assert forall|i: int, k: int| 0 <= i < k < cm.len() implies #[trigger] cm[i].0
            != #[trigger] cm[k].0 by {
            assert(cm[i].0 == members[i].0 && cm[k].0 == members[k].0);
        }
    }
    lemma_sort_members(cm);
    let sorted = sort_members(cm);
    lemma_same_members_names_distinct(cm, sorted);
    assert forall|i: int, k: int| 0 <= i < k < sorted.len() implies key_lt(
        #[trigger] sorted[i].0,
        #[trigger] sorted[k].0,
    ) by {
        lemma_key_lt_total(sorted[i].0, sorted[k].0);
    }
}

/// Members in strictly increasing order of name.
pub open spec fn members_strictly_sorted(s: Seq<(Seq<char>, Json)>) -> bool {
    forall|i: int, k: int| 0 <= i < k < s.len() ==> key_lt(#[trigger] s[i].0, #[trigger] s[k].0)
}

/// Whether no object, at any depth, has two members with one name, as in
/// the documents that a JSON parser gives.
pub open spec fn distinct_names(j: Json) -> bool
    decreases j,
{
    match j {
        Json::Array(items) => forall|i: int| 0 <= i < items.len() ==> distinct_names(#[trigger] items[i]),
        Json::Object(members) => names_distinct(members) && forall|i: int|
            0 <= i < members.len() ==> distinct_names(#[trigger] members[i].1),
        _ => true,
    }
}

/// Whether every object, at every depth, has its members in strictly
/// increasing order of name.
pub open spec fn strictly_canonical(j: Json) -> bool
    decreases j,
{
    match j {
        Json::Array(items) => forall|i: int|
            0 <= i < items.len() ==> strictly_canonical(#[trigger] items[i]),
        Json::Object(members) => members_strictly_sorted(members) && forall|i: int|
            0 <= i < members.len() ==> strictly_canonical(#[trigger] members[i].1),
        _ => true,
    }
}

/// Whether two documents are the same JSON document, up to the order of
/// the members of their objects: arrays item by item, objects name by
/// name, where no object has two members with one name.
pub open spec fn same_document(a: Json, b: Json) -> bool
    decreases a,
{
    match (a, b) {
        (Json::Array(x), Json::Array(y)) => x.len() == y.len() && forall|i: int|
            0 <= i < x.len() ==> same_document(#[trigger] x[i], y[i]),
        (Json::Object(x), Json::Object(y)) => {
            &&& names_distinct(x)
            &&& names_distinct(y)
            &&& forall|i: int|
                #![trigger x[i].1]
                0 <= i < x.len() ==> exists|k: int|
                    0 <= k < y.len() && #[trigger] y[k].0 == x[i].0 && same_document(
                        x[i].1,
                        y[k].1,
                    )
            &&& forall|k: int|
                #![trigger y[k].0]
                0 <= k < y.len() ==> exists|i: int| 0 <= i < x.len() && #[trigger] x[i].0 == y[k].0
        },
        _ => a == b,
    }
}

proof fn lemma_strictly_sorted_unique(s: Seq<(Seq<char>, Json)>, t: Seq<(Seq<char>, Json)>)
    requires
        members_strictly_sorted(s),
        members_strictly_sorted(t),
        forall|e: (Seq<char>, Json)| s.contains(e) <==> t.contains(e),
    ensures
        s == t,
    decreases s.len(),
{
    if s.len() == 0 {
        if t.len() > 0 {
            assert(t.contains(t[0]));
        }
        assert(s =~= t);
    } else {
        assert(s.contains(s[0]));
        let j = choose|j: int| 0 <= j < t.len() && t[j] == s[0];
        assert(t.contains(t[0]));
        let i = choose|i: int| 0 <= i < s.len() && s[i] == t[0];
        if j > 0 {
            assert(key_lt(t[0].0, t[j].0));
            if i == 0 {
                lemma_key_lt_irreflexive(s[0].0);
            } else {
                assert(key_lt(s[0].0, s[i].0));
                lemma_key_lt_transitive(s[0].0, s[i].0, s[0].0);
                lemma_key_lt_irreflexive(s[0].0);
            }
        }
        let (s1, t1) = (s.drop_first(), t.drop_first());
        assert forall|e: (Seq<char>, Json)| s1.contains(e) <==> t1.contains(e) by {
            if s1.contains(e) {
                let k = choose|k: int| 0 <= k < s1.len() && s1[k] == e;
                assert(s[k + 1] == e && key_lt(s[0].0, s[k + 1].0));
                lemma_key_lt_irreflexive(s[0].0);
                assert(t.contains(e));
                let m = choose|m: int| 0 <= m < t.len() && t[m] == e;
                assert(m != 0);
                assert(t1[m - 1] == e);
            }
            if t1.contains(e) {
                let k = choose|k: int| 0 <= k < t1.len() && t1[k] == e;
                assert(t[k + 1] == e && key_lt(t[0].0, t[k + 1].0));
                lemma_key_lt_irreflexive(t[0].0);
                assert(s.contains(e));
                let m = choose|m: int| 0 <= m < s.len() && s[m] == e;
                assert(m != 0);
                assert(s1[m - 1] == e);
            }
        }
        assert(members_strictly_sorted(s1)) by {
            assert forall|a: int, b: int| 0 <= a < b < s1.len() implies key_lt(
                #[trigger] s1[a].0,
                #[trigger] s1[b].0,
            ) by {
                assert(s1[a] == s[a + 1] && s1[b] == s[b + 1]);
            }
        }
        assert(members_strictly_sorted(t1)) by {
            assert forall|a: int, b: int| 0 <= a < b < t1.len() implies key_lt(
                #[trigger] t1[a].0,
                #[trigger] t1[b].0,
            ) by {
                assert(t1[a] == t[a + 1] && t1[b] == t[b + 1]);
            }
        }
        lemma_strictly_sorted_unique(s1, t1);
        assert(s =~= seq![s[0]] + s1);
        assert(t =~= seq![t[0]] + t1);
    }
}

proof fn lemma_canonical_members_strictly_sorted(x: Seq<(Seq<char>, Json)>)
    requires
        names_distinct(x),
    ensures
        members_strictly_sorted(sort_members(canonical_members(x))),
{
    lemma_canonical_strictly_sorted(x);
    assert(canonical(Json::Object(x)) == Json::Object(sort_members(canonical_members(x))));
}

proof fn lemma_matching_members_same_elements(x: Seq<(Seq<char>, Json)>, y: Seq<(Seq<char>, Json)>)
    requires
        same_document(Json::Object(x), Json::Object(y)),
        forall|i: int, k: int|
            0 <= i < x.len() && 0 <= k < y.len() && same_document(x[i].1, y[k].1) ==> canonical(
                #[trigger] x[i].1,
            ) == canonical(#[trigger] y[k].1),
    ensures
        forall|e: (Seq<char>, Json)|
            canonical_members(x).contains(e) <==> canonical_members(y).contains(e),
{
    let ca = canonical_members(x);
    let cb = canonical_members(y);
    lemma_canonical_members(x);
    lemma_canonical_members(y);
    assert forall|e: (Seq<char>, Json)| ca.contains(e) implies cb.contains(e) by {
        let i = choose|i: int| 0 <= i < ca.len() && ca[i] == e;
        assert(ca[i].1 == canonical(x[i].1));
        let k = choose|k: int|
            0 <= k < y.len() && #[trigger] y[k].0 == x[i].0 && same_document(x[i].1, y[k].1);
        assert(cb[k] == e);
    }
    assert forall|e: (Seq<char>, Json)| cb.contains(e) implies ca.contains(e) by {
        let k = choose|k: int| 0 <= k < cb.len() && cb[k] == e;
        assert(cb[k].0 == y[k].0);
        let i = choose|i: int| 0 <= i < x.len() && #[trigger] x[i].0 == y[k].0;
        assert(ca[i].1 == canonical(x[i].1));
        let k2 = choose|k2: int|
            0 <= k2 < y.len() && #[trigger] y[k2].0 == x[i].0 && same_document(x[i].1, y[k2].1);
        if k2 < k {
            assert(y[k2].0 != y[k].0);
        } else if k < k2 {
            assert(y[k].0 != y[k2].0);
        }
        assert(ca[i] == e);
    }
}

proof fn lemma_sorted_same_elements(a: Seq<(Seq<char>, Json)>, b: Seq<(Seq<char>, Json)>)
    requires
        forall|e: (Seq<char>, Json)| a.contains(e) <==> b.contains(e),
    ensures
        forall|e: (Seq<char>, Json)| sort_members(a).contains(e) <==> sort_members(b).contains(e),
{
    broadcast use vstd::seq_lib::group_to_multiset_ensures;

    lemma_sort_members(a);
    lemma_sort_members(b);
    let sa = sort_members(a);
    let sb = sort_members(b);
    assert forall|e: (Seq<char>, Json)| sa.contains(e) <==> sb.contains(e) by {
        if sa.contains(e) {
            assert(sa.to_multiset().count(e) > 0);
            assert(a.contains(e));
            assert(b.to_multiset().count(e) > 0);
        }
        if sb.contains(e) {
            assert(sb.to_multiset().count(e) > 0);
            assert(b.contains(e));
            assert(a.to_multiset().count(e) > 0);
        }
    }
}

/// Objects whose members match name by name, with values of the same
/// canonical form, have the same canonical form.
proof fn lemma_canonical_matching_members(x: Seq<(Seq<char>, Json)>, y: Seq<(Seq<char>, Json)>)
    requires
        same_document(Json::Object(x), Json::Object(y)),
        forall|i: int, k: int|
            0 <= i < x.len() && 0 <= k < y.len() && same_document(x[i].1, y[k].1) ==> canonical(
                #[trigger] x[i].1,
            ) == canonical(#[trigger] y[k].1),
    ensures
        canonical(Json::Object(x)) == canonical(Json::Object(y)),
{
    lemma_matching_members_same_elements(x, y);
    lemma_sorted_same_elements(canonical_members(x), canonical_members(y));
    lemma_canonical_members_strictly_sorted(x);
    lemma_canonical_members_strictly_sorted(y);
    lemma_strictly_sorted_unique(
        sort_members(canonical_members(x)),
        sort_members(canonical_members(y)),
    );
}

/// Documents that are the same up to the order of the members of their
/// objects have the same canonical form, and so the same canonical text.
pub proof fn lemma_canonical_ignores_member_order(a: Json, b: Json)
    requires
        same_document(a, b),
    ensures
        canonical(a) == canonical(b),
        json_text(canonical(a)) == json_text(canonical(b)),
    decreases a,
{
    match (a, b) {
        (Json::Array(x), Json::Array(y)) => {
            lemma_canonical_items(x);
            lemma_canonical_items(y);
            assert forall|i: int| 0 <= i < x.len() implies #[trigger] canonical_items(x)[i]
                == canonical_items(y)[i] by {
                assert(x[i] == x[i]);
                lemma_canonical_ignores_member_order(x[i], y[i]);
            }
            assert(canonical_items(x) =~= canonical_items(y));
        },
        (Json::Object(x), Json::Object(y)) => {
            assert forall|i: int, k: int|
                0 <= i < x.len() && 0 <= k < y.len() && same_document(
                    x[i].1,
                    y[k].1,
                ) implies canonical(#[trigger] x[i].1) == canonical(#[trigger] y[k].1) by {
                lemma_canonical_ignores_member_order(x[i].1, y[k].1);
            }
            lemma_canonical_matching_members(x, y);
        },
        _ => {},
    }
}

/// When no object of a document has two members with one name, every
/// object of its canonical form, at every depth, has its members in
/// strictly increasing order of name.
pub proof fn lemma_canonical_strictly_canonical(j: Json)
    requires
        distinct_names(j),
    ensures
        strictly_canonical(canonical(j)),
    decreases j,
{
    broadcast use vstd::seq_lib::group_to_multiset_ensures;

    match j {
        Json::Array(items) => {
            lemma_canonical_items(items);
            let c = canonical_items(items);
            assert forall|i: int| 0 <= i < c.len() implies strictly_canonical(#[trigger] c[i]) by {
                lemma_canonical_strictly_canonical(items[i]);
            }
        },
        Json::Object(members) => {
            lemma_canonical_members(members);
            lemma_canonical_strictly_sorted(members);
            let cm = canonical_members(members);
            lemma_sort_members(cm);
            let sm = sort_members(cm);
            assert forall|i: int| 0 <= i < sm.len() implies strictly_canonical(#[trigger] sm[i].1) by {
                assert(sm.contains(sm[i]));
                assert(sm.to_multiset().count(sm[i]) > 0);
                assert(cm.contains(sm[i]));
                let k = choose|k: int| 0 <= k < cm.len() && cm[k] == sm[i];
                lemma_canonical_strictly_canonical(members[k].1);
            }
        },
        _ => {},
    }
}

/// Whether `a` comes before `b` in code point order, which is the order of
/// their UTF-8 bytes: at the first index where they differ `a` has the
/// smaller code point, or `a` is a proper prefix of `b`.
pub open spec fn code_point_before(a: Seq<char>, b: Seq<char>) -> bool {
    exists|p: int|
        0 <= p <= a.len() && p <= b.len() && #[trigger] a.subrange(0, p) == b.subrange(0, p) && (
        (p == a.len() && p < b.len()) || (p < a.len() && p < b.len() && (a[p] as u32) < (
        b[p] as u32)))
}

/// The order on member names is code point order.
pub proof fn lemma_key_lt_is_code_point_order(a: Seq<char>, b: Seq<char>)
    ensures
        key_lt(a, b) <==> code_point_before(a, b),
    decreases a.len(),
{
    if a.len() > 0 && b.len() > 0 {
        let (a1, b1) = (a.drop_first(), b.drop_first());
        lemma_key_lt_is_code_point_order(a1, b1);
        if key_lt(a, b) {
            if (a[0] as u32) < (b[0] as u32) {
                assert(a.subrange(0, 0) =~= b.subrange(0, 0));
            } else {
                let p = choose|p: int|
                    0 <= p <= a1.len() && p <= b1.len() && #[trigger] a1.subrange(0, p)
                        == b1.subrange(0, p) && ((p == a1.len() && p < b1.len()) || (p < a1.len()
                        && p < b1.len() && (a1[p] as u32) < (b1[p] as u32)));
                assert(a.subrange(0, p + 1) =~= seq![a[0]] + a1.subrange(0, p));
                assert(b.subrange(0, p + 1) =~= seq![b[0]] + b1.subrange(0, p));
                assert(a.subrange(0, p + 1) == b.subrange(0, p + 1));
            }
        }
        if code_point_before(a, b) {
            let p = choose|p: int|
                0 <= p <= a.len() && p <= b.len() && #[trigger] a.subrange(0, p) == b.subrange(0, p)
                    && ((p == a.len() && p < b.len()) || (p < a.len() && p < b.len() && (
                    a[p] as u32) < (b[p] as u32)));
            if p > 0 {
                assert(a[0] == a.subrange(0, p)[0]);
                assert(b[0] == b.subrange(0, p)[0]);
                assert(a1.subrange(0, p - 1) =~= a.subrange(0, p).drop_first());
                assert(b1.subrange(0, p - 1) =~= b.subrange(0, p).drop_first());
                assert(a1.subrange(0, p - 1) == b1.subrange(0, p - 1));
                assert(code_point_before(a1, b1));
            }
        }
    } else if a.len() == 0 && b.len() > 0 {
        assert(a.subrange(0, 0) =~= b.subrange(0, 0));
    } else if code_point_before(a, b) {
        let p = choose|p: int|
            0 <= p <= a.len() && p <= b.len() && #[trigger] a.subrange(0, p) == b.subrange(0, p) && (
            (p == a.len() && p < b.len()) || (p < a.len() && p < b.len() && (a[p] as u32) < (
            b[p] as u32)));
    }
}

/// The canonical form of an object whose members have distinct names lists
/// them in code point order of their names, the order of their UTF-8 bytes.
pub proof fn lemma_canonical_members_in_code_point_order(members: Seq<(Seq<char>, Json)>)
    requires
        names_distinct(members),
    ensures
        canonical(Json::Object(members)) matches Json::Object(sorted) && forall|i: int, k: int|
            0 <= i < k < sorted.len() ==> code_point_before(
                #[trigger] sorted[i].0,
                #[trigger] sorted[k].0,
            ),
{
    lemma_canonical_strictly_sorted(members);
    let sorted = canonical(Json::Object(members))->Object_0;
    assert forall|i: int, k: int| 0 <= i < k < sorted.len() implies code_point_before(
        #[trigger] sorted[i].0,
        #[trigger] sorted[k].0,
    ) by {
        lemma_key_lt_is_code_point_order(sorted[i].0, sorted[k].0);
    }
}

} // verus!
