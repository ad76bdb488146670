//! The parser inverts the serializer: the canonical text of a JSON value
//! parses back to that very value.  Together with the value-level laws this
//! closes the loop from a node through text and back.

use vstd::prelude::*;

use crate::json::JsonV;
use crate::parse::esc_short;
use crate::parse::hex_val;
use crate::parse::is_ws;
use crate::parse::sp_elems;
use crate::parse::sp_json;
use crate::parse::sp_members;
use crate::parse::sp_string;
use crate::parse::sp_value;
use crate::parse::sp_ws;
use crate::ser::esc_char;
use crate::ser::esc_str;
use crate::ser::hex_lower;
use crate::ser::ser_items;
use crate::ser::ser_json;
use crate::ser::ser_members;
use crate::ser::ser_string;

verus! {

broadcast use vstd::seq::group_seq_axioms;

/// A value the grammar can read back: every number token would run into
/// the character after it, so the law covers values without raw numbers —
/// the encoder never produces one.
pub open spec fn parseable(j: JsonV) -> bool
    decreases j, 1int,
{
    match j {
        JsonV::Null => true,
        JsonV::Bool(_) => true,
        JsonV::Num(_) => false,
        JsonV::Str(_) => true,
        JsonV::Arr(a) => parseable_list(a),
        JsonV::Obj(m) => parseable_members(m),
    }
}

pub open spec fn parseable_list(s: Seq<JsonV>) -> bool
    decreases s, 0int,
{
    if s.len() == 0 {
        true
    } else {
        parseable(s[0]) && parseable_list(s.subrange(1, s.len() as int))
    }
}

pub open spec fn parseable_members(s: Seq<(Seq<char>, JsonV)>) -> bool
    decreases s, 0int,
{
    if s.len() == 0 {
        true
    } else {
        parseable(s[0].1) && parseable_members(s.subrange(1, s.len() as int))
    }
}

/// The escaped form of a string can be peeled one character at a time.
proof fn lemma_esc_str_first(s: Seq<char>)
    requires
        s.len() > 0,
    ensures
        esc_str(s) == esc_char(s[0]) + esc_str(s.subrange(1, s.len() as int)),
    decreases s.len(),
{
    if s.len() == 1 {
        assert(s.drop_last() =~= Seq::<char>::empty());
        assert(esc_str(Seq::<char>::empty()) == Seq::<char>::empty());
        assert(s.subrange(1, 1) =~= Seq::<char>::empty());
        assert(s.last() == s[0]);
        assert(esc_str(s) =~= esc_char(s[0]) + esc_str(s.subrange(1, s.len() as int)));
    } else {
        lemma_esc_str_first(s.drop_last());
        assert(s.drop_last()[0] == s[0]);
        assert(s.drop_last().subrange(1, s.len() - 1) =~= s.subrange(1, s.len() as int).drop_last());
        assert(s.subrange(1, s.len() as int).last() == s.last());
        assert(esc_str(s) == esc_str(s.drop_last()) + esc_char(s.last()));
        assert(esc_char(s[0]) + esc_str(s.subrange(1, s.len() as int)) =~= (esc_char(s[0])
            + esc_str(s.drop_last().subrange(1, s.len() - 1))) + esc_char(s.last()));
        assert(esc_str(s) =~= esc_char(s[0]) + esc_str(s.subrange(1, s.len() as int)));
    }
}

/// No escape sequence begins with a quote, and none is empty.
proof fn lemma_esc_char_shape(c: char)
    ensures
        esc_char(c).len() == 1 || esc_char(c).len() == 2 || esc_char(c).len() == 6,
        esc_char(c)[0] != '"',
        esc_char(c).len() == 1 ==> esc_char(c)[0] == c && c != '"' && c != '\\' && (c as u32)
            >= 0x20,
        esc_char(c).len() >= 2 ==> esc_char(c)[0] == '\\',
        esc_char(c).len() == 6 ==> (c as u32) < 0x20 && 0 <= (c as int) < 0x20,
{
}

/// Reading the serialized body of a string yields the string back.
proof fn lemma_parse_esc(body: Seq<char>, p: Seq<char>, q: Seq<char>)
    ensures
        sp_string(p + (esc_str(body) + seq!['"']) + q, p.len() as int) == Option::Some(
            (body, (p.len() + esc_str(body).len() + 1) as int),
        ),
    decreases body.len(),
{
    let s = p + (esc_str(body) + seq!['"']) + q;
    if body.len() == 0 {
        assert(esc_str(body) == Seq::<char>::empty());
        assert(s[p.len() as int] == '"');
        assert(sp_string(s, p.len() as int) == Option::Some(
            (Seq::<char>::empty(), (p.len() + 1) as int),
        ));
        assert(body =~= Seq::<char>::empty());
    } else {
        let c = body[0];
        let rest = body.subrange(1, body.len() as int);
        lemma_esc_str_first(body);
        lemma_esc_char_shape(c);
        let e = esc_char(c);
        let p2 = p + e;
        assert(p2 + (esc_str(rest) + seq!['"']) + q =~= s);
        lemma_parse_esc(rest, p2, q);
        let i = p.len() as int;
        assert forall|x: int| 0 <= x < e.len() implies s[i + x] == e[x] by {}
        if e.len() == 1 {
            assert(s[i] == c);
            assert(s[i] != '"' && s[i] != '\\' && (s[i] as u32) >= 0x20);
            assert(sp_string(s, i) == (match sp_string(s, i + 1) {
                Option::Some((r, j)) => Option::Some((seq![s[i]] + r, j)),
                Option::None => Option::None,
            }));
            assert(seq![c] + rest =~= body);
        } else if e.len() == 2 {
            assert(s[i] == '\\');
            assert(esc_short(s[i + 1]) == Option::Some(c));
            assert(i + 2 <= s.len());
            assert(s[i + 1] != 'u');
            assert(sp_string(s, i) == (match sp_string(s, i + 2) {
                Option::Some((r, j)) => Option::Some((seq![c] + r, j)),
                Option::None => Option::None,
            }));
            assert(seq![c] + rest =~= body);
        } else {
            let ci = c as int;
            assert(0 <= ci < 0x20);
            assert(s[i] == '\\' && s[i + 1] == 'u' && s[i + 2] == '0' && s[i + 3] == '0');
            assert(s[i + 4] == hex_lower(ci / 16) && s[i + 5] == hex_lower(ci % 16));
            assert(hex_val('0') == 0);
            lemma_hex_round(ci / 16);
            lemma_hex_round(ci % 16);
            let code = hex_val(s[i + 2]) * 4096 + hex_val(s[i + 3]) * 256 + hex_val(s[i + 4]) * 16
                + hex_val(s[i + 5]);
            assert(code == ci);
            assert(code as u32 == c as u32);
            assert(((code as u32) as char) == c) by {
                vstd::utf8::char_u32_cast(c, code as u32);
            }
            assert(i + 6 <= s.len());
            assert(sp_string(s, i) == (match sp_string(s, i + 6) {
                Option::Some((r, j)) => Option::Some((seq![(code as u32) as char] + r, j)),
                Option::None => Option::None,
            }));
            assert(seq![c] + rest =~= body);
        }
    }
}

/// A lowercase hex digit reads back as its value.
proof fn lemma_hex_round(d: int)
    requires
        0 <= d < 16,
    ensures
        hex_val(hex_lower(d)) == d,
{
}

/// Serialized text never begins with whitespace or a delimiter.
proof fn lemma_ser_first(j: JsonV)
    requires
        parseable(j),
    ensures
        ser_json(j).len() >= 1,
        !is_ws(ser_json(j)[0]),
        ser_json(j)[0] != ']',
        ser_json(j)[0] != '}',
        ser_json(j)[0] != ',',
        ser_json(j)[0] != ':',
{
    match j {
        JsonV::Null => {
        },
        JsonV::Bool(b) => {
        },
        JsonV::Num(_) => {
        },
        JsonV::Str(s) => {
            assert(ser_json(j)[0] == '"');
        },
        JsonV::Arr(a) => {
            assert(ser_json(j)[0] == '[');
        },
        JsonV::Obj(m) => {
            assert(ser_json(j)[0] == '{');
        },
    }
}

/// Skipping whitespace at a non-whitespace character goes nowhere.
proof fn lemma_ws_stop(s: Seq<char>, i: int)
    requires
        0 <= i,
        i < s.len() ==> !is_ws(s[i]),
    ensures
        sp_ws(s, i) == i,
{
}

/// The text of the elements of a non-empty array, brackets excluded.
pub open spec fn items_text(a: Seq<JsonV>) -> Seq<char>
    recommends
        a.len() >= 1,
{
    ser_json(a[0]) + ser_items(a.subrange(1, a.len() as int))
}

/// The text of the members of a non-empty object, braces excluded.
pub open spec fn members_text(m: Seq<(Seq<char>, JsonV)>) -> Seq<char>
    recommends
        m.len() >= 1,
{
    ser_string(m[0].0) + seq![':'] + ser_json(m[0].1) + ser_members(m.subrange(1, m.len() as int))
}

/// Reading the canonical text of a value yields the value back.
proof fn lemma_parse_ser(j: JsonV, p: Seq<char>, q: Seq<char>)
    requires
        parseable(j),
    ensures
        sp_value(p + ser_json(j) + q, p.len() as int) == Option::Some(
            (j, (p.len() + ser_json(j).len()) as int),
        ),
    decreases j, 1int,
{
    match j {
        JsonV::Null => lemma_parse_ser_atom(j, p, q),
        JsonV::Bool(_) => lemma_parse_ser_atom(j, p, q),
        JsonV::Num(_) => (),
        JsonV::Str(_) => lemma_parse_ser_str(j, p, q),
        JsonV::Arr(_) => lemma_parse_ser_arr(j, p, q),
        JsonV::Obj(_) => lemma_parse_ser_obj(j, p, q),
    }
}

/// The atom cases: `null`, `true` and `false`.
#[verifier::rlimit(100)]
proof fn lemma_parse_ser_atom(j: JsonV, p: Seq<char>, q: Seq<char>)
    requires
        j is Null || j is Bool,
    ensures
        sp_value(p + ser_json(j) + q, p.len() as int) == Option::Some(
            (j, (p.len() + ser_json(j).len()) as int),
        ),
{
    let t = ser_json(j);
    let s = p + t + q;
    let i = p.len() as int;
    assert forall|x: int| 0 <= x < t.len() implies s[i + x] == t[x] by {}
    lemma_ser_first(j);
    lemma_ws_stop(s, i);
    match j {
        JsonV::Null => {
            assert(s[i] == 'n' && s[i + 1] == 'u' && s[i + 2] == 'l' && s[i + 3] == 'l');
        },
        JsonV::Bool(b) => {
            if b {
                assert(s[i] == 't' && s[i + 1] == 'r' && s[i + 2] == 'u' && s[i + 3] == 'e');
            } else {
                assert(s[i] == 'f' && s[i + 1] == 'a' && s[i + 2] == 'l' && s[i + 3] == 's' && s[i
                    + 4] == 'e');
            }
        },
        _ => (),
    }
}

/// The string case.
#[verifier::rlimit(100)]
proof fn lemma_parse_ser_str(j: JsonV, p: Seq<char>, q: Seq<char>)
    requires
        j is Str,
    ensures
        sp_value(p + ser_json(j) + q, p.len() as int) == Option::Some(
            (j, (p.len() + ser_json(j).len()) as int),
        ),
{
    let t = ser_json(j);
    let s = p + t + q;
    let i = p.len() as int;
    assert forall|x: int| 0 <= x < t.len() implies s[i + x] == t[x] by {}
    lemma_ser_first(j);
    lemma_ws_stop(s, i);
    match j {
        JsonV::Str(body) => {
            assert(s[i] == '"');
            let p2 = p + seq!['"'];
            assert(p2 + (esc_str(body) + seq!['"']) + q =~= s);
            lemma_parse_esc(body, p2, q);
            assert(sp_string(s, i + 1) == Option::Some(
                (body, (p.len() + 1 + esc_str(body).len() + 1) as int),
            ));
            assert(t.len() == esc_str(body).len() + 2);
        },
        _ => (),
    }
}

/// The array case.
#[verifier::rlimit(100)]
proof fn lemma_parse_ser_arr(j: JsonV, p: Seq<char>, q: Seq<char>)
    requires
        j is Arr,
        parseable(j),
    ensures
        sp_value(p + ser_json(j) + q, p.len() as int) == Option::Some(
            (j, (p.len() + ser_json(j).len()) as int),
        ),
    decreases j, 0int,
{
    let t = ser_json(j);
    let s = p + t + q;
    let i = p.len() as int;
    assert forall|x: int| 0 <= x < t.len() implies s[i + x] == t[x] by {}
    lemma_ser_first(j);
    lemma_ws_stop(s, i);
    match j {
        JsonV::Arr(a) => {
            assert(s[i] == '[');
            if a.len() == 0 {
                assert(s[i + 1] == ']');
                lemma_ws_stop(s, i + 1);
                assert(sp_value(s, i) == Option::Some((JsonV::Arr(Seq::empty()), i + 2)));
                assert(JsonV::Arr(Seq::<JsonV>::empty()) == j) by {
                    assert(a =~= Seq::<JsonV>::empty());
                }
            } else {
                let p2 = p + seq!['['];
                assert(parseable(a[0]));
                lemma_ser_first(a[0]);
                assert(t == seq!['['] + items_text(a) + seq![']']);
                assert(p2 + (items_text(a) + seq![']']) + q =~= s);
                assert(s[i + 1] == items_text(a)[0]);
                assert(items_text(a)[0] == ser_json(a[0])[0]);
                lemma_ws_stop(s, i + 1);
                assert(sp_ws(s, i + 1) == i + 1);
                lemma_parse_items(a, p2, q);
                assert(sp_elems(s, i + 1) == Option::Some(
                    (a, (p2.len() + items_text(a).len() + 1) as int),
                ));
                assert(s[i + 1] != ']');
            }
        },
        _ => (),
    }
}

/// The object case.
#[verifier::rlimit(100)]
proof fn lemma_parse_ser_obj(j: JsonV, p: Seq<char>, q: Seq<char>)
    requires
        j is Obj,
        parseable(j),
    ensures
        sp_value(p + ser_json(j) + q, p.len() as int) == Option::Some(
            (j, (p.len() + ser_json(j).len()) as int),
        ),
    decreases j, 0int,
{
    let t = ser_json(j);
    let s = p + t + q;
    let i = p.len() as int;
    assert forall|x: int| 0 <= x < t.len() implies s[i + x] == t[x] by {}
    lemma_ser_first(j);
    lemma_ws_stop(s, i);
    match j {
        JsonV::Obj(m) => {
            assert(s[i] == '{');
            if m.len() == 0 {
                assert(s[i + 1] == '}');
                lemma_ws_stop(s, i + 1);
                assert(sp_value(s, i) == Option::Some((JsonV::Obj(Seq::empty()), i + 2)));
                assert(JsonV::Obj(Seq::<(Seq<char>, JsonV)>::empty()) == j) by {
                    assert(m =~= Seq::<(Seq<char>, JsonV)>::empty());
                }
            } else {
                let p2 = p + seq!['{'];
                assert(t == seq!['{'] + members_text(m) + seq!['}']);
                assert(p2 + (members_text(m) + seq!['}']) + q =~= s);
                assert(members_text(m)[0] == '"');
                assert(s[i + 1] == '"');
                lemma_ws_stop(s, i + 1);
                lemma_parse_mems(m, p2, q);
                assert(sp_members(s, i + 1) == Option::Some(
                    (m, (p2.len() + members_text(m).len() + 1) as int),
                ));
                assert(s[i + 1] != '}');
            }
        },
        _ => (),
    }
}

/// Reading serialized elements up to the closing bracket yields them back.
#[verifier::rlimit(100)]
proof fn lemma_parse_items(a: Seq<JsonV>, p: Seq<char>, q: Seq<char>)
    requires
        parseable_list(a),
        a.len() >= 1,
    ensures
        sp_elems(p + (items_text(a) + seq![']']) + q, p.len() as int) == Option::Some(
            (a, (p.len() + items_text(a).len() + 1) as int),
        ),
    decreases a, 0int,
{
    let s = p + (items_text(a) + seq![']']) + q;
    let i = p.len() as int;
    let rest = a.subrange(1, a.len() as int);
    let t0 = ser_json(a[0]);
    assert(parseable(a[0]));
    assert(p + t0 + (ser_items(rest) + seq![']'] + q) =~= s);
    lemma_parse_ser(a[0], p, ser_items(rest) + seq![']'] + q);
    lemma_ser_first(a[0]);
    let k = i + t0.len();
    assert(sp_value(s, i) == Option::Some((a[0], k)));
    assert forall|x: int| 0 <= x < items_text(a).len() implies s[i + x] == items_text(a)[x] by {}
    if rest.len() == 0 {
        assert(ser_items(rest) == Seq::<char>::empty());
        assert(items_text(a).len() == t0.len());
        assert(s[k] == ']');
        lemma_ws_stop(s, k);
        assert(sp_elems(s, i) == Option::Some((seq![a[0]], k + 1)));
        assert(seq![a[0]] =~= a);
    } else {
        assert(ser_items(rest) == seq![','] + ser_json(rest[0]) + ser_items(
            rest.subrange(1, rest.len() as int),
        ));
        assert(ser_items(rest) == seq![','] + items_text(rest)) by {
            assert(seq![','] + ser_json(rest[0]) + ser_items(rest.subrange(1, rest.len() as int))
                =~= seq![','] + items_text(rest));
        }
        assert(s[k] == ',');
        lemma_ws_stop(s, k);
        let p2 = p + t0 + seq![','];
        assert(p2 + (items_text(rest) + seq![']']) + q =~= s);
        lemma_parse_items(rest, p2, q);
        assert(sp_elems(s, k + 1) == Option::Some(
            (rest, (p2.len() + items_text(rest).len() + 1) as int),
        ));
        assert(sp_elems(s, i) == Option::Some(
            (seq![a[0]] + rest, (p2.len() + items_text(rest).len() + 1) as int),
        ));
        assert(seq![a[0]] + rest =~= a);
        assert(p2.len() + items_text(rest).len() + 1 == p.len() + items_text(a).len() + 1);
    }
}

/// The serialized form of a non-empty member list, in place.
pub open spec fn mem_s(m: Seq<(Seq<char>, JsonV)>, p: Seq<char>, q: Seq<char>) -> Seq<char> {
    p + (members_text(m) + seq!['}']) + q
}

/// The index just past the first member's key.
pub open spec fn mem_k(m: Seq<(Seq<char>, JsonV)>, p: Seq<char>) -> int
    recommends
        m.len() >= 1,
{
    (p.len() + ser_string(m[0].0).len()) as int
}

/// The index just past the first member's value.
pub open spec fn mem_k2(m: Seq<(Seq<char>, JsonV)>, p: Seq<char>) -> int
    recommends
        m.len() >= 1,
{
    mem_k(m, p) + 1 + ser_json(m[0].1).len()
}

/// Reading the first serialized member: its key, the colon, its value, and
/// the character that follows.
#[verifier::rlimit(100)]
proof fn lemma_parse_mems_first(m: Seq<(Seq<char>, JsonV)>, p: Seq<char>, q: Seq<char>)
    requires
        parseable_members(m),
        m.len() >= 1,
    ensures
        mem_s(m, p, q)[p.len() as int] == '"',
        sp_string(mem_s(m, p, q), p.len() as int + 1) == Option::Some((m[0].0, mem_k(m, p))),
        mem_s(m, p, q)[mem_k(m, p)] == ':',
        sp_value(mem_s(m, p, q), mem_k(m, p) + 1) == Option::Some((m[0].1, mem_k2(m, p))),
        m.len() == 1 ==> mem_s(m, p, q)[mem_k2(m, p)] == '}' && mem_k2(m, p) + 1 == p.len()
            + members_text(m).len() + 1,
        m.len() > 1 ==> mem_s(m, p, q)[mem_k2(m, p)] == ',' && mem_s(m, p, q)[mem_k2(m, p) + 1]
            == '"' && ser_members(m.subrange(1, m.len() as int)) == seq![','] + members_text(
            m.subrange(1, m.len() as int),
        ),
    decreases m, 0int,
{
    let s = mem_s(m, p, q);
    let i = p.len() as int;
    let rest = m.subrange(1, m.len() as int);
    let key = m[0].0;
    let v = m[0].1;
    let kt = ser_string(key);
    let vt = ser_json(v);
    assert(parseable(v));
    assert forall|x: int| 0 <= x < members_text(m).len() implies s[i + x] == members_text(
        m,
    )[x] by {}
    assert(s[i] == '"');
    let pk = p + seq!['"'];
    assert(pk + (esc_str(key) + seq!['"']) + q_after_key(m, q) =~= s) by {
        assert(members_text(m) =~= kt + (seq![':'] + vt + ser_members(rest)));
        assert(pk + (esc_str(key) + seq!['"']) + (seq![':'] + vt + ser_members(rest) + seq!['}']
            + q) =~= s);
        assert(q_after_key(m, q) =~= seq![':'] + vt + ser_members(rest) + seq!['}'] + q);
    }
    lemma_parse_esc(key, pk, q_after_key(m, q));
    let k = i + kt.len();
    assert(sp_string(s, i + 1) == Option::Some((key, k)));
    assert(s[k] == ':');
    let pv = p + kt + seq![':'];
    assert(pv + vt + (ser_members(rest) + seq!['}'] + q) =~= s);
    lemma_parse_ser(v, pv, ser_members(rest) + seq!['}'] + q);
    let k2 = k + 1 + vt.len();
    assert(sp_value(s, k + 1) == Option::Some((v, k2)));
    if rest.len() == 0 {
        assert(ser_members(rest) == Seq::<char>::empty());
        assert(s[k2] == '}');
    } else {
        assert(ser_members(rest) == seq![','] + ser_string(rest[0].0) + seq![':'] + ser_json(
            rest[0].1,
        ) + ser_members(rest.subrange(1, rest.len() as int)));
        assert(ser_members(rest) == seq![','] + members_text(rest)) by {
            assert(seq![','] + ser_string(rest[0].0) + seq![':'] + ser_json(rest[0].1)
                + ser_members(rest.subrange(1, rest.len() as int)) =~= seq![','] + members_text(
                rest,
            ));
        }
        assert(s[k2] == ',');
        assert(members_text(rest)[0] == '"');
        assert(s[k2 + 1] == '"');
    }
}

/// Reading serialized members up to the closing brace yields them back.
#[verifier::rlimit(100)]
proof fn lemma_parse_mems(m: Seq<(Seq<char>, JsonV)>, p: Seq<char>, q: Seq<char>)
    requires
        parseable_members(m),
        m.len() >= 1,
    ensures
        sp_members(p + (members_text(m) + seq!['}']) + q, p.len() as int) == Option::Some(
            (m, (p.len() + members_text(m).len() + 1) as int),
        ),
    decreases m, 1int,
{
    let s = mem_s(m, p, q);
    let i = p.len() as int;
    let rest = m.subrange(1, m.len() as int);
    let key = m[0].0;
    let v = m[0].1;
    let kt = ser_string(key);
    let vt = ser_json(v);
    lemma_parse_mems_first(m, p, q);
    let k = mem_k(m, p);
    let k2 = mem_k2(m, p);
    lemma_ws_stop(s, k);
    lemma_ws_stop(s, k2);
    if rest.len() == 0 {
        assert(sp_members(s, i) == Option::Some((seq![(key, v)], k2 + 1)));
        assert(seq![(key, v)] =~= m);
    } else {
        lemma_ws_stop(s, k2 + 1);
        let p2 = p + kt + seq![':'] + vt + seq![','];
        assert(p2 + (members_text(rest) + seq!['}']) + q =~= s);
        lemma_parse_mems(rest, p2, q);
        assert(sp_members(s, k2 + 1) == Option::Some(
            (rest, (p2.len() + members_text(rest).len() + 1) as int),
        ));
        assert(sp_members(s, i) == Option::Some(
            (seq![(key, v)] + rest, (p2.len() + members_text(rest).len() + 1) as int),
        ));
        assert(seq![(key, v)] + rest =~= m);
        assert(members_text(m).len() == kt.len() + 1 + vt.len() + ser_members(rest).len());
        assert(p2.len() + members_text(rest).len() + 1 == p.len() + members_text(m).len() + 1);
    }
}

/// The text that follows a member's key inside a serialized object.
pub open spec fn q_after_key(m: Seq<(Seq<char>, JsonV)>, q: Seq<char>) -> Seq<char>
    recommends
        m.len() >= 1,
{
    seq![':'] + ser_json(m[0].1) + ser_members(m.subrange(1, m.len() as int)) + seq!['}'] + q
}

/// A one-member list is parseable when its value is.
proof fn lemma_parseable_single(x: (Seq<char>, JsonV))
    requires
        parseable(x.1),
    ensures
        parseable_members(seq![x]),
{
    assert(seq![x].subrange(1, 1) =~= Seq::<(Seq<char>, JsonV)>::empty());
    assert(parseable_members(Seq::<(Seq<char>, JsonV)>::empty()));
}

/// Parseability of member lists is preserved by concatenation.
proof fn lemma_parseable_members_concat(a: Seq<(Seq<char>, JsonV)>, b: Seq<(Seq<char>, JsonV)>)
    requires
        parseable_members(a),
        parseable_members(b),
    ensures
        parseable_members(a + b),
    decreases a,
{
    if a.len() == 0 {
        assert(a + b =~= b);
    } else {
        assert((a + b).subrange(1, (a + b).len() as int) =~= a.subrange(1, a.len() as int) + b);
        lemma_parseable_members_concat(a.subrange(1, a.len() as int), b);
        assert((a + b)[0] == a[0]);
    }
}

/// Every encoded node is parseable: no raw number ever appears in one.
#[verifier::rlimit(100)]
proof fn lemma_enc_parseable(c: crate::model::ChatV)
    ensures
        parseable(crate::encode::enc_chat(c)),
    decreases c, 1int,
{
    let empty_m = Seq::<(Seq<char>, JsonV)>::empty();
    assert(parseable_members(empty_m));
    let seg0 = crate::encode::enc_content(c.value);
    assert(parseable_members(seg0)) by {
        match c.value {
            crate::model::ChatTypeV::String { text } => {
                lemma_parseable_single((crate::encode::k_text(), JsonV::Str(text)));
            },
            crate::model::ChatTypeV::Score { score } => {
                let sm = seq![
                    (crate::encode::k_name(), JsonV::Str(score.name)),
                    (crate::encode::k_objective(), JsonV::Str(score.objective)),
                    (crate::encode::k_value(), JsonV::Str(score.value)),
                ];
                assert(sm.subrange(1, 3) =~= seq![
                    (crate::encode::k_objective(), JsonV::Str(score.objective)),
                    (crate::encode::k_value(), JsonV::Str(score.value)),
                ]);
                assert(sm.subrange(1, 3).subrange(1, 2) =~= seq![
                    (crate::encode::k_value(), JsonV::Str(score.value)),
                ]);
                lemma_parseable_single((crate::encode::k_value(), JsonV::Str(score.value)));
                assert(parseable(JsonV::Str(score.name)));
                assert(parseable(JsonV::Str(score.objective)));
                assert(parseable_members(sm.subrange(1, 3)));
                assert(parseable_members(sm));
                lemma_parseable_single((crate::encode::k_score(), crate::encode::enc_score(score)));
            },
        }
    }
    assert(parseable_members(crate::encode::flag_pair(crate::encode::k_bold(), c.bold))) by {
        if c.bold {
            lemma_parseable_single((crate::encode::k_bold(), JsonV::Bool(true)));
        }
    }
    assert(parseable_members(crate::encode::flag_pair(crate::encode::k_italic(), c.italic))) by {
        if c.italic {
            lemma_parseable_single((crate::encode::k_italic(), JsonV::Bool(true)));
        }
    }
    assert(parseable_members(
        crate::encode::flag_pair(crate::encode::k_underlined(), c.underlined),
    )) by {
        if c.underlined {
            lemma_parseable_single((crate::encode::k_underlined(), JsonV::Bool(true)));
        }
    }
    assert(parseable_members(
        crate::encode::flag_pair(crate::encode::k_strikethrough(), c.strikethrough),
    )) by {
        if c.strikethrough {
            lemma_parseable_single((crate::encode::k_strikethrough(), JsonV::Bool(true)));
        }
    }
    assert(parseable_members(
        crate::encode::flag_pair(crate::encode::k_obfuscated(), c.obfuscated),
    )) by {
        if c.obfuscated {
            lemma_parseable_single((crate::encode::k_obfuscated(), JsonV::Bool(true)));
        }
    }
    assert(parseable_members(crate::encode::color_seg(c))) by {
        if !crate::color::is_default_color_v(c.color) {
            lemma_parseable_single((crate::encode::k_color(), JsonV::Str(c.color)));
        }
    }
    assert(parseable_members(crate::encode::insertion_seg(c))) by {
        match c.insertion {
            Option::Some(s) => lemma_parseable_single(
                (crate::encode::k_insertion(), JsonV::Str(s)),
            ),
            Option::None => (),
        }
    }
    assert(parseable_members(crate::encode::click_seg(c))) by {
        match c.click_event {
            Option::Some(e) => {
                let cm = seq![
                    (crate::encode::k_action(), JsonV::Str(e.action)),
                    (crate::encode::k_value(), JsonV::Str(e.value)),
                ];
                assert(cm.subrange(1, 2) =~= seq![
                    (crate::encode::k_value(), JsonV::Str(e.value)),
                ]);
                lemma_parseable_single((crate::encode::k_value(), JsonV::Str(e.value)));
                assert(parseable(JsonV::Str(e.action)));
                assert(parseable_members(cm));
                lemma_parseable_single((crate::encode::k_click_event(), crate::encode::enc_click(e)));
            },
            Option::None => (),
        }
    }
    assert(parseable_members(crate::encode::hover_seg(c))) by {
        match c.hover_event {
            Option::Some(h) => {
                assert(parseable(crate::encode::enc_sorc(h.value))) by {
                    match h.value {
                        crate::model::ChatOrStringV::String(_) => {
                        },
                        crate::model::ChatOrStringV::Chat(b) => {
                            lemma_enc_parseable(*b);
                        },
                    }
                }
                let hm = seq![
                    (crate::encode::k_action(), JsonV::Str(h.action)),
                    (crate::encode::k_value(), crate::encode::enc_sorc(h.value)),
                ];
                assert(hm.subrange(1, 2) =~= seq![
                    (crate::encode::k_value(), crate::encode::enc_sorc(h.value)),
                ]);
                lemma_parseable_single((crate::encode::k_value(), crate::encode::enc_sorc(h.value)));
                assert(parseable(JsonV::Str(h.action)));
                assert(parseable_members(hm));
                lemma_parseable_single(
                    (crate::encode::k_hover_event(), crate::encode::enc_hover(h)),
                );
            },
            Option::None => (),
        }
    }
    assert(parseable_members(crate::encode::extra_seg(c))) by {
        if c.extra.len() != 0 {
            lemma_enc_parseable_list(c.extra);
            lemma_parseable_single(
                (crate::encode::k_extra(), JsonV::Arr(crate::encode::enc_chats(c.extra))),
            );
        }
    }
    lemma_parseable_members_concat(
        seg0,
        crate::encode::flag_pair(crate::encode::k_bold(), c.bold),
    );
    lemma_parseable_members_concat(
        seg0 + crate::encode::flag_pair(crate::encode::k_bold(), c.bold),
        crate::encode::flag_pair(crate::encode::k_italic(), c.italic),
    );
    let p2 = seg0 + crate::encode::flag_pair(crate::encode::k_bold(), c.bold)
        + crate::encode::flag_pair(crate::encode::k_italic(), c.italic);
    lemma_parseable_members_concat(
        p2,
        crate::encode::flag_pair(crate::encode::k_underlined(), c.underlined),
    );
    let p3 = p2 + crate::encode::flag_pair(crate::encode::k_underlined(), c.underlined);
    lemma_parseable_members_concat(
        p3,
        crate::encode::flag_pair(crate::encode::k_strikethrough(), c.strikethrough),
    );
    let p4 = p3 + crate::encode::flag_pair(crate::encode::k_strikethrough(), c.strikethrough);
    lemma_parseable_members_concat(
        p4,
        crate::encode::flag_pair(crate::encode::k_obfuscated(), c.obfuscated),
    );
    let p5 = p4 + crate::encode::flag_pair(crate::encode::k_obfuscated(), c.obfuscated);
    lemma_parseable_members_concat(p5, crate::encode::color_seg(c));
    let p6 = p5 + crate::encode::color_seg(c);
    lemma_parseable_members_concat(p6, crate::encode::insertion_seg(c));
    let p7 = p6 + crate::encode::insertion_seg(c);
    lemma_parseable_members_concat(p7, crate::encode::click_seg(c));
    let p8 = p7 + crate::encode::click_seg(c);
    lemma_parseable_members_concat(p8, crate::encode::hover_seg(c));
    let p9 = p8 + crate::encode::hover_seg(c);
    lemma_parseable_members_concat(p9, crate::encode::extra_seg(c));
    assert(crate::encode::enc_pairs(c) == p9 + crate::encode::extra_seg(c));
}

/// Every list of encoded children is parseable.
proof fn lemma_enc_parseable_list(s: Seq<crate::model::ChatV>)
    ensures
        parseable_list(crate::encode::enc_chats(s)),
    decreases s, 0int,
{
    if s.len() == 0 {
        assert(crate::encode::enc_chats(s) == Seq::<JsonV>::empty());
        assert(parseable_list(Seq::<JsonV>::empty()));
    } else {
        let e = crate::encode::enc_chats(s);
        lemma_enc_parseable(s[0]);
        lemma_enc_parseable_list(s.subrange(1, s.len() as int));
        assert(e[0] == crate::encode::enc_chat(s[0]));
        assert(e.subrange(1, e.len() as int) =~= crate::encode::enc_chats(
            s.subrange(1, s.len() as int),
        ));
    }
}

/// The whole loop, from a node through text and back: the canonical text
/// of an encoded node parses to the encoded value, and that value decodes
/// to the node it came from.
pub proof fn lemma_text_round_trip(c: crate::model::ChatV)
    requires
        crate::laws::canonical(c),
    ensures
        sp_json(ser_json(crate::encode::enc_chat(c))) == Option::Some(
            crate::encode::enc_chat(c),
        ),
        crate::decode::dec_chat(crate::encode::enc_chat(c)) == Result::<
            crate::model::ChatV,
            crate::decode::DecodeErrorV,
        >::Ok(c),
{
    let j = crate::encode::enc_chat(c);
    let t = ser_json(j);
    lemma_enc_parseable(c);
    lemma_parse_ser(j, Seq::empty(), Seq::empty());
    assert(Seq::<char>::empty() + t + Seq::<char>::empty() =~= t);
    assert(sp_value(t, 0) == Option::Some((j, t.len() as int)));
    assert(sp_ws(t, t.len() as int) == t.len() as int);
    crate::laws::lemma_round_trip(c);
}

} // verus!
