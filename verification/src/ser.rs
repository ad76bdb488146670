//! Serialization of a JSON value to JSON text.  Strings are quoted with the
//! usual short escapes, other control characters as a lowercase `\u00..`
//! escape; arrays and objects are written compactly, members in order.

use vstd::prelude::*;

use crate::json::Json;
use crate::json::JsonV;
use crate::json::jsons_v;
use crate::json::lemma_jsons_v;
use crate::json::lemma_members_v;
use crate::json::members_v;
use crate::text::chars_to_string;
use crate::text::str_to_chars;

verus! {

broadcast use vstd::std_specs::vec::group_vec_axioms, vstd::seq::group_seq_axioms;

/// The lowercase hexadecimal digit for a value below sixteen.
pub open spec fn hex_lower(n: int) -> char {
    if n == 0 {
        '0'
    } else if n == 1 {
        '1'
    } else if n == 2 {
        '2'
    } else if n == 3 {
        '3'
    } else if n == 4 {
        '4'
    } else if n == 5 {
        '5'
    } else if n == 6 {
        '6'
    } else if n == 7 {
        '7'
    } else if n == 8 {
        '8'
    } else if n == 9 {
        '9'
    } else if n == 10 {
        'a'
    } else if n == 11 {
        'b'
    } else if n == 12 {
        'c'
    } else if n == 13 {
        'd'
    } else if n == 14 {
        'e'
    } else {
        'f'
    }
}

/// What one character of a string becomes inside quotes.
pub open spec fn esc_char(c: char) -> Seq<char> {
    if c == '"' {
        seq!['\\', '"']
    } else if c == '\\' {
        seq!['\\', '\\']
    } else if c == '\n' {
        seq!['\\', 'n']
    } else if c == '\r' {
        seq!['\\', 'r']
    } else if c == '\t' {
        seq!['\\', 't']
    } else if c == '\u{8}' {
        seq!['\\', 'b']
    } else if c == '\u{c}' {
        seq!['\\', 'f']
    } else if (c as u32) < 0x20 {
        seq!['\\', 'u', '0', '0', hex_lower(c as int / 16), hex_lower(c as int % 16)]
    } else {
        seq![c]
    }
}

/// The escaped body of a string.
pub open spec fn esc_str(s: Seq<char>) -> Seq<char>
    decreases s.len(),
{
    if s.len() == 0 {
        Seq::empty()
    } else {
        esc_str(s.drop_last()) + esc_char(s.last())
    }
}

/// A quoted, escaped string.
pub open spec fn ser_string(s: Seq<char>) -> Seq<char> {
    seq!['"'] + esc_str(s) + seq!['"']
}

/// The text of every array element after the first, each preceded by a comma.
pub open spec fn ser_items(s: Seq<JsonV>) -> Seq<char>
    decreases s, 0int,
{
    if s.len() == 0 {
        Seq::empty()
    } else {
        seq![','] + ser_json(s[0]) + ser_items(s.subrange(1, s.len() as int))
    }
}

/// The text of every object member after the first, each preceded by a comma.
pub open spec fn ser_members(s: Seq<(Seq<char>, JsonV)>) -> Seq<char>
    decreases s, 0int,
{
    if s.len() == 0 {
        Seq::empty()
    } else {
        seq![','] + ser_string(s[0].0) + seq![':'] + ser_json(s[0].1) + ser_members(
            s.subrange(1, s.len() as int),
        )
    }
}

/// The canonical text of a JSON value.
pub open spec fn ser_json(j: JsonV) -> Seq<char>
    decreases j, 1int,
{
    match j {
        JsonV::Null => seq!['n', 'u', 'l', 'l'],
        JsonV::Bool(b) => if b {
            seq!['t', 'r', 'u', 'e']
        } else {
            seq!['f', 'a', 'l', 's', 'e']
        },
        JsonV::Num(s) => s,
        JsonV::Str(s) => ser_string(s),
        JsonV::Arr(a) => if a.len() == 0 {
            seq!['[', ']']
        } else {
            seq!['['] + ser_json(a[0]) + ser_items(a.subrange(1, a.len() as int)) + seq![']']
        },
        JsonV::Obj(m) => if m.len() == 0 {
            seq!['{', '}']
        } else {
            seq!['{'] + ser_string(m[0].0) + seq![':'] + ser_json(m[0].1) + ser_members(
                m.subrange(1, m.len() as int),
            ) + seq!['}']
        },
    }
}

pub proof fn lemma_ser_items_push(s: Seq<JsonV>, x: JsonV)
    ensures
        ser_items(s.push(x)) == ser_items(s) + seq![','] + ser_json(x),
    decreases s,
{
    if s.len() == 0 {
        assert(s.push(x)[0] == x);
        assert(s.push(x).subrange(1, 1) =~= Seq::<JsonV>::empty());
        assert(ser_items(Seq::<JsonV>::empty()) == Seq::<char>::empty());
        assert(ser_items(s.push(x)) =~= ser_items(s) + seq![','] + ser_json(x));
    } else {
        assert(s.push(x).subrange(1, s.len() + 1 as int) =~= s.subrange(1, s.len() as int).push(
            x,
        ));
        assert(s.push(x)[0] == s[0]);
        lemma_ser_items_push(s.subrange(1, s.len() as int), x);
        assert(ser_items(s.push(x)) =~= ser_items(s) + seq![','] + ser_json(x));
    }
}

pub proof fn lemma_ser_members_push(s: Seq<(Seq<char>, JsonV)>, x: (Seq<char>, JsonV))
    ensures
        ser_members(s.push(x)) == ser_members(s) + seq![','] + ser_string(x.0) + seq![':']
            + ser_json(x.1),
    decreases s,
{
    if s.len() == 0 {
        assert(s.push(x)[0] == x);
        assert(s.push(x).subrange(1, 1) =~= Seq::<(Seq<char>, JsonV)>::empty());
        assert(ser_members(Seq::<(Seq<char>, JsonV)>::empty()) == Seq::<char>::empty());
        assert(ser_members(s.push(x)) =~= ser_members(s) + seq![','] + ser_string(x.0) + seq![':']
            + ser_json(x.1));
    } else {
        assert(s.push(x).subrange(1, s.len() + 1 as int) =~= s.subrange(1, s.len() as int).push(
            x,
        ));
        assert(s.push(x)[0] == s[0]);
        lemma_ser_members_push(s.subrange(1, s.len() as int), x);
        assert(ser_members(s.push(x)) =~= ser_members(s) + seq![','] + ser_string(x.0) + seq![':']
            + ser_json(x.1));
    }
}

fn hex_lower_digit(n: u32) -> (c: char)
    requires
        n < 16,
    ensures
        c == hex_lower(n as int),
{
    if n == 0 {
        '0'
    } else if n == 1 {
        '1'
    } else if n == 2 {
        '2'
    } else if n == 3 {
        '3'
    } else if n == 4 {
        '4'
    } else if n == 5 {
        '5'
    } else if n == 6 {
        '6'
    } else if n == 7 {
        '7'
    } else if n == 8 {
        '8'
    } else if n == 9 {
        '9'
    } else if n == 10 {
        'a'
    } else if n == 11 {
        'b'
    } else if n == 12 {
        'c'
    } else if n == 13 {
        'd'
    } else if n == 14 {
        'e'
    } else {
        'f'
    }
}

/// Append one character's escape sequence.
fn write_escaped_char(c: char, out: &mut Vec<char>)
    ensures
        final(out)@ == old(out)@ + esc_char(c),
{
    if c == '"' {
        out.push('\\');
        out.push('"');
    } else if c == '\\' {
        out.push('\\');
        out.push('\\');
    } else if c == '\n' {
        out.push('\\');
        out.push('n');
    } else if c == '\r' {
        out.push('\\');
        out.push('r');
    } else if c == '\t' {
        out.push('\\');
        out.push('t');
    } else if c == '\u{8}' {
        out.push('\\');
        out.push('b');
    } else if c == '\u{c}' {
        out.push('\\');
        out.push('f');
    } else if (c as u32) < 0x20 {
        let u = c as u32;
        out.push('\\');
        out.push('u');
        out.push('0');
        out.push('0');
        out.push(hex_lower_digit(u / 16));
        out.push(hex_lower_digit(u % 16));
    } else {
        out.push(c);
    }
    proof {
        assert(out@ =~= old(out)@ + esc_char(c));
    }
}

/// Append a quoted, escaped string.
fn write_string(s: &String, out: &mut Vec<char>)
    ensures
        final(out)@ == old(out)@ + ser_string(s@),
{
    let cs = str_to_chars(s.as_str());
    out.push('"');
    let mut i: usize = 0;
    let n = cs.len();
    proof {
        assert(esc_str(s@.subrange(0, 0)) == Seq::<char>::empty());
        assert(out@ =~= old(out)@ + seq!['"'] + esc_str(s@.subrange(0, 0)));
    }
    while i < n
        invariant
            n == cs.len(),
            cs@ == s@,
            i <= n,
            out@ == old(out)@ + seq!['"'] + esc_str(s@.subrange(0, i as int)),
        decreases n - i,
    {
        write_escaped_char(cs[i], out);
        proof {
            assert(s@.subrange(0, i + 1 as int).drop_last() =~= s@.subrange(0, i as int));
            assert(s@.subrange(0, i + 1 as int).last() == s@[i as int]);
            assert(out@ =~= old(out)@ + seq!['"'] + esc_str(s@.subrange(0, i + 1 as int)));
        }
        i = i + 1;
    }
    out.push('"');
    proof {
        assert(s@.subrange(0, n as int) =~= s@);
        assert(out@ =~= old(out)@ + ser_string(s@));
    }
}

/// Append a string's characters unchanged (used for raw number text).
fn write_raw(s: &String, out: &mut Vec<char>)
    ensures
        final(out)@ == old(out)@ + s@,
{
    let cs = str_to_chars(s.as_str());
    let mut i: usize = 0;
    let n = cs.len();
    while i < n
        invariant
            n == cs.len(),
            cs@ == s@,
            i <= n,
            out@ == old(out)@ + s@.subrange(0, i as int),
        decreases n - i,
    {
        out.push(cs[i]);
        proof {
            assert(out@ =~= old(out)@ + s@.subrange(0, i + 1 as int));
        }
        i = i + 1;
    }
    proof {
        assert(s@.subrange(0, n as int) =~= s@);
        assert(out@ =~= old(out)@ + s@);
    }
}

/// Append the canonical text of a JSON value.
#[verifier::loop_isolation(false)]
#[verifier::rlimit(100)]
fn write_json(j: &Json, out: &mut Vec<char>)
    ensures
        final(out)@ == old(out)@ + ser_json(j@),
    decreases *j,
{
    match j {
        Json::Null => {
            out.push('n');
            out.push('u');
            out.push('l');
            out.push('l');
            proof {
                assert(out@ =~= old(out)@ + ser_json(j@));
            }
        },
        Json::Bool(b) => {
            if *b {
                out.push('t');
                out.push('r');
                out.push('u');
                out.push('e');
            } else {
                out.push('f');
                out.push('a');
                out.push('l');
                out.push('s');
                out.push('e');
            }
            proof {
                assert(out@ =~= old(out)@ + ser_json(j@));
            }
        },
        Json::Num(s) => {
            write_raw(s, out);
            proof {
                assert(out@ =~= old(out)@ + ser_json(j@));
            }
        },
        Json::Str(s) => {
            write_string(s, out);
            proof {
                assert(out@ =~= old(out)@ + ser_json(j@));
            }
        },
        Json::Arr(v) => {
            proof {
                lemma_jsons_v(v@);
            }
            out.push('[');
            if v.len() == 0 {
                out.push(']');
                proof {
                    assert(out@ =~= old(out)@ + ser_json(j@));
                }
            } else {
                let ghost a = jsons_v(v@);
                write_json(&v[0], out);
                let mut i: usize = 1;
                let n = v.len();
                proof {
                    assert(a.subrange(1, 1) =~= Seq::<JsonV>::empty());
                    assert(ser_items(Seq::<JsonV>::empty()) == Seq::<char>::empty());
                    assert(out@ =~= old(out)@ + seq!['['] + ser_json(a[0]) + ser_items(
                        a.subrange(1, 1),
                    ));
                }
                while i < n
                    invariant
                        n == v.len(),
                        1 <= i <= n,
                        a == jsons_v(v@),
                        a.len() == n,
                        forall|k: int| 0 <= k < n ==> a[k] == v@[k]@,
                        out@ == old(out)@ + seq!['['] + ser_json(a[0]) + ser_items(
                            a.subrange(1, i as int),
                        ),
                    decreases n - i,
                {
                    out.push(',');
                    write_json(&v[i], out);
                    proof {
                        lemma_ser_items_push(a.subrange(1, i as int), a[i as int]);
                        assert(a.subrange(1, i as int).push(a[i as int]) =~= a.subrange(
                            1,
                            i + 1 as int,
                        ));
                        assert(out@ =~= old(out)@ + seq!['['] + ser_json(a[0]) + ser_items(
                            a.subrange(1, i + 1 as int),
                        ));
                    }
                    i = i + 1;
                }
                out.push(']');
                proof {
                    assert(a.subrange(1, n as int) == a.subrange(1, a.len() as int));
                    assert(out@ =~= old(out)@ + ser_json(j@));
                }
            }
        },
        Json::Obj(mv) => {
            proof {
                lemma_members_v(mv@);
            }
            out.push('{');
            if mv.len() == 0 {
                out.push('}');
                proof {
                    assert(out@ =~= old(out)@ + ser_json(j@));
                }
            } else {
                let ghost m = members_v(mv@);
                write_string(&mv[0].0, out);
                out.push(':');
                write_json(&mv[0].1, out);
                let mut i: usize = 1;
                let n = mv.len();
                proof {
                    assert(m.subrange(1, 1) =~= Seq::<(Seq<char>, JsonV)>::empty());
                    assert(ser_members(Seq::<(Seq<char>, JsonV)>::empty()) == Seq::<char>::empty());
                    assert(out@ =~= old(out)@ + seq!['{'] + ser_string(m[0].0) + seq![':']
                        + ser_json(m[0].1) + ser_members(m.subrange(1, 1)));
                }
                while i < n
                    invariant
                        n == mv.len(),
                        1 <= i <= n,
                        m == members_v(mv@),
                        m.len() == n,
                        forall|k: int|
                            0 <= k < n ==> m[k] == (mv@[k].0@, mv@[k].1@),
                        out@ == old(out)@ + seq!['{'] + ser_string(m[0].0) + seq![':'] + ser_json(
                            m[0].1,
                        ) + ser_members(m.subrange(1, i as int)),
                    decreases n - i,
                {
                    out.push(',');
                    write_string(&mv[i].0, out);
                    out.push(':');
                    write_json(&mv[i].1, out);
                    proof {
                        lemma_ser_members_push(m.subrange(1, i as int), m[i as int]);
                        assert(m.subrange(1, i as int).push(m[i as int]) =~= m.subrange(
                            1,
                            i + 1 as int,
                        ));
                        assert(out@ =~= old(out)@ + seq!['{'] + ser_string(m[0].0) + seq![':']
                            + ser_json(m[0].1) + ser_members(m.subrange(1, i + 1 as int)));
                    }
                    i = i + 1;
                }
                out.push('}');
                proof {
                    assert(m.subrange(1, n as int) == m.subrange(1, m.len() as int));
                    assert(out@ =~= old(out)@ + ser_json(j@));
                }
            }
        },
    }
}

impl Json {
    /// The canonical text of this value, exactly as `ser_json` states.
    pub fn to_text(&self) -> (r: String)
        ensures
            r@ == ser_json(self@),
    {
        let mut out: Vec<char> = Vec::new();
        write_json(self, &mut out);
        proof {
            assert(out@ =~= ser_json(self@));
        }
        chars_to_string(&out)
    }
}

} // verus!
