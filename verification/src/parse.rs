//! Parsing JSON text into a JSON value: a recursive-descent grammar over a
//! character sequence.  Whitespace is allowed between tokens; strings know
//! the usual escapes including `\uXXXX` for one scalar value; a number
//! token is kept as raw text, since the codec never interprets one.
//!
//! Each specification function returns the parsed piece and the index just
//! past it, or nothing where the text does not match; a branch that could
//! only be reached by a non-advancing sub-parse returns nothing, which
//! keeps the recursion well-founded and is never taken on real input.

use vstd::prelude::*;

use crate::json::Json;
use crate::json::JsonV;
use crate::json::jsons_v;
use crate::json::lemma_jsons_v_push;
use crate::json::lemma_members_v_push;
use crate::json::members_v;
use crate::text::char_from_u32;
use crate::text::chars_to_string;

verus! {

broadcast use vstd::std_specs::vec::group_vec_axioms, vstd::seq::group_seq_axioms;

/// JSON inter-token whitespace.
pub open spec fn is_ws(c: char) -> bool {
    c == ' ' || c == '\t' || c == '\n' || c == '\r'
}

/// A character that may occur in a number token.
pub open spec fn is_num_char(c: char) -> bool {
    c == '-' || c == '+' || c == '.' || c == 'e' || c == 'E' || ((c as u32) >= 48 && (c as u32)
        <= 57)
}

/// The value of a hexadecimal digit, or a negative value for any other
/// character.
pub open spec fn hex_val(c: char) -> int {
    let u = c as u32;
    if 48 <= u && u <= 57 {
        u - 48
    } else if 97 <= u && u <= 102 {
        u - 87
    } else if 65 <= u && u <= 70 {
        u - 55
    } else {
        -1
    }
}

/// What a short escape after a backslash stands for.
pub open spec fn esc_short(c: char) -> Option<char> {
    if c == '"' {
        Option::Some('"')
    } else if c == '\\' {
        Option::Some('\\')
    } else if c == '/' {
        Option::Some('/')
    } else if c == 'n' {
        Option::Some('\n')
    } else if c == 't' {
        Option::Some('\t')
    } else if c == 'r' {
        Option::Some('\r')
    } else if c == 'b' {
        Option::Some('\u{8}')
    } else if c == 'f' {
        Option::Some('\u{c}')
    } else {
        Option::None
    }
}

/// The first index at or after `i` holding a non-whitespace character.
pub open spec fn sp_ws(s: Seq<char>, i: int) -> int
    decreases s.len() - i, 0int,
{
    if i < 0 || i >= s.len() {
        i
    } else if is_ws(s[i]) {
        sp_ws(s, i + 1)
    } else {
        i
    }
}

/// The end of the number token starting at `i`.
pub open spec fn sp_numspan(s: Seq<char>, i: int) -> int
    decreases s.len() - i, 0int,
{
    if i < 0 || i >= s.len() {
        i
    } else if is_num_char(s[i]) {
        sp_numspan(s, i + 1)
    } else {
        i
    }
}

/// The body of a string literal from `i` (just after the opening quote) to
/// its closing quote: the unescaped characters and the index past the
/// quote.
pub open spec fn sp_string(s: Seq<char>, i: int) -> Option<(Seq<char>, int)>
    decreases s.len() - i, 0int,
{
    if i < 0 || i >= s.len() {
        Option::None
    } else if s[i] == '"' {
        Option::Some((Seq::empty(), i + 1))
    } else if s[i] == '\\' {
        if i + 2 > s.len() {
            Option::None
        } else if s[i + 1] == 'u' {
            if i + 6 > s.len() {
                Option::None
            } else {
                let code = hex_val(s[i + 2]) * 4096 + hex_val(s[i + 3]) * 256 + hex_val(
                    s[i + 4],
                ) * 16 + hex_val(s[i + 5]);
                if hex_val(s[i + 2]) < 0 || hex_val(s[i + 3]) < 0 || hex_val(s[i + 4]) < 0
                    || hex_val(s[i + 5]) < 0 {
                    Option::None
                } else if 0xD800 <= code && code < 0xE000 {
                    Option::None
                } else {
                    match sp_string(s, i + 6) {
                        Option::Some((rest, j)) => Option::Some(
                            (seq![(code as u32) as char] + rest, j),
                        ),
                        Option::None => Option::None,
                    }
                }
            }
        } else {
            match esc_short(s[i + 1]) {
                Option::Some(c) => match sp_string(s, i + 2) {
                    Option::Some((rest, j)) => Option::Some((seq![c] + rest, j)),
                    Option::None => Option::None,
                },
                Option::None => Option::None,
            }
        }
    } else if (s[i] as u32) < 0x20 {
        Option::None
    } else {
        match sp_string(s, i + 1) {
            Option::Some((rest, j)) => Option::Some((seq![s[i]] + rest, j)),
            Option::None => Option::None,
        }
    }
}

pub proof fn lemma_sp_string(s: Seq<char>, i: int)
    requires
        0 <= i,
    ensures
        match sp_string(s, i) {
            Option::Some((body, j)) => i < j <= s.len(),
            Option::None => true,
        },
    decreases s.len() - i,
{
    if 0 <= i && i < s.len() {
        if s[i] == '"' {
        } else if s[i] == '\\' {
            if i + 2 <= s.len() && s[i + 1] == 'u' && i + 6 <= s.len() {
                lemma_sp_string(s, i + 6);
            } else if i + 2 <= s.len() {
                lemma_sp_string(s, i + 2);
            }
        } else {
            lemma_sp_string(s, i + 1);
        }
    }
}

/// One JSON value beginning at `i`, leading whitespace allowed.
pub open spec fn sp_value(s: Seq<char>, i: int) -> Option<(JsonV, int)>
    decreases s.len() - i, 1int,
{
    if i < 0 || i > s.len() {
        Option::None
    } else {
        let j = sp_ws(s, i);
        if j < i || j >= s.len() {
            Option::None
        } else if s[j] == '"' {
            match sp_string(s, j + 1) {
                Option::Some((body, k)) => Option::Some((JsonV::Str(body), k)),
                Option::None => Option::None,
            }
        } else if s[j] == 't' {
            if j + 4 <= s.len() && s[j + 1] == 'r' && s[j + 2] == 'u' && s[j + 3] == 'e' {
                Option::Some((JsonV::Bool(true), j + 4))
            } else {
                Option::None
            }
        } else if s[j] == 'f' {
            if j + 5 <= s.len() && s[j + 1] == 'a' && s[j + 2] == 'l' && s[j + 3] == 's' && s[j
                + 4] == 'e' {
                Option::Some((JsonV::Bool(false), j + 5))
            } else {
                Option::None
            }
        } else if s[j] == 'n' {
            if j + 4 <= s.len() && s[j + 1] == 'u' && s[j + 2] == 'l' && s[j + 3] == 'l' {
                Option::Some((JsonV::Null, j + 4))
            } else {
                Option::None
            }
        } else if s[j] == '-' || (48 <= (s[j] as u32) && (s[j] as u32) <= 57) {
            let k = sp_numspan(s, j);
            if k > j {
                Option::Some((JsonV::Num(s.subrange(j, k)), k))
            } else {
                Option::None
            }
        } else if s[j] == '[' {
            let j2 = sp_ws(s, j + 1);
            if j2 <= j || j2 > s.len() {
                Option::None
            } else if j2 < s.len() && s[j2] == ']' {
                Option::Some((JsonV::Arr(Seq::empty()), j2 + 1))
            } else {
                match sp_elems(s, j2) {
                    Option::Some((items, k)) => Option::Some((JsonV::Arr(items), k)),
                    Option::None => Option::None,
                }
            }
        } else if s[j] == '{' {
            let j2 = sp_ws(s, j + 1);
            if j2 <= j || j2 > s.len() {
                Option::None
            } else if j2 < s.len() && s[j2] == '}' {
                Option::Some((JsonV::Obj(Seq::empty()), j2 + 1))
            } else {
                match sp_members(s, j2) {
                    Option::Some((ms, k)) => Option::Some((JsonV::Obj(ms), k)),
                    Option::None => Option::None,
                }
            }
        } else {
            Option::None
        }
    }
}

/// The elements of a non-empty array from the first element to the closing
/// bracket.
pub open spec fn sp_elems(s: Seq<char>, i: int) -> Option<(Seq<JsonV>, int)>
    decreases s.len() - i, 2int,
{
    if i < 0 || i > s.len() {
        Option::None
    } else {
        match sp_value(s, i) {
            Option::None => Option::None,
            Option::Some((v, k)) => if k <= i {
                Option::None
            } else {
                let m = sp_ws(s, k);
                if m < k || m >= s.len() {
                    Option::None
                } else if s[m] == ']' {
                    Option::Some((seq![v], m + 1))
                } else if s[m] == ',' {
                    match sp_elems(s, m + 1) {
                        Option::Some((rest, e)) => Option::Some((seq![v] + rest, e)),
                        Option::None => Option::None,
                    }
                } else {
                    Option::None
                }
            },
        }
    }
}

/// The members of a non-empty object from the first key to the closing
/// brace.
pub open spec fn sp_members(s: Seq<char>, i: int) -> Option<(Seq<(Seq<char>, JsonV)>, int)>
    decreases s.len() - i, 2int,
{
    if i < 0 || i >= s.len() {
        Option::None
    } else if s[i] != '"' {
        Option::None
    } else {
        match sp_string(s, i + 1) {
            Option::None => Option::None,
            Option::Some((key, k)) => if k <= i {
                Option::None
            } else {
                let m = sp_ws(s, k);
                if m < k || m >= s.len() {
                    Option::None
                } else if s[m] != ':' {
                    Option::None
                } else {
                    match sp_value(s, m + 1) {
                        Option::None => Option::None,
                        Option::Some((v, k2)) => if k2 <= m {
                            Option::None
                        } else {
                            let m2 = sp_ws(s, k2);
                            if m2 < k2 || m2 >= s.len() {
                                Option::None
                            } else if s[m2] == '}' {
                                Option::Some((seq![(key, v)], m2 + 1))
                            } else if s[m2] == ',' {
                                let m3 = sp_ws(s, m2 + 1);
                                if m3 <= m2 || m3 > s.len() {
                                    Option::None
                                } else {
                                    match sp_members(s, m3) {
                                        Option::Some((rest, e)) => Option::Some(
                                            (seq![(key, v)] + rest, e),
                                        ),
                                        Option::None => Option::None,
                                    }
                                }
                            } else {
                                Option::None
                            }
                        },
                    }
                }
            },
        }
    }
}

/// A whole text: one value, surrounded only by whitespace.
pub open spec fn sp_json(s: Seq<char>) -> Option<JsonV> {
    match sp_value(s, 0) {
        Option::None => Option::None,
        Option::Some((v, k)) => if 0 <= k <= s.len() && sp_ws(s, k) == s.len() {
            Option::Some(v)
        } else {
            Option::None
        },
    }
}

/// Whether a character may occur in a number token.
fn is_num_char_exec(c: char) -> (r: bool)
    ensures
        r == is_num_char(c),
{
    let u = c as u32;
    c == '-' || c == '+' || c == '.' || c == 'e' || c == 'E' || (48 <= u && u <= 57)
}

/// Skip whitespace, exactly as `sp_ws` states.
fn parse_ws(s: &Vec<char>, i: usize) -> (r: usize)
    requires
        i <= s@.len(),
    ensures
        r as int == sp_ws(s@, i as int),
        i <= r <= s@.len(),
{
    let n = s.len();
    let mut j = i;
    while j < n && (s[j] == ' ' || s[j] == '\t' || s[j] == '\n' || s[j] == '\r')
        invariant
            i <= j <= n,
            n == s@.len(),
            sp_ws(s@, i as int) == sp_ws(s@, j as int),
        decreases n - j,
    {
        j = j + 1;
    }
    proof {
        assert(sp_ws(s@, j as int) == j as int);
    }
    j
}

/// Scan a number token, exactly as `sp_numspan` states.
fn parse_numspan(s: &Vec<char>, i: usize) -> (r: usize)
    requires
        i <= s@.len(),
    ensures
        r as int == sp_numspan(s@, i as int),
        i <= r <= s@.len(),
{
    let n = s.len();
    let mut j = i;
    while j < n && is_num_char_exec(s[j])
        invariant
            i <= j <= n,
            n == s@.len(),
            sp_numspan(s@, i as int) == sp_numspan(s@, j as int),
        decreases n - j,
    {
        j = j + 1;
    }
    proof {
        assert(sp_numspan(s@, j as int) == j as int);
    }
    j
}

/// The value of a hexadecimal digit character, if it is one.
fn parse_hex_digit(c: char) -> (r: Option<u32>)
    ensures
        match r {
            Option::Some(v) => hex_val(c) == v as int && v < 16,
            Option::None => hex_val(c) < 0,
        },
{
    let u = c as u32;
    if 48 <= u && u <= 57 {
        Option::Some(u - 48)
    } else if 97 <= u && u <= 102 {
        Option::Some(u - 87)
    } else if 65 <= u && u <= 70 {
        Option::Some(u - 55)
    } else {
        Option::None
    }
}

/// Read a string body, exactly as `sp_string` states.
#[verifier::loop_isolation(false)]
#[verifier::rlimit(100)]
fn parse_string(s: &Vec<char>, i: usize) -> (r: Option<(String, usize)>)
    requires
        i <= s@.len(),
    ensures
        match r {
            Option::Some((body, j)) => sp_string(s@, i as int) == Option::Some(
                (body@, j as int),
            ) && i < j <= s@.len(),
            Option::None => sp_string(s@, i as int) is None,
        },
{
    let n = s.len();
    let mut body: Vec<char> = Vec::new();
    let mut cur = i;
    loop
        invariant
            i <= cur <= n,
            n == s@.len(),
            forall|rest: Seq<char>, j: int|
                sp_string(s@, cur as int) == Option::Some((rest, j)) ==> sp_string(
                    s@,
                    i as int,
                ) == Option::Some((body@ + rest, j)),
            sp_string(s@, cur as int) is None ==> sp_string(s@, i as int) is None,
        decreases n - cur,
    {
        if cur >= n {
            proof {
                lemma_sp_string(s@, cur as int);
            }
            return Option::None;
        }
        let c = s[cur];
        if c == '"' {
            proof {
                assert(sp_string(s@, cur as int) == Option::Some(
                    (Seq::<char>::empty(), cur + 1 as int),
                ));
                assert(body@ + Seq::<char>::empty() =~= body@);
                lemma_sp_string(s@, i as int);
            }
            return Option::Some((chars_to_string(&body), cur + 1));
        }
        if c == '\\' {
            if n - cur < 2 {
                return Option::None;
            }
            let e = s[cur + 1];
            if e == 'u' {
                if n - cur < 6 {
                    return Option::None;
                }
                let h1 = parse_hex_digit(s[cur + 2]);
                let h2 = parse_hex_digit(s[cur + 3]);
                let h3 = parse_hex_digit(s[cur + 4]);
                let h4 = parse_hex_digit(s[cur + 5]);
                match (h1, h2, h3, h4) {
                    (
                        Option::Some(v1),
                        Option::Some(v2),
                        Option::Some(v3),
                        Option::Some(v4),
                    ) => {
                        let code: u32 = v1 * 4096 + v2 * 256 + v3 * 16 + v4;
                        if 0xD800 <= code && code < 0xE000 {
                            return Option::None;
                        }
                        match char_from_u32(code) {
                            Option::Some(uc) => {
                                let ghost prev = body@;
                                body.push(uc);
                                proof {
                                    vstd::utf8::char_u32_cast(uc, code);
                                    assert forall|rest: Seq<char>, j: int|
                                        sp_string(s@, cur + 6 as int) == Option::Some(
                                            (rest, j),
                                        ) implies sp_string(s@, i as int) == Option::Some(
                                        (body@ + rest, j),
                                    ) by {
                                        assert(sp_string(s@, cur as int) == Option::Some(
                                            (seq![uc] + rest, j),
                                        ));
                                        assert(prev + (seq![uc] + rest) =~= body@ + rest);
                                    }
                                }
                                cur = cur + 6;
                            },
                            Option::None => {
                                proof {
                                    assert(false);
                                }
                            },
                        }
                    },
                    _ => {
                        return Option::None;
                    },
                }
            } else {
                let short: Option<char> = if e == '"' {
                    Option::Some('"')
                } else if e == '\\' {
                    Option::Some('\\')
                } else if e == '/' {
                    Option::Some('/')
                } else if e == 'n' {
                    Option::Some('\n')
                } else if e == 't' {
                    Option::Some('\t')
                } else if e == 'r' {
                    Option::Some('\r')
                } else if e == 'b' {
                    Option::Some('\u{8}')
                } else if e == 'f' {
                    Option::Some('\u{c}')
                } else {
                    Option::None
                };
                match short {
                    Option::Some(sc) => {
                        let ghost prev = body@;
                        body.push(sc);
                        proof {
                            assert forall|rest: Seq<char>, j: int|
                                sp_string(s@, cur + 2 as int) == Option::Some(
                                    (rest, j),
                                ) implies sp_string(s@, i as int) == Option::Some(
                                (body@ + rest, j),
                            ) by {
                                assert(sp_string(s@, cur as int) == Option::Some(
                                    (seq![sc] + rest, j),
                                ));
                                assert(prev + (seq![sc] + rest) =~= body@ + rest);
                            }
                        }
                        cur = cur + 2;
                    },
                    Option::None => {
                        return Option::None;
                    },
                }
            }
        } else if (c as u32) < 0x20 {
            return Option::None;
        } else {
            let ghost prev = body@;
            body.push(c);
            proof {
                assert forall|rest: Seq<char>, j: int|
                    sp_string(s@, cur + 1 as int) == Option::Some((rest, j)) implies sp_string(
                    s@,
                    i as int,
                ) == Option::Some((body@ + rest, j)) by {
                    assert(sp_string(s@, cur as int) == Option::Some((seq![c] + rest, j)));
                    assert(prev + (seq![c] + rest) =~= body@ + rest);
                }
            }
            cur = cur + 1;
        }
    }
}

/// Read one value, exactly as `sp_value` states.
#[verifier::loop_isolation(false)]
#[verifier::rlimit(100)]
fn parse_value(s: &Vec<char>, i: usize) -> (r: Option<(Json, usize)>)
    requires
        i <= s@.len(),
    ensures
        match r {
            Option::Some((v, j)) => sp_value(s@, i as int) == Option::Some((v@, j as int)) && i
                < j <= s@.len(),
            Option::None => sp_value(s@, i as int) is None,
        },
    decreases s@.len() - i, 1int,
{
    let n = s.len();
    let j = parse_ws(s, i);
    if j >= n {
        return Option::None;
    }
    let c = s[j];
    if c == '"' {
        match parse_string(s, j + 1) {
            Option::Some((body, k)) => Option::Some((Json::Str(body), k)),
            Option::None => Option::None,
        }
    } else if c == 't' {
        if n - j >= 4 && s[j + 1] == 'r' && s[j + 2] == 'u' && s[j + 3] == 'e' {
            Option::Some((Json::Bool(true), j + 4))
        } else {
            Option::None
        }
    } else if c == 'f' {
        if n - j >= 5 && s[j + 1] == 'a' && s[j + 2] == 'l' && s[j + 3] == 's' && s[j + 4]
            == 'e' {
            Option::Some((Json::Bool(false), j + 5))
        } else {
            Option::None
        }
    } else if c == 'n' {
        if n - j >= 4 && s[j + 1] == 'u' && s[j + 2] == 'l' && s[j + 3] == 'l' {
            Option::Some((Json::Null, j + 4))
        } else {
            Option::None
        }
    } else if c == '-' || {
        let u = c as u32;
        48 <= u && u <= 57
    } {
        let k = parse_numspan(s, j);
        if k > j {
            let mut raw: Vec<char> = Vec::new();
            let mut p = j;
            while p < k
                invariant
                    j <= p <= k <= n,
                    n == s@.len(),
                    raw@ == s@.subrange(j as int, p as int),
                decreases k - p,
            {
                raw.push(s[p]);
                proof {
                    assert(raw@ =~= s@.subrange(j as int, p + 1 as int));
                }
                p = p + 1;
            }
            Option::Some((Json::Num(chars_to_string(&raw)), k))
        } else {
            Option::None
        }
    } else if c == '[' {
        let j2 = parse_ws(s, j + 1);
        if j2 < n && s[j2] == ']' {
            Option::Some((Json::Arr(Vec::new()), j2 + 1))
        } else {
            match parse_elems(s, j2) {
                Option::Some((items, k)) => Option::Some((Json::Arr(items), k)),
                Option::None => Option::None,
            }
        }
    } else if c == '{' {
        let j2 = parse_ws(s, j + 1);
        if j2 < n && s[j2] == '}' {
            Option::Some((Json::Obj(Vec::new()), j2 + 1))
        } else {
            match parse_members(s, j2) {
                Option::Some((ms, k)) => Option::Some((Json::Obj(ms), k)),
                Option::None => Option::None,
            }
        }
    } else {
        Option::None
    }
}

/// Read the elements of a non-empty array, exactly as `sp_elems` states.
fn parse_elems(s: &Vec<char>, i: usize) -> (r: Option<(Vec<Json>, usize)>)
    requires
        i <= s@.len(),
    ensures
        match r {
            Option::Some((items, j)) => sp_elems(s@, i as int) == Option::Some(
                (jsons_v(items@), j as int),
            ) && i < j <= s@.len(),
            Option::None => sp_elems(s@, i as int) is None,
        },
    decreases s@.len() - i, 2int,
{
    match parse_value(s, i) {
        Option::None => Option::None,
        Option::Some((v, k)) => {
            let m = parse_ws(s, k);
            if m >= s.len() {
                return Option::None;
            }
            if s[m] == ']' {
                let mut items: Vec<Json> = Vec::new();
                items.push(v);
                proof {
                    assert(jsons_v(Seq::<Json>::empty()) == Seq::<JsonV>::empty());
                    lemma_jsons_v_push(Seq::<Json>::empty(), items@.last());
                    assert(Seq::<Json>::empty().push(items@.last()) =~= items@);
                    assert(jsons_v(items@) =~= seq![items@.last()@]);
                }
                Option::Some((items, m + 1))
            } else if s[m] == ',' {
                match parse_elems(s, m + 1) {
                    Option::Some((rest, e)) => {
                        let mut items: Vec<Json> = Vec::new();
                        items.push(v);
                        let ghost restv = jsons_v(rest@);
                        let mut rest = rest;
                        let ghost restseq = rest@;
                        let ghost one = items@;
                        items.append(&mut rest);
                        proof {
                            assert(jsons_v(Seq::<Json>::empty()) == Seq::<JsonV>::empty());
                            lemma_jsons_v_push(Seq::<Json>::empty(), one.last());
                            assert(Seq::<Json>::empty().push(one.last()) =~= one);
                            assert(jsons_v(one) =~= seq![one.last()@]);
                            assert(items@.subrange(1, items@.len() as int) =~= restseq);
                            assert(items@ =~= one + items@.subrange(1, items@.len() as int));
                            lemma_jsons_v_concat(one, restv, items@);
                        }
                        Option::Some((items, e))
                    },
                    Option::None => Option::None,
                }
            } else {
                Option::None
            }
        },
    }
}

/// Concatenating one element in front shifts the view by one.
proof fn lemma_jsons_v_concat(one: Seq<Json>, restv: Seq<JsonV>, whole: Seq<Json>)
    requires
        one.len() == 1,
        whole == one + whole.subrange(1, whole.len() as int),
        whole.len() >= 1,
        whole[0] == one[0],
        jsons_v(whole.subrange(1, whole.len() as int)) == restv,
    ensures
        jsons_v(whole) == seq![one[0]@] + restv,
{
    assert(jsons_v(whole) =~= seq![one[0]@] + restv);
}

/// Read the members of a non-empty object, exactly as `sp_members` states.
#[verifier::rlimit(100)]
fn parse_members(s: &Vec<char>, i: usize) -> (r: Option<(Vec<(String, Json)>, usize)>)
    requires
        i <= s@.len(),
    ensures
        match r {
            Option::Some((ms, j)) => sp_members(s@, i as int) == Option::Some(
                (members_v(ms@), j as int),
            ) && i < j <= s@.len(),
            Option::None => sp_members(s@, i as int) is None,
        },
    decreases s@.len() - i, 2int,
{
    let n = s.len();
    if i >= n {
        return Option::None;
    }
    if s[i] != '"' {
        return Option::None;
    }
    match parse_string(s, i + 1) {
        Option::None => Option::None,
        Option::Some((key, k)) => {
            let m = parse_ws(s, k);
            if m >= n {
                return Option::None;
            }
            if s[m] != ':' {
                return Option::None;
            }
            match parse_value(s, m + 1) {
                Option::None => Option::None,
                Option::Some((v, k2)) => {
                    let m2 = parse_ws(s, k2);
                    if m2 >= n {
                        return Option::None;
                    }
                    if s[m2] == '}' {
                        let mut ms: Vec<(String, Json)> = Vec::new();
                        ms.push((key, v));
                        proof {
                            assert(members_v(Seq::<(String, Json)>::empty()) == Seq::<
                                (Seq<char>, JsonV),
                            >::empty());
                            lemma_members_v_push(Seq::<(String, Json)>::empty(), ms@.last());
                            assert(Seq::<(String, Json)>::empty().push(ms@.last()) =~= ms@);
                            assert(members_v(ms@) =~= seq![(ms@.last().0@, ms@.last().1@)]);
                        }
                        Option::Some((ms, m2 + 1))
                    } else if s[m2] == ',' {
                        let m3 = parse_ws(s, m2 + 1);
                        match parse_members(s, m3) {
                            Option::Some((rest, e)) => {
                                let mut ms: Vec<(String, Json)> = Vec::new();
                                ms.push((key, v));
                                let ghost restv = members_v(rest@);
                                let mut rest = rest;
                                let ghost restseq = rest@;
                                let ghost one = ms@;
                                ms.append(&mut rest);
                                proof {
                                    assert(members_v(Seq::<(String, Json)>::empty()) == Seq::<
                                        (Seq<char>, JsonV),
                                    >::empty());
                                    lemma_members_v_push(
                                        Seq::<(String, Json)>::empty(),
                                        one.last(),
                                    );
                                    assert(Seq::<(String, Json)>::empty().push(one.last())
                                        =~= one);
                                    assert(ms@.subrange(1, ms@.len() as int) =~= restseq);
                                    assert(ms@ =~= one + ms@.subrange(1, ms@.len() as int));
                                    lemma_members_v_concat(one, restv, ms@);
                                }
                                Option::Some((ms, e))
                            },
                            Option::None => Option::None,
                        }
                    } else {
                        Option::None
                    }
                },
            }
        },
    }
}

/// Concatenating one member in front shifts the view by one.
proof fn lemma_members_v_concat(
    one: Seq<(String, Json)>,
    restv: Seq<(Seq<char>, JsonV)>,
    whole: Seq<(String, Json)>,
)
    requires
        one.len() == 1,
        whole == one + whole.subrange(1, whole.len() as int),
        whole.len() >= 1,
        whole[0] == one[0],
        members_v(whole.subrange(1, whole.len() as int)) == restv,
    ensures
        members_v(whole) == seq![(one[0].0@, one[0].1@)] + restv,
{
    assert(members_v(whole) =~= seq![(one[0].0@, one[0].1@)] + restv);
}

impl Json {
    /// Parse a whole text, exactly as `sp_json` states: one value with
    /// nothing but whitespace around it.
    pub fn parse(text: &str) -> (r: Option<Json>)
        ensures
            match r {
                Option::Some(j) => sp_json(text@) == Option::Some(j@),
                Option::None => sp_json(text@) is None,
            },
    {
        let s = crate::text::str_to_chars(text);
        match parse_value(&s, 0) {
            Option::None => Option::None,
            Option::Some((v, k)) => {
                let m = parse_ws(&s, k);
                if m == s.len() {
                    Option::Some(v)
                } else {
                    Option::None
                }
            },
        }
    }
}

} // verus!
