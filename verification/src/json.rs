//! A JSON value, as the codec sees it: the encoder produces one from a
//! `Chat`, the decoder reads one back.  Object members are an ordered list
//! of key/value pairs, so the encoder's fixed field order is part of the
//! value itself.

use vstd::prelude::*;

verus! {

broadcast use vstd::std_specs::vec::group_vec_axioms, vstd::seq::group_seq_axioms;

/// Ghost view of a JSON value.
#[verifier::ext_equal]
pub ghost enum JsonV {
    Null,
    Bool(bool),
    Num(Seq<char>),
    Str(Seq<char>),
    Arr(Seq<JsonV>),
    Obj(Seq<(Seq<char>, JsonV)>),
}

/// A JSON value.  Numbers keep their raw text: the codec never interprets
/// one, it only needs to carry them past and to reject them where a string
/// or an object is required.
#[derive(PartialEq, Eq, Debug)]
pub enum Json {
    Null,
    Bool(bool),
    Num(String),
    Str(String),
    Arr(Vec<Json>),
    Obj(Vec<(String, Json)>),
}

pub open spec fn jsons_v(s: Seq<Json>) -> Seq<JsonV>
    decreases s,
{
    if s.len() == 0 {
        Seq::empty()
    } else {
        seq![json_v(s[0])] + jsons_v(s.subrange(1, s.len() as int))
    }
}

pub open spec fn members_v(s: Seq<(String, Json)>) -> Seq<(Seq<char>, JsonV)>
    decreases s,
{
    if s.len() == 0 {
        Seq::empty()
    } else {
        seq![(s[0].0@, json_v(s[0].1))] + members_v(s.subrange(1, s.len() as int))
    }
}

pub open spec fn json_v(j: Json) -> JsonV
    decreases j,
{
    match j {
        Json::Null => JsonV::Null,
        Json::Bool(b) => JsonV::Bool(b),
        Json::Num(s) => JsonV::Num(s@),
        Json::Str(s) => JsonV::Str(s@),
        Json::Arr(v) => JsonV::Arr(jsons_v(v@)),
        Json::Obj(v) => JsonV::Obj(members_v(v@)),
    }
}

impl View for Json {
    type V = JsonV;

    open spec fn view(&self) -> JsonV {
        json_v(*self)
    }
}

pub proof fn lemma_jsons_v(s: Seq<Json>)
    ensures
        jsons_v(s).len() == s.len(),
        forall|i: int| 0 <= i < s.len() ==> jsons_v(s)[i] == json_v(s[i]),
    decreases s,
{
    if s.len() > 0 {
        lemma_jsons_v(s.subrange(1, s.len() as int));
    }
}

pub proof fn lemma_members_v(s: Seq<(String, Json)>)
    ensures
        members_v(s).len() == s.len(),
        forall|i: int|
            0 <= i < s.len() ==> members_v(s)[i] == (s[i].0@, json_v(s[i].1)),
    decreases s,
{
    if s.len() > 0 {
        lemma_members_v(s.subrange(1, s.len() as int));
    }
}

pub proof fn lemma_jsons_v_push(s: Seq<Json>, x: Json)
    ensures
        jsons_v(s.push(x)) == jsons_v(s) + seq![json_v(x)],
    decreases s,
{
    if s.len() == 0 {
        assert(s.push(x)[0] == x);
        assert(s.push(x).subrange(1, 1) =~= Seq::<Json>::empty());
        assert(jsons_v(Seq::<Json>::empty()) == Seq::<JsonV>::empty());
        assert(jsons_v(s.push(x)) =~= jsons_v(s) + seq![json_v(x)]);
    } else {
        assert(s.push(x).subrange(1, s.len() + 1 as int) =~= s.subrange(1, s.len() as int).push(
            x,
        ));
        assert(s.push(x)[0] == s[0]);
        lemma_jsons_v_push(s.subrange(1, s.len() as int), x);
        assert(jsons_v(s.push(x)) =~= jsons_v(s) + seq![json_v(x)]);
    }
}

pub proof fn lemma_members_v_push(s: Seq<(String, Json)>, x: (String, Json))
    ensures
        members_v(s.push(x)) == members_v(s) + seq![(x.0@, json_v(x.1))],
    decreases s,
{
    if s.len() == 0 {
        assert(s.push(x)[0] == x);
        assert(s.push(x).subrange(1, 1) =~= Seq::<(String, Json)>::empty());
        assert(members_v(Seq::<(String, Json)>::empty()) == Seq::<(Seq<char>, JsonV)>::empty());
        assert(members_v(s.push(x)) =~= members_v(s) + seq![(x.0@, json_v(x.1))]);
    } else {
        assert(s.push(x).subrange(1, s.len() + 1 as int) =~= s.subrange(1, s.len() as int).push(
            x,
        ));
        assert(s.push(x)[0] == s[0]);
        lemma_members_v_push(s.subrange(1, s.len() as int), x);
        assert(members_v(s.push(x)) =~= members_v(s) + seq![(x.0@, json_v(x.1))]);
    }
}

/// The value under the first occurrence of a key in a member list, if any;
/// later occurrences of the same key are shadowed.
pub open spec fn lookup(pairs: Seq<(Seq<char>, JsonV)>, k: Seq<char>) -> Option<JsonV>
    decreases pairs,
{
    if pairs.len() == 0 {
        Option::None
    } else if pairs[0].0 == k {
        Option::Some(pairs[0].1)
    } else {
        lookup(pairs.subrange(1, pairs.len() as int), k)
    }
}

pub open spec fn has_key(pairs: Seq<(Seq<char>, JsonV)>, k: Seq<char>) -> bool {
    lookup(pairs, k) is Some
}

/// Looking a key up in a concatenation searches the left part first.
pub proof fn lemma_lookup_concat(a: Seq<(Seq<char>, JsonV)>, b: Seq<(Seq<char>, JsonV)>, k: Seq<char>)
    ensures
        lookup(a + b, k) == if has_key(a, k) {
            lookup(a, k)
        } else {
            lookup(b, k)
        },
    decreases a,
{
    if a.len() == 0 {
        assert(a + b =~= b);
    } else {
        assert((a + b).subrange(1, (a + b).len() as int) =~= a.subrange(1, a.len() as int) + b);
        lemma_lookup_concat(a.subrange(1, a.len() as int), b, k);
    }
}

} // verus!
