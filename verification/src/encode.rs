//! Encoding: a `Chat` becomes one flat JSON object.  The active content
//! variant's field comes first, then each style or interactivity field in a
//! fixed order — and only when it differs from its default.

use vstd::prelude::*;

use crate::color::is_default_color_v;
use crate::color::is_default_color;
use crate::json::json_v;
use crate::json::jsons_v;
use crate::json::lemma_jsons_v_push;
use crate::json::lemma_members_v_push;
use crate::json::members_v;
use crate::json::Json;
use crate::json::JsonV;
use crate::model::chat_v;
use crate::model::lemma_chats_v;
use crate::model::Chat;
use crate::model::ChatOrString;
use crate::model::ChatType;
use crate::model::ChatTypeV;
use crate::model::ChatOrStringV;
use crate::model::ChatV;
use crate::model::ClickEvent;
use crate::model::ClickEventV;
use crate::model::HoverEvent;
use crate::model::HoverEventV;
use crate::model::Score;
use crate::model::ScoreV;

verus! {

broadcast use vstd::std_specs::vec::group_vec_axioms, vstd::seq::group_seq_axioms;

pub open spec fn k_text() -> Seq<char> {
    seq!['t', 'e', 'x', 't']
}

pub open spec fn k_score() -> Seq<char> {
    seq!['s', 'c', 'o', 'r', 'e']
}

pub open spec fn k_name() -> Seq<char> {
    seq!['n', 'a', 'm', 'e']
}

pub open spec fn k_objective() -> Seq<char> {
    seq!['o', 'b', 'j', 'e', 'c', 't', 'i', 'v', 'e']
}

pub open spec fn k_value() -> Seq<char> {
    seq!['v', 'a', 'l', 'u', 'e']
}

pub open spec fn k_bold() -> Seq<char> {
    seq!['b', 'o', 'l', 'd']
}

pub open spec fn k_italic() -> Seq<char> {
    seq!['i', 't', 'a', 'l', 'i', 'c']
}

pub open spec fn k_underlined() -> Seq<char> {
    seq!['u', 'n', 'd', 'e', 'r', 'l', 'i', 'n', 'e', 'd']
}

pub open spec fn k_strikethrough() -> Seq<char> {
    seq!['s', 't', 'r', 'i', 'k', 'e', 't', 'h', 'r', 'o', 'u', 'g', 'h']
}

pub open spec fn k_obfuscated() -> Seq<char> {
    seq!['o', 'b', 'f', 'u', 's', 'c', 'a', 't', 'e', 'd']
}

pub open spec fn k_color() -> Seq<char> {
    seq!['c', 'o', 'l', 'o', 'r']
}

pub open spec fn k_insertion() -> Seq<char> {
    seq!['i', 'n', 's', 'e', 'r', 't', 'i', 'o', 'n']
}

pub open spec fn k_click_event() -> Seq<char> {
    seq!['c', 'l', 'i', 'c', 'k', '_', 'e', 'v', 'e', 'n', 't']
}

pub open spec fn k_hover_event() -> Seq<char> {
    seq!['h', 'o', 'v', 'e', 'r', '_', 'e', 'v', 'e', 'n', 't']
}

pub open spec fn k_action() -> Seq<char> {
    seq!['a', 'c', 't', 'i', 'o', 'n']
}

pub open spec fn k_extra() -> Seq<char> {
    seq!['e', 'x', 't', 'r', 'a']
}

/// The encoding of a score payload: a three-field object.
pub open spec fn enc_score(s: ScoreV) -> JsonV {
    JsonV::Obj(
        seq![
            (k_name(), JsonV::Str(s.name)),
            (k_objective(), JsonV::Str(s.objective)),
            (k_value(), JsonV::Str(s.value)),
        ],
    )
}

/// The member contributed by the active content variant.
pub open spec fn enc_content(t: ChatTypeV) -> Seq<(Seq<char>, JsonV)> {
    match t {
        ChatTypeV::String { text } => seq![(k_text(), JsonV::Str(text))],
        ChatTypeV::Score { score } => seq![(k_score(), enc_score(score))],
    }
}

/// A boolean flag's member: present exactly when the flag is set.
pub open spec fn flag_pair(k: Seq<char>, b: bool) -> Seq<(Seq<char>, JsonV)> {
    if b {
        seq![(k, JsonV::Bool(true))]
    } else {
        Seq::empty()
    }
}

/// The encoding of a click event: both fields, always.
pub open spec fn enc_click(e: ClickEventV) -> JsonV {
    JsonV::Obj(seq![(k_action(), JsonV::Str(e.action)), (k_value(), JsonV::Str(e.value))])
}

/// The encoding of a hover payload: a bare string or a nested object,
/// with no wrapper.
pub open spec fn enc_sorc(v: ChatOrStringV) -> JsonV
    decreases v, 0int,
{
    match v {
        ChatOrStringV::String(s) => JsonV::Str(s),
        ChatOrStringV::Chat(b) => enc_chat(*b),
    }
}

/// The encoding of a hover event: both fields, always.
pub open spec fn enc_hover(h: HoverEventV) -> JsonV
    decreases h, 1int,
{
    JsonV::Obj(seq![(k_action(), JsonV::Str(h.action)), (k_value(), enc_sorc(h.value))])
}

pub open spec fn enc_chats(s: Seq<ChatV>) -> Seq<JsonV>
    decreases s, 2int,
{
    if s.len() == 0 {
        Seq::empty()
    } else {
        seq![enc_chat(s[0])] + enc_chats(s.subrange(1, s.len() as int))
    }
}

/// The member contributed by the children, when there are any.
pub open spec fn extra_seg(c: ChatV) -> Seq<(Seq<char>, JsonV)>
    decreases c, 2int,
{
    if c.extra.len() == 0 {
        Seq::empty()
    } else {
        seq![(k_extra(), JsonV::Arr(enc_chats(c.extra)))]
    }
}

/// The member list of an encoded node: the content field first, then each
/// non-default field in the fixed order.
pub open spec fn enc_pairs(c: ChatV) -> Seq<(Seq<char>, JsonV)>
    decreases c, 3int,
{
    enc_content(c.value) + flag_pair(k_bold(), c.bold) + flag_pair(k_italic(), c.italic)
        + flag_pair(k_underlined(), c.underlined) + flag_pair(
        k_strikethrough(),
        c.strikethrough,
    ) + flag_pair(k_obfuscated(), c.obfuscated) + color_seg(c) + insertion_seg(c) + click_seg(c)
        + hover_seg(c) + extra_seg(c)
}

/// The canonical encoding of a node: one flat object.
pub open spec fn enc_chat(c: ChatV) -> JsonV
    decreases c, 4int,
{
    JsonV::Obj(enc_pairs(c))
}

fn score_to_json(s: &Score) -> (r: Json)
    ensures
        r@ == enc_score(s@),
{
    let mut pairs: Vec<(String, Json)> = Vec::new();
    let ghost q0 = pairs@;
    pairs.push((String::from_str("name"), Json::Str(s.name.clone())));
    let ghost q1 = pairs@;
    pairs.push((String::from_str("objective"), Json::Str(s.objective.clone())));
    let ghost q2 = pairs@;
    pairs.push((String::from_str("value"), Json::Str(s.value.clone())));
    proof {
        reveal_strlit("name");
        reveal_strlit("objective");
        reveal_strlit("value");
        assert(members_v(Seq::<(String, Json)>::empty()) == Seq::<(Seq<char>, JsonV)>::empty());
        lemma_members_v_push(q0, q1.last());
        lemma_members_v_push(q1, q2.last());
        lemma_members_v_push(q2, pairs@.last());
        assert(members_v(pairs@) =~~= seq![
            (k_name(), JsonV::Str(s@.name)),
            (k_objective(), JsonV::Str(s@.objective)),
            (k_value(), JsonV::Str(s@.value)),
        ]);
    }
    Json::Obj(pairs)
}

fn click_to_json(e: &ClickEvent) -> (r: Json)
    ensures
        r@ == enc_click(e@),
{
    let mut pairs: Vec<(String, Json)> = Vec::new();
    let ghost q0 = pairs@;
    pairs.push((String::from_str("action"), Json::Str(e.action.clone())));
    let ghost q1 = pairs@;
    pairs.push((String::from_str("value"), Json::Str(e.value.clone())));
    proof {
        reveal_strlit("action");
        reveal_strlit("value");
        assert(members_v(Seq::<(String, Json)>::empty()) == Seq::<(Seq<char>, JsonV)>::empty());
        lemma_members_v_push(q0, q1.last());
        lemma_members_v_push(q1, pairs@.last());
        assert(members_v(pairs@) =~~= seq![
            (k_action(), JsonV::Str(e@.action)),
            (k_value(), JsonV::Str(e@.value)),
        ]);
    }
    Json::Obj(pairs)
}

fn sorc_to_json(v: &ChatOrString) -> (r: Json)
    ensures
        r@ == enc_sorc(v@),
    decreases *v, 2int,
{
    match v {
        ChatOrString::String(s) => Json::Str(s.clone()),
        ChatOrString::Chat(b) => (**b).to_json(),
    }
}

fn hover_to_json(h: &HoverEvent) -> (r: Json)
    ensures
        r@ == enc_hover(h@),
    decreases *h, 3int,
{
    let mut pairs: Vec<(String, Json)> = Vec::new();
    let ghost q0 = pairs@;
    pairs.push((String::from_str("action"), Json::Str(h.action.clone())));
    let ghost q1 = pairs@;
    pairs.push((String::from_str("value"), sorc_to_json(&h.value)));
    proof {
        reveal_strlit("action");
        reveal_strlit("value");
        assert(members_v(Seq::<(String, Json)>::empty()) == Seq::<(Seq<char>, JsonV)>::empty());
        lemma_members_v_push(q0, q1.last());
        lemma_members_v_push(q1, pairs@.last());
        assert(members_v(pairs@) =~~= seq![
            (k_action(), JsonV::Str(h@.action)),
            (k_value(), enc_sorc(h@.value)),
        ]);
    }
    Json::Obj(pairs)
}

/// Append the five boolean flag members, each present exactly when set.
fn push_flags(c: &Chat, pairs: &mut Vec<(String, Json)>)
    ensures
        members_v(final(pairs)@) == members_v(old(pairs)@) + flag_pair(k_bold(), c@.bold) + flag_pair(
            k_italic(),
            c@.italic,
        ) + flag_pair(k_underlined(), c@.underlined) + flag_pair(
            k_strikethrough(),
            c@.strikethrough,
        ) + flag_pair(k_obfuscated(), c@.obfuscated),
{
    let ghost g0 = members_v(pairs@);
    let ghost seg1 = flag_pair(k_bold(), c@.bold);
    let ghost g1 = g0 + seg1;
    let ghost prev = pairs@;
    if c.bold {
        pairs.push((String::from_str("bold"), Json::Bool(true)));
    }
    proof {
        reveal_strlit("bold");
        if c.bold {
            lemma_members_v_push(prev, pairs@.last());
            assert(seq![(pairs@.last().0@, json_v(pairs@.last().1))] =~~= seg1);
        } else {
            assert(g0 + seg1 =~= g0);
        }
        assert(members_v(pairs@) == g1);
    }
    let ghost seg2 = flag_pair(k_italic(), c@.italic);
    let ghost g2 = g1 + seg2;
    let ghost prev = pairs@;
    if c.italic {
        pairs.push((String::from_str("italic"), Json::Bool(true)));
    }
    proof {
        reveal_strlit("italic");
        if c.italic {
            lemma_members_v_push(prev, pairs@.last());
            assert(seq![(pairs@.last().0@, json_v(pairs@.last().1))] =~~= seg2);
        } else {
            assert(g1 + seg2 =~= g1);
        }
        assert(members_v(pairs@) == g2);
    }
    let ghost seg3 = flag_pair(k_underlined(), c@.underlined);
    let ghost g3 = g2 + seg3;
    let ghost prev = pairs@;
    if c.underlined {
        pairs.push((String::from_str("underlined"), Json::Bool(true)));
    }
    proof {
        reveal_strlit("underlined");
        if c.underlined {
            lemma_members_v_push(prev, pairs@.last());
            assert(seq![(pairs@.last().0@, json_v(pairs@.last().1))] =~~= seg3);
        } else {
            assert(g2 + seg3 =~= g2);
        }
        assert(members_v(pairs@) == g3);
    }
    let ghost seg4 = flag_pair(k_strikethrough(), c@.strikethrough);
    let ghost g4 = g3 + seg4;
    let ghost prev = pairs@;
    if c.strikethrough {
        pairs.push((String::from_str("strikethrough"), Json::Bool(true)));
    }
    proof {
        reveal_strlit("strikethrough");
        if c.strikethrough {
            lemma_members_v_push(prev, pairs@.last());
            assert(seq![(pairs@.last().0@, json_v(pairs@.last().1))] =~~= seg4);
        } else {
            assert(g3 + seg4 =~= g3);
        }
        assert(members_v(pairs@) == g4);
    }
    let ghost seg5 = flag_pair(k_obfuscated(), c@.obfuscated);
    let ghost g5 = g4 + seg5;
    let ghost prev = pairs@;
    if c.obfuscated {
        pairs.push((String::from_str("obfuscated"), Json::Bool(true)));
    }
    proof {
        reveal_strlit("obfuscated");
        if c.obfuscated {
            lemma_members_v_push(prev, pairs@.last());
            assert(seq![(pairs@.last().0@, json_v(pairs@.last().1))] =~~= seg5);
        } else {
            assert(g4 + seg5 =~= g4);
        }
        assert(members_v(pairs@) == g5);
    }
}

/// The member contributed by the color, when it is not default-equivalent.
pub open spec fn color_seg(c: ChatV) -> Seq<(Seq<char>, JsonV)> {
    if is_default_color_v(c.color) {
        Seq::empty()
    } else {
        seq![(k_color(), JsonV::Str(c.color))]
    }
}

/// The member contributed by the insertion, when present.
pub open spec fn insertion_seg(c: ChatV) -> Seq<(Seq<char>, JsonV)> {
    match c.insertion {
        Option::Some(s) => seq![(k_insertion(), JsonV::Str(s))],
        Option::None => Seq::empty(),
    }
}

/// Append the color and insertion members where they are not default.
fn push_color_insertion(c: &Chat, pairs: &mut Vec<(String, Json)>)
    ensures
        members_v(final(pairs)@) == members_v(old(pairs)@) + color_seg(c@) + insertion_seg(c@),
{
    let ghost g0 = members_v(pairs@);
    let ghost seg6 = color_seg(c@);
    let ghost g6 = g0 + seg6;
    let ghost prev = pairs@;
    if !is_default_color(&c.color) {
        pairs.push((String::from_str("color"), Json::Str(c.color.clone())));
    }
    proof {
        reveal_strlit("color");
        if !is_default_color_v(c@.color) {
            lemma_members_v_push(prev, pairs@.last());
            assert(seq![(pairs@.last().0@, json_v(pairs@.last().1))] =~~= seg6);
        } else {
            assert(g0 + seg6 =~= g0);
        }
        assert(members_v(pairs@) == g6);
    }
    let ghost seg7 = insertion_seg(c@);
    let ghost g7 = g6 + seg7;
    let ghost prev = pairs@;
    match &c.insertion {
        Option::Some(s) => {
            pairs.push((String::from_str("insertion"), Json::Str(s.clone())));
        },
        Option::None => (),
    }
    proof {
        reveal_strlit("insertion");
        if c@.insertion is Some {
            lemma_members_v_push(prev, pairs@.last());
            assert(seq![(pairs@.last().0@, json_v(pairs@.last().1))] =~~= seg7);
        } else {
            assert(g6 + seg7 =~= g6);
        }
        assert(members_v(pairs@) == g7);
    }
}

/// The member contributed by the click event, when present.
pub open spec fn click_seg(c: ChatV) -> Seq<(Seq<char>, JsonV)> {
    match c.click_event {
        Option::Some(e) => seq![(k_click_event(), enc_click(e))],
        Option::None => Seq::empty(),
    }
}

/// The member contributed by the hover event, when present.
pub open spec fn hover_seg(c: ChatV) -> Seq<(Seq<char>, JsonV)>
    decreases c, 2int,
{
    match c.hover_event {
        Option::Some(h) => seq![(k_hover_event(), enc_hover(h))],
        Option::None => Seq::empty(),
    }
}

/// Append the click and hover event members where they are present.
fn push_events(c: &Chat, pairs: &mut Vec<(String, Json)>)
    ensures
        members_v(final(pairs)@) == members_v(old(pairs)@) + click_seg(c@) + hover_seg(c@),
    decreases *c, 4int,
{
    let ghost g0 = members_v(pairs@);
    let ghost seg8 = click_seg(c@);
    let ghost g8 = g0 + seg8;
    let ghost prev = pairs@;
    match &c.click_event {
        Option::Some(e) => {
            pairs.push((String::from_str("click_event"), click_to_json(e)));
        },
        Option::None => (),
    }
    proof {
        reveal_strlit("click_event");
        if c@.click_event is Some {
            lemma_members_v_push(prev, pairs@.last());
            assert(seq![(pairs@.last().0@, json_v(pairs@.last().1))] =~~= seg8);
        } else {
            assert(g0 + seg8 =~= g0);
        }
        assert(members_v(pairs@) == g8);
    }
    let ghost seg9 = hover_seg(c@);
    let ghost g9 = g8 + seg9;
    let ghost prev = pairs@;
    match &c.hover_event {
        Option::Some(h) => {
            pairs.push((String::from_str("hover_event"), hover_to_json(h)));
        },
        Option::None => (),
    }
    proof {
        reveal_strlit("hover_event");
        if c@.hover_event is Some {
            lemma_members_v_push(prev, pairs@.last());
            assert(seq![(pairs@.last().0@, json_v(pairs@.last().1))] =~~= seg9);
        } else {
            assert(g8 + seg9 =~= g8);
        }
        assert(members_v(pairs@) == g9);
    }
}

impl Chat {
    /// Encode this node as a JSON value, exactly as `enc_chat` states.
    pub fn to_json(&self) -> (r: Json)
        ensures
            r@ == enc_chat(self@),
        decreases *self, 5int,
    {
        let ghost empty_ms = Seq::<(Seq<char>, JsonV)>::empty();
        let mut pairs: Vec<(String, Json)> = Vec::new();
        let ghost q0 = pairs@;
        match &self.value {
            ChatType::String { text } => {
                pairs.push((String::from_str("text"), Json::Str(text.clone())));
            },
            ChatType::Score { score } => {
                pairs.push((String::from_str("score"), score_to_json(score)));
            },
        }
        let ghost g0 = enc_content(self@.value);
        proof {
            reveal_strlit("text");
            reveal_strlit("score");
            assert(members_v(q0) == empty_ms);
            lemma_members_v_push(q0, pairs@.last());
            assert(seq![(pairs@.last().0@, json_v(pairs@.last().1))] =~~= g0);
            assert(empty_ms + seq![(pairs@.last().0@, json_v(pairs@.last().1))] =~= seq![
                (pairs@.last().0@, json_v(pairs@.last().1)),
            ]);
            assert(members_v(pairs@) == g0);
        }
        push_flags(self, &mut pairs);
        push_color_insertion(self, &mut pairs);
        push_events(self, &mut pairs);
        let ghost g9 = members_v(pairs@);
        let ghost seg10 = if self@.extra.len() == 0 {
            Seq::<(Seq<char>, JsonV)>::empty()
        } else {
            seq![(k_extra(), JsonV::Arr(enc_chats(self@.extra)))]
        };
        let ghost g10 = g9 + seg10;
        proof {
            lemma_chats_v(self.extra@);
        }
        let ghost prev = pairs@;
        if self.extra.len() > 0 {
            let mut arr: Vec<Json> = Vec::new();
            let n = self.extra.len();
            let mut i: usize = 0;
            proof {
                assert(jsons_v(Seq::<Json>::empty()) == Seq::<JsonV>::empty());
                assert(self@.extra.subrange(0, 0) =~= Seq::<ChatV>::empty());
                assert(enc_chats(Seq::<ChatV>::empty()) == Seq::<JsonV>::empty());
            }
            while i < n
                invariant
                    n == self.extra.len(),
                    i <= n,
                    self@.extra == crate::model::chats_v(self.extra@),
                    self@.extra.len() == n,
                    forall|j: int| 0 <= j < n ==> self@.extra[j] == chat_v(self.extra@[j]),
                    jsons_v(arr@) == enc_chats(self@.extra.subrange(0, i as int)),
                decreases n - i,
            {
                let ghost aprev = arr@;
                let child = &self.extra[i];
                arr.push(child.to_json());
                proof {
                    lemma_jsons_v_push(aprev, arr@.last());
                    lemma_enc_chats_push(self@.extra.subrange(0, i as int), self@.extra[i as int]);
                    assert(self@.extra.subrange(0, i as int).push(self@.extra[i as int]) =~= self@
                        .extra.subrange(0, i + 1 as int));
                }
                i = i + 1;
            }
            proof {
                assert(self@.extra.subrange(0, n as int) =~= self@.extra);
            }
            pairs.push((String::from_str("extra"), Json::Arr(arr)));
        }
        proof {
            reveal_strlit("extra");
            if self@.extra.len() != 0 {
                lemma_members_v_push(prev, pairs@.last());
                assert(seq![(pairs@.last().0@, json_v(pairs@.last().1))] =~~= seg10);
            } else {
                assert(g9 + seg10 =~= g9);
            }
            assert(members_v(pairs@) == g10);
            assert(g10 == enc_pairs(self@));
        }
        Json::Obj(pairs)
    }
}

pub proof fn lemma_enc_chats_push(s: Seq<ChatV>, x: ChatV)
    ensures
        enc_chats(s.push(x)) == enc_chats(s) + seq![enc_chat(x)],
    decreases s,
{
    if s.len() == 0 {
        assert(s.push(x)[0] == x);
        assert(s.push(x).subrange(1, 1) =~= Seq::<ChatV>::empty());
        assert(enc_chats(Seq::<ChatV>::empty()) == Seq::<JsonV>::empty());
        assert(enc_chats(s.push(x)) =~= enc_chats(s) + seq![enc_chat(x)]);
    } else {
        assert(s.push(x).subrange(1, s.len() + 1 as int) =~= s.subrange(1, s.len() as int).push(
            x,
        ));
        assert(s.push(x)[0] == s[0]);
        lemma_enc_chats_push(s.subrange(1, s.len() as int), x);
        assert(enc_chats(s.push(x)) =~= enc_chats(s) + seq![enc_chat(x)]);
    }
}

} // verus!
