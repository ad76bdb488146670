//! The laws the codec obeys, proved once for every value: what each key
//! lookup finds in an encoded node, that default-equivalent colors encode
//! identically, and that decoding inverts encoding.

use vstd::prelude::*;

use crate::color::is_default_color_v;
use crate::decode::dec_chat;
use crate::decode::dec_chats;
use crate::decode::dec_click;
use crate::decode::dec_color;
use crate::decode::dec_content;
use crate::decode::dec_extra;
use crate::decode::dec_flag;
use crate::decode::dec_hover;
use crate::decode::dec_insertion;
use crate::decode::dec_sorc;
use crate::decode::DecodeErrorV;
use crate::encode::click_seg;
use crate::encode::color_seg;
use crate::encode::enc_chat;
use crate::encode::enc_chats;
use crate::encode::enc_click;
use crate::encode::enc_content;
use crate::encode::enc_hover;
use crate::encode::enc_pairs;
use crate::encode::enc_score;
use crate::encode::enc_sorc;
use crate::encode::flag_pair;
use crate::encode::hover_seg;
use crate::encode::insertion_seg;
use crate::encode::k_action;
use crate::encode::k_bold;
use crate::encode::k_click_event;
use crate::encode::k_color;
use crate::encode::k_extra;
use crate::encode::k_hover_event;
use crate::encode::k_insertion;
use crate::encode::k_italic;
use crate::encode::k_name;
use crate::encode::k_objective;
use crate::encode::k_obfuscated;
use crate::encode::k_score;
use crate::encode::k_strikethrough;
use crate::encode::k_text;
use crate::encode::k_underlined;
use crate::encode::k_value;
use crate::json::has_key;
use crate::json::lemma_lookup_concat;
use crate::json::lookup;
use crate::json::JsonV;
use crate::model::ChatOrStringV;
use crate::model::ChatTypeV;
use crate::model::ChatV;
use crate::model::ClickEventV;
use crate::model::ScoreV;
use crate::model::HoverEventV;

verus! {

broadcast use vstd::seq::group_seq_axioms;

/// A color string that survives a round trip: anything but the reset
/// spellings, which the encoder drops and the decoder cannot restore.
pub open spec fn canonical_color(s: Seq<char>) -> bool {
    s != seq!['r'] && s != seq!['r', 'e', 's', 'e', 't']
}

/// Every color in the tree is canonical.  This holds of everything the
/// builder produces except a node given the reset color.
pub open spec fn canonical(c: ChatV) -> bool
    decreases c, 1int,
{
    &&& canonical_color(c.color)
    &&& match c.hover_event {
        Option::Some(h) => canonical_sorc(h.value),
        Option::None => true,
    }
    &&& canonical_chats(c.extra)
}

pub open spec fn canonical_sorc(v: ChatOrStringV) -> bool
    decreases v, 0int,
{
    match v {
        ChatOrStringV::String(_) => true,
        ChatOrStringV::Chat(b) => canonical(*b),
    }
}

pub open spec fn canonical_chats(s: Seq<ChatV>) -> bool
    decreases s, 0int,
{
    if s.len() == 0 {
        true
    } else {
        canonical(s[0]) && canonical_chats(s.subrange(1, s.len() as int))
    }
}

/// What a lookup finds in a one-member list.
proof fn lemma_lookup_single(k1: Seq<char>, v1: JsonV, k: Seq<char>)
    ensures
        lookup(seq![(k1, v1)], k) == if k1 == k {
            Option::Some(v1)
        } else {
            Option::<JsonV>::None
        },
{
    assert(seq![(k1, v1)].subrange(1, 1) =~= Seq::<(Seq<char>, JsonV)>::empty());
    assert(lookup(Seq::<(Seq<char>, JsonV)>::empty(), k) is None);
}

/// What a lookup finds in a two-member list.
proof fn lemma_lookup_two(k1: Seq<char>, v1: JsonV, k2: Seq<char>, v2: JsonV, k: Seq<char>)
    ensures
        lookup(seq![(k1, v1), (k2, v2)], k) == if k1 == k {
            Option::Some(v1)
        } else if k2 == k {
            Option::Some(v2)
        } else {
            Option::<JsonV>::None
        },
{
    assert(seq![(k1, v1), (k2, v2)].subrange(1, 2) =~= seq![(k2, v2)]);
    lemma_lookup_single(k2, v2, k);
}

/// What a lookup finds in a three-member list.
proof fn lemma_lookup_three(
    k1: Seq<char>,
    v1: JsonV,
    k2: Seq<char>,
    v2: JsonV,
    k3: Seq<char>,
    v3: JsonV,
    k: Seq<char>,
)
    ensures
        lookup(seq![(k1, v1), (k2, v2), (k3, v3)], k) == if k1 == k {
            Option::Some(v1)
        } else if k2 == k {
            Option::Some(v2)
        } else if k3 == k {
            Option::Some(v3)
        } else {
            Option::<JsonV>::None
        },
{
    assert(seq![(k1, v1), (k2, v2), (k3, v3)].subrange(1, 3) =~= seq![(k2, v2), (k3, v3)]);
    lemma_lookup_two(k2, v2, k3, v3, k);
}

/// What each recognized key finds in the member list of an encoded node.
#[verifier::rlimit(100)]
pub proof fn lemma_enc_lookup(c: ChatV)
    ensures
        lookup(enc_pairs(c), k_text()) == (match c.value {
            ChatTypeV::String { text } => Option::Some(JsonV::Str(text)),
            _ => Option::<JsonV>::None,
        }),
        lookup(enc_pairs(c), k_score()) == (match c.value {
            ChatTypeV::Score { score } => Option::Some(enc_score(score)),
            _ => Option::<JsonV>::None,
        }),
        lookup(enc_pairs(c), k_bold()) == (if c.bold {
            Option::Some(JsonV::Bool(true))
        } else {
            Option::<JsonV>::None
        }),
        lookup(enc_pairs(c), k_italic()) == (if c.italic {
            Option::Some(JsonV::Bool(true))
        } else {
            Option::<JsonV>::None
        }),
        lookup(enc_pairs(c), k_underlined()) == (if c.underlined {
            Option::Some(JsonV::Bool(true))
        } else {
            Option::<JsonV>::None
        }),
        lookup(enc_pairs(c), k_strikethrough()) == (if c.strikethrough {
            Option::Some(JsonV::Bool(true))
        } else {
            Option::<JsonV>::None
        }),
        lookup(enc_pairs(c), k_obfuscated()) == (if c.obfuscated {
            Option::Some(JsonV::Bool(true))
        } else {
            Option::<JsonV>::None
        }),
        lookup(enc_pairs(c), k_color()) == (if is_default_color_v(c.color) {
            Option::<JsonV>::None
        } else {
            Option::Some(JsonV::Str(c.color))
        }),
        lookup(enc_pairs(c), k_insertion()) == (match c.insertion {
            Option::Some(s) => Option::Some(JsonV::Str(s)),
            Option::None => Option::<JsonV>::None,
        }),
        lookup(enc_pairs(c), k_click_event()) == (match c.click_event {
            Option::Some(e) => Option::Some(enc_click(e)),
            Option::None => Option::<JsonV>::None,
        }),
        lookup(enc_pairs(c), k_hover_event()) == (match c.hover_event {
            Option::Some(h) => Option::Some(enc_hover(h)),
            Option::None => Option::<JsonV>::None,
        }),
        lookup(enc_pairs(c), k_extra()) == (if c.extra.len() == 0 {
            Option::<JsonV>::None
        } else {
            Option::Some(JsonV::Arr(enc_chats(c.extra)))
        }),
{
    let seg0 = enc_content(c.value);
    let seg1 = flag_pair(k_bold(), c.bold);
    let seg2 = flag_pair(k_italic(), c.italic);
    let seg3 = flag_pair(k_underlined(), c.underlined);
    let seg4 = flag_pair(k_strikethrough(), c.strikethrough);
    let seg5 = flag_pair(k_obfuscated(), c.obfuscated);
    let seg6 = color_seg(c);
    let seg7 = insertion_seg(c);
    let seg8 = click_seg(c);
    let seg9 = hover_seg(c);
    let seg10 = crate::encode::extra_seg(c);
    let p0 = seg0;
    let p1 = p0 + seg1;
    let p2 = p1 + seg2;
    let p3 = p2 + seg3;
    let p4 = p3 + seg4;
    let p5 = p4 + seg5;
    let p6 = p5 + seg6;
    let p7 = p6 + seg7;
    let p8 = p7 + seg8;
    let p9 = p8 + seg9;
    let p10 = p9 + seg10;
    assert(enc_pairs(c) == p10);
    assert(lookup(Seq::<(Seq<char>, JsonV)>::empty(), k_text()) is None);
    lemma_segment_lookups(c);
    lemma_lookup_concat(p9, seg10, k_text());
    lemma_lookup_concat(p8, seg9, k_text());
    lemma_lookup_concat(p7, seg8, k_text());
    lemma_lookup_concat(p6, seg7, k_text());
    lemma_lookup_concat(p5, seg6, k_text());
    lemma_lookup_concat(p4, seg5, k_text());
    lemma_lookup_concat(p3, seg4, k_text());
    lemma_lookup_concat(p2, seg3, k_text());
    lemma_lookup_concat(p1, seg2, k_text());
    lemma_lookup_concat(p0, seg1, k_text());
    lemma_lookup_concat(p9, seg10, k_score());
    lemma_lookup_concat(p8, seg9, k_score());
    lemma_lookup_concat(p7, seg8, k_score());
    lemma_lookup_concat(p6, seg7, k_score());
    lemma_lookup_concat(p5, seg6, k_score());
    lemma_lookup_concat(p4, seg5, k_score());
    lemma_lookup_concat(p3, seg4, k_score());
    lemma_lookup_concat(p2, seg3, k_score());
    lemma_lookup_concat(p1, seg2, k_score());
    lemma_lookup_concat(p0, seg1, k_score());
    lemma_lookup_concat(p9, seg10, k_bold());
    lemma_lookup_concat(p8, seg9, k_bold());
    lemma_lookup_concat(p7, seg8, k_bold());
    lemma_lookup_concat(p6, seg7, k_bold());
    lemma_lookup_concat(p5, seg6, k_bold());
    lemma_lookup_concat(p4, seg5, k_bold());
    lemma_lookup_concat(p3, seg4, k_bold());
    lemma_lookup_concat(p2, seg3, k_bold());
    lemma_lookup_concat(p1, seg2, k_bold());
    lemma_lookup_concat(p0, seg1, k_bold());
    lemma_lookup_concat(p9, seg10, k_italic());
    lemma_lookup_concat(p8, seg9, k_italic());
    lemma_lookup_concat(p7, seg8, k_italic());
    lemma_lookup_concat(p6, seg7, k_italic());
    lemma_lookup_concat(p5, seg6, k_italic());
    lemma_lookup_concat(p4, seg5, k_italic());
    lemma_lookup_concat(p3, seg4, k_italic());
    lemma_lookup_concat(p2, seg3, k_italic());
    lemma_lookup_concat(p1, seg2, k_italic());
    lemma_lookup_concat(p0, seg1, k_italic());
    lemma_lookup_concat(p9, seg10, k_underlined());
    lemma_lookup_concat(p8, seg9, k_underlined());
    lemma_lookup_concat(p7, seg8, k_underlined());
    lemma_lookup_concat(p6, seg7, k_underlined());
    lemma_lookup_concat(p5, seg6, k_underlined());
    lemma_lookup_concat(p4, seg5, k_underlined());
    lemma_lookup_concat(p3, seg4, k_underlined());
    lemma_lookup_concat(p2, seg3, k_underlined());
    lemma_lookup_concat(p1, seg2, k_underlined());
    lemma_lookup_concat(p0, seg1, k_underlined());
    lemma_lookup_concat(p9, seg10, k_strikethrough());
    lemma_lookup_concat(p8, seg9, k_strikethrough());
    lemma_lookup_concat(p7, seg8, k_strikethrough());
    lemma_lookup_concat(p6, seg7, k_strikethrough());
    lemma_lookup_concat(p5, seg6, k_strikethrough());
    lemma_lookup_concat(p4, seg5, k_strikethrough());
    lemma_lookup_concat(p3, seg4, k_strikethrough());
    lemma_lookup_concat(p2, seg3, k_strikethrough());
    lemma_lookup_concat(p1, seg2, k_strikethrough());
    lemma_lookup_concat(p0, seg1, k_strikethrough());
    lemma_lookup_concat(p9, seg10, k_obfuscated());
    lemma_lookup_concat(p8, seg9, k_obfuscated());
    lemma_lookup_concat(p7, seg8, k_obfuscated());
    lemma_lookup_concat(p6, seg7, k_obfuscated());
    lemma_lookup_concat(p5, seg6, k_obfuscated());
    lemma_lookup_concat(p4, seg5, k_obfuscated());
    lemma_lookup_concat(p3, seg4, k_obfuscated());
    lemma_lookup_concat(p2, seg3, k_obfuscated());
    lemma_lookup_concat(p1, seg2, k_obfuscated());
    lemma_lookup_concat(p0, seg1, k_obfuscated());
    lemma_lookup_concat(p9, seg10, k_color());
    lemma_lookup_concat(p8, seg9, k_color());
    lemma_lookup_concat(p7, seg8, k_color());
    lemma_lookup_concat(p6, seg7, k_color());
    lemma_lookup_concat(p5, seg6, k_color());
    lemma_lookup_concat(p4, seg5, k_color());
    lemma_lookup_concat(p3, seg4, k_color());
    lemma_lookup_concat(p2, seg3, k_color());
    lemma_lookup_concat(p1, seg2, k_color());
    lemma_lookup_concat(p0, seg1, k_color());
    lemma_lookup_concat(p9, seg10, k_insertion());
    lemma_lookup_concat(p8, seg9, k_insertion());
    lemma_lookup_concat(p7, seg8, k_insertion());
    lemma_lookup_concat(p6, seg7, k_insertion());
    lemma_lookup_concat(p5, seg6, k_insertion());
    lemma_lookup_concat(p4, seg5, k_insertion());
    lemma_lookup_concat(p3, seg4, k_insertion());
    lemma_lookup_concat(p2, seg3, k_insertion());
    lemma_lookup_concat(p1, seg2, k_insertion());
    lemma_lookup_concat(p0, seg1, k_insertion());
    lemma_lookup_concat(p9, seg10, k_click_event());
    lemma_lookup_concat(p8, seg9, k_click_event());
    lemma_lookup_concat(p7, seg8, k_click_event());
    lemma_lookup_concat(p6, seg7, k_click_event());
    lemma_lookup_concat(p5, seg6, k_click_event());
    lemma_lookup_concat(p4, seg5, k_click_event());
    lemma_lookup_concat(p3, seg4, k_click_event());
    lemma_lookup_concat(p2, seg3, k_click_event());
    lemma_lookup_concat(p1, seg2, k_click_event());
    lemma_lookup_concat(p0, seg1, k_click_event());
    lemma_lookup_concat(p9, seg10, k_hover_event());
    lemma_lookup_concat(p8, seg9, k_hover_event());
    lemma_lookup_concat(p7, seg8, k_hover_event());
    lemma_lookup_concat(p6, seg7, k_hover_event());
    lemma_lookup_concat(p5, seg6, k_hover_event());
    lemma_lookup_concat(p4, seg5, k_hover_event());
    lemma_lookup_concat(p3, seg4, k_hover_event());
    lemma_lookup_concat(p2, seg3, k_hover_event());
    lemma_lookup_concat(p1, seg2, k_hover_event());
    lemma_lookup_concat(p0, seg1, k_hover_event());
    lemma_lookup_concat(p9, seg10, k_extra());
    lemma_lookup_concat(p8, seg9, k_extra());
    lemma_lookup_concat(p7, seg8, k_extra());
    lemma_lookup_concat(p6, seg7, k_extra());
    lemma_lookup_concat(p5, seg6, k_extra());
    lemma_lookup_concat(p4, seg5, k_extra());
    lemma_lookup_concat(p3, seg4, k_extra());
    lemma_lookup_concat(p2, seg3, k_extra());
    lemma_lookup_concat(p1, seg2, k_extra());
    lemma_lookup_concat(p0, seg1, k_extra());}

/// What each recognized key finds in each one-member segment.
proof fn lemma_segment_lookups(c: ChatV)
    ensures
        forall|k: Seq<char>|
            #[trigger] lookup(enc_content(c.value), k) == (match c.value {
                ChatTypeV::String { text } => if k == k_text() {
                    Option::Some(JsonV::Str(text))
                } else {
                    Option::<JsonV>::None
                },
                ChatTypeV::Score { score } => if k == k_score() {
                    Option::Some(enc_score(score))
                } else {
                    Option::<JsonV>::None
                },
            }),
        forall|k: Seq<char>, kf: Seq<char>, b: bool|
            #[trigger] lookup(flag_pair(kf, b), k) == (if b && k == kf {
                Option::Some(JsonV::Bool(true))
            } else {
                Option::<JsonV>::None
            }),
        forall|k: Seq<char>|
            #[trigger] lookup(color_seg(c), k) == (if !is_default_color_v(c.color) && k
                == k_color() {
                Option::Some(JsonV::Str(c.color))
            } else {
                Option::<JsonV>::None
            }),
        forall|k: Seq<char>|
            #[trigger] lookup(insertion_seg(c), k) == (match c.insertion {
                Option::Some(s) => if k == k_insertion() {
                    Option::Some(JsonV::Str(s))
                } else {
                    Option::<JsonV>::None
                },
                Option::None => Option::<JsonV>::None,
            }),
        forall|k: Seq<char>|
            #[trigger] lookup(click_seg(c), k) == (match c.click_event {
                Option::Some(e) => if k == k_click_event() {
                    Option::Some(enc_click(e))
                } else {
                    Option::<JsonV>::None
                },
                Option::None => Option::<JsonV>::None,
            }),
        forall|k: Seq<char>|
            #[trigger] lookup(hover_seg(c), k) == (match c.hover_event {
                Option::Some(h) => if k == k_hover_event() {
                    Option::Some(enc_hover(h))
                } else {
                    Option::<JsonV>::None
                },
                Option::None => Option::<JsonV>::None,
            }),
        forall|k: Seq<char>|
            #[trigger] lookup(crate::encode::extra_seg(c), k) == (if c.extra.len() != 0 && k
                == k_extra() {
                Option::Some(JsonV::Arr(enc_chats(c.extra)))
            } else {
                Option::<JsonV>::None
            }),
{
    assert forall|k: Seq<char>| true implies #[trigger] lookup(enc_content(c.value), k)
        == (match c.value {
        ChatTypeV::String { text } => if k == k_text() {
            Option::Some(JsonV::Str(text))
        } else {
            Option::<JsonV>::None
        },
        ChatTypeV::Score { score } => if k == k_score() {
            Option::Some(enc_score(score))
        } else {
            Option::<JsonV>::None
        },
    }) by {
        match c.value {
            ChatTypeV::String { text } => lemma_lookup_single(k_text(), JsonV::Str(text), k),
            ChatTypeV::Score { score } => lemma_lookup_single(k_score(), enc_score(score), k),
        }
    }
    assert forall|k: Seq<char>, kf: Seq<char>, b: bool| true implies #[trigger] lookup(
        flag_pair(kf, b),
        k,
    ) == (if b && k == kf {
        Option::Some(JsonV::Bool(true))
    } else {
        Option::<JsonV>::None
    }) by {
        if b {
            lemma_lookup_single(kf, JsonV::Bool(true), k);
        }
    }
    assert forall|k: Seq<char>| true implies #[trigger] lookup(color_seg(c), k) == (if
        !is_default_color_v(c.color) && k == k_color() {
        Option::Some(JsonV::Str(c.color))
    } else {
        Option::<JsonV>::None
    }) by {
        if !is_default_color_v(c.color) {
            lemma_lookup_single(k_color(), JsonV::Str(c.color), k);
        }
    }
    assert forall|k: Seq<char>| true implies #[trigger] lookup(insertion_seg(c), k) == (match c
        .insertion {
        Option::Some(s) => if k == k_insertion() {
            Option::Some(JsonV::Str(s))
        } else {
            Option::<JsonV>::None
        },
        Option::None => Option::<JsonV>::None,
    }) by {
        match c.insertion {
            Option::Some(s) => lemma_lookup_single(k_insertion(), JsonV::Str(s), k),
            Option::None => (),
        }
    }
    assert forall|k: Seq<char>| true implies #[trigger] lookup(click_seg(c), k) == (match c
        .click_event {
        Option::Some(e) => if k == k_click_event() {
            Option::Some(enc_click(e))
        } else {
            Option::<JsonV>::None
        },
        Option::None => Option::<JsonV>::None,
    }) by {
        match c.click_event {
            Option::Some(e) => lemma_lookup_single(k_click_event(), enc_click(e), k),
            Option::None => (),
        }
    }
    assert forall|k: Seq<char>| true implies #[trigger] lookup(hover_seg(c), k) == (match c
        .hover_event {
        Option::Some(h) => if k == k_hover_event() {
            Option::Some(enc_hover(h))
        } else {
            Option::<JsonV>::None
        },
        Option::None => Option::<JsonV>::None,
    }) by {
        match c.hover_event {
            Option::Some(h) => lemma_lookup_single(k_hover_event(), enc_hover(h), k),
            Option::None => (),
        }
    }
    assert forall|k: Seq<char>| true implies #[trigger] lookup(crate::encode::extra_seg(c), k)
        == (if c.extra.len() != 0 && k == k_extra() {
        Option::Some(JsonV::Arr(enc_chats(c.extra)))
    } else {
        Option::<JsonV>::None
    }) by {
        if c.extra.len() != 0 {
            lemma_lookup_single(k_extra(), JsonV::Arr(enc_chats(c.extra)), k);
        }
    }
}

/// Colors of the default class all encode alike: two nodes that differ
/// only in which default-equivalent color they carry have the same
/// encoding, and the color key is omitted from it.
pub proof fn lemma_color_equivalence(c1: ChatV, c2: ChatV)
    requires
        is_default_color_v(c1.color),
        is_default_color_v(c2.color),
        c1 == (ChatV { color: c1.color, ..c2 }),
    ensures
        enc_chat(c1) == enc_chat(c2),
        !has_key(enc_pairs(c1), k_color()),
{
    assert(color_seg(c1) == color_seg(c2));
    assert(enc_pairs(c1) == enc_pairs(c2));
    lemma_enc_lookup(c1);
}

/// Decoding inverts encoding: every node whose colors are canonical comes
/// back from its own encoding unchanged.  A node carrying a reset-spelling
/// color is the one exception: its color key is omitted on encode and
/// decodes as "no color".
#[verifier::rlimit(100)]
pub proof fn lemma_round_trip(c: ChatV)
    requires
        canonical(c),
    ensures
        dec_chat(enc_chat(c)) == Result::<ChatV, DecodeErrorV>::Ok(c),
    decreases c, 1int,
{
    let p = enc_pairs(c);
    lemma_enc_lookup(c);
    assert(dec_content(p) == Result::<ChatTypeV, DecodeErrorV>::Ok(c.value)) by {
        lemma_enc_lookup(c);
        match c.value {
            ChatTypeV::String { text } => {
            },
            ChatTypeV::Score { score } => {
                lemma_lookup_three(
                    k_name(),
                    JsonV::Str(score.name),
                    k_objective(),
                    JsonV::Str(score.objective),
                    k_value(),
                    JsonV::Str(score.value),
                    k_name(),
                );
                lemma_lookup_three(
                    k_name(),
                    JsonV::Str(score.name),
                    k_objective(),
                    JsonV::Str(score.objective),
                    k_value(),
                    JsonV::Str(score.value),
                    k_objective(),
                );
                lemma_lookup_three(
                    k_name(),
                    JsonV::Str(score.name),
                    k_objective(),
                    JsonV::Str(score.objective),
                    k_value(),
                    JsonV::Str(score.value),
                    k_value(),
                );
                assert(ScoreV { name: score.name, objective: score.objective, value: score.value }
                    =~= score);
            },
        }
    }
    assert(dec_flag(p, k_bold()) == Result::<bool, DecodeErrorV>::Ok(c.bold));
    assert(dec_flag(p, k_italic()) == Result::<bool, DecodeErrorV>::Ok(c.italic));
    assert(dec_flag(p, k_underlined()) == Result::<bool, DecodeErrorV>::Ok(c.underlined));
    assert(dec_flag(p, k_strikethrough()) == Result::<bool, DecodeErrorV>::Ok(c.strikethrough));
    assert(dec_flag(p, k_obfuscated()) == Result::<bool, DecodeErrorV>::Ok(c.obfuscated));
    assert(dec_color(p) == Result::<Seq<char>, DecodeErrorV>::Ok(c.color)) by {
        lemma_enc_lookup(c);
        if is_default_color_v(c.color) {
            assert(c.color =~= Seq::<char>::empty());
        }
    }
    assert(dec_insertion(p) == Result::<Option<Seq<char>>, DecodeErrorV>::Ok(c.insertion));
    assert(dec_click(p) == Result::<Option<ClickEventV>, DecodeErrorV>::Ok(c.click_event)) by {
        lemma_enc_lookup(c);
        match c.click_event {
            Option::Some(e) => {
                lemma_lookup_two(
                    k_action(),
                    JsonV::Str(e.action),
                    k_value(),
                    JsonV::Str(e.value),
                    k_action(),
                );
                lemma_lookup_two(
                    k_action(),
                    JsonV::Str(e.action),
                    k_value(),
                    JsonV::Str(e.value),
                    k_value(),
                );
                assert(ClickEventV { action: e.action, value: e.value } =~= e);
            },
            Option::None => (),
        }
    }
    assert(dec_hover(p) == Result::<Option<HoverEventV>, DecodeErrorV>::Ok(c.hover_event)) by {
        lemma_enc_lookup(c);
        match c.hover_event {
            Option::Some(h) => {
                lemma_lookup_two(
                    k_action(),
                    JsonV::Str(h.action),
                    k_value(),
                    enc_sorc(h.value),
                    k_action(),
                );
                lemma_lookup_two(
                    k_action(),
                    JsonV::Str(h.action),
                    k_value(),
                    enc_sorc(h.value),
                    k_value(),
                );
                assert(dec_sorc(enc_sorc(h.value)) == Result::<
                    ChatOrStringV,
                    DecodeErrorV,
                >::Ok(h.value)) by {
                    match h.value {
                        ChatOrStringV::String(_) => {
                        },
                        ChatOrStringV::Chat(b) => {
                            lemma_round_trip(*b);
                            assert(ChatOrStringV::Chat(Box::new(*b)) =~= h.value);
                        },
                    }
                }
                assert(HoverEventV { action: h.action, value: h.value } =~= h);
            },
            Option::None => (),
        }
    }
    assert(dec_extra(p) == Result::<Seq<ChatV>, DecodeErrorV>::Ok(c.extra)) by {
        lemma_enc_lookup(c);
        if c.extra.len() == 0 {
            assert(c.extra =~= Seq::<ChatV>::empty());
        } else {
            lemma_round_trip_list(c.extra);
        }
    }
    assert(dec_chat(enc_chat(c)) == Result::<ChatV, DecodeErrorV>::Ok(
        ChatV {
            value: c.value,
            bold: c.bold,
            italic: c.italic,
            underlined: c.underlined,
            strikethrough: c.strikethrough,
            obfuscated: c.obfuscated,
            color: c.color,
            insertion: c.insertion,
            click_event: c.click_event,
            hover_event: c.hover_event,
            extra: c.extra,
        },
    ));
    assert(ChatV {
        value: c.value,
        bold: c.bold,
        italic: c.italic,
        underlined: c.underlined,
        strikethrough: c.strikethrough,
        obfuscated: c.obfuscated,
        color: c.color,
        insertion: c.insertion,
        click_event: c.click_event,
        hover_event: c.hover_event,
        extra: c.extra,
    } =~= c);
}

/// Decoding inverts encoding elementwise over a sequence of children.
pub proof fn lemma_round_trip_list(s: Seq<ChatV>)
    requires
        canonical_chats(s),
    ensures
        dec_chats(enc_chats(s)) == Result::<Seq<ChatV>, DecodeErrorV>::Ok(s),
    decreases s, 0int,
{
    if s.len() == 0 {
        assert(enc_chats(s) == Seq::<JsonV>::empty());
        assert(dec_chats(Seq::<JsonV>::empty()) == Result::<Seq<ChatV>, DecodeErrorV>::Ok(
            Seq::<ChatV>::empty(),
        ));
        assert(s =~= Seq::<ChatV>::empty());
    } else {
        let rest = s.subrange(1, s.len() as int);
        lemma_round_trip(s[0]);
        lemma_round_trip_list(rest);
        let e = enc_chats(s);
        assert(e == seq![enc_chat(s[0])] + enc_chats(rest));
        assert(e[0] == enc_chat(s[0]));
        assert(e.subrange(1, e.len() as int) =~= enc_chats(rest));
        assert(seq![s[0]] + rest =~= s);
    }
}

} // verus!
