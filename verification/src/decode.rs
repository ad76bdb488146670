//! Decoding: a JSON value becomes a `Chat`, or one named error.  The
//! content variant is inferred by shape — `text` is tried before `score` —
//! and a hover payload is inferred from its JSON kind.  Unknown keys are
//! ignored; a recognized key of the wrong type is a type-mismatch error.

use vstd::prelude::*;

use crate::encode::k_action;
use crate::encode::k_bold;
use crate::encode::k_click_event;
use crate::encode::k_color;
use crate::encode::k_extra;
use crate::encode::k_hover_event;
use crate::encode::k_insertion;
use crate::encode::k_italic;
use crate::encode::k_name;
use crate::encode::k_objective;
use crate::encode::k_obfuscated;
use crate::encode::k_score;
use crate::encode::k_strikethrough;
use crate::encode::k_text;
use crate::encode::k_underlined;
use crate::encode::k_value;
use crate::json::Json;
use crate::json::JsonV;
use crate::json::lemma_members_v;
use crate::json::lookup;
use crate::json::members_v;
use crate::model::Chat;
use crate::model::ChatOrString;
use crate::model::ChatOrStringV;
use crate::model::ChatType;
use crate::model::ChatTypeV;
use crate::model::ChatV;
use crate::model::ClickEvent;
use crate::model::ClickEventV;
use crate::model::HoverEvent;
use crate::model::HoverEventV;
use crate::model::Score;
use crate::model::ScoreV;
use crate::text::str_eq;

verus! {

broadcast use vstd::std_specs::vec::group_vec_axioms, vstd::seq::group_seq_axioms;

/// The ways decoding can fail, each surfaced to the caller.
#[derive(PartialEq, Eq, Debug)]
pub enum DecodeError {
    /// The input text is not valid JSON.
    MalformedJson,
    /// An object matched neither the text nor the score shape.
    ContentShapeError,
    /// A recognized field was present with the wrong JSON type.
    FieldTypeMismatch(String),
    /// A hover payload was neither a string nor an object.
    UnionShapeError,
}

/// Ghost view of a decode error.
#[verifier::ext_equal]
pub ghost enum DecodeErrorV {
    MalformedJson,
    ContentShapeError,
    FieldTypeMismatch(Seq<char>),
    UnionShapeError,
}

impl View for DecodeError {
    type V = DecodeErrorV;

    open spec fn view(&self) -> DecodeErrorV {
        match self {
            DecodeError::MalformedJson => DecodeErrorV::MalformedJson,
            DecodeError::ContentShapeError => DecodeErrorV::ContentShapeError,
            DecodeError::FieldTypeMismatch(s) => DecodeErrorV::FieldTypeMismatch(s@),
            DecodeError::UnionShapeError => DecodeErrorV::UnionShapeError,
        }
    }
}

/// What a key lookup returns is part of the member list it came from.
pub proof fn lemma_lookup_smaller(pairs: Seq<(Seq<char>, JsonV)>, k: Seq<char>)
    ensures
        match lookup(pairs, k) {
            Option::Some(v) => (decreases_to!(pairs => v)),
            Option::None => true,
        },
    decreases pairs,
{
    if pairs.len() > 0 {
        if pairs[0].0 == k {
            assert(decreases_to!(pairs => pairs[0]));
            assert(decreases_to!(pairs[0] => pairs[0].1));
        } else {
            lemma_lookup_smaller(pairs.subrange(1, pairs.len() as int), k);
        }
    }
}

/// A boolean flag: absent means `false`; present must be a boolean.
pub open spec fn dec_flag(pairs: Seq<(Seq<char>, JsonV)>, k: Seq<char>) -> Result<
    bool,
    DecodeErrorV,
> {
    match lookup(pairs, k) {
        Option::None => Result::Ok(false),
        Option::Some(JsonV::Bool(b)) => Result::Ok(b),
        Option::Some(_) => Result::Err(DecodeErrorV::FieldTypeMismatch(k)),
    }
}

/// The color string: absent means no color; present must be a string.
pub open spec fn dec_color(pairs: Seq<(Seq<char>, JsonV)>) -> Result<Seq<char>, DecodeErrorV> {
    match lookup(pairs, k_color()) {
        Option::None => Result::Ok(Seq::empty()),
        Option::Some(JsonV::Str(s)) => Result::Ok(s),
        Option::Some(_) => Result::Err(DecodeErrorV::FieldTypeMismatch(k_color())),
    }
}

/// The insertion: absent means none; present must be a string.
pub open spec fn dec_insertion(pairs: Seq<(Seq<char>, JsonV)>) -> Result<
    Option<Seq<char>>,
    DecodeErrorV,
> {
    match lookup(pairs, k_insertion()) {
        Option::None => Result::Ok(Option::None),
        Option::Some(JsonV::Str(s)) => Result::Ok(Option::Some(s)),
        Option::Some(_) => Result::Err(DecodeErrorV::FieldTypeMismatch(k_insertion())),
    }
}

/// The content variant: `text` (a string) is tried before `score` (an
/// object of three strings); neither shape is a content-shape error.
pub open spec fn dec_content(pairs: Seq<(Seq<char>, JsonV)>) -> Result<
    ChatTypeV,
    DecodeErrorV,
> {
    match lookup(pairs, k_text()) {
        Option::Some(JsonV::Str(t)) => Result::Ok(ChatTypeV::String { text: t }),
        _ => match lookup(pairs, k_score()) {
            Option::Some(JsonV::Obj(m)) => match (
                lookup(m, k_name()),
                lookup(m, k_objective()),
                lookup(m, k_value()),
            ) {
                (
                    Option::Some(JsonV::Str(n)),
                    Option::Some(JsonV::Str(o)),
                    Option::Some(JsonV::Str(v)),
                ) => Result::Ok(
                    ChatTypeV::Score { score: ScoreV { name: n, objective: o, value: v } },
                ),
                _ => Result::Err(DecodeErrorV::ContentShapeError),
            },
            _ => Result::Err(DecodeErrorV::ContentShapeError),
        },
    }
}

/// The click event: absent means none; present must be an object whose
/// `action` and `value` are strings.
pub open spec fn dec_click(pairs: Seq<(Seq<char>, JsonV)>) -> Result<
    Option<ClickEventV>,
    DecodeErrorV,
> {
    match lookup(pairs, k_click_event()) {
        Option::None => Result::Ok(Option::None),
        Option::Some(JsonV::Obj(m)) => match (lookup(m, k_action()), lookup(m, k_value())) {
            (Option::Some(JsonV::Str(a)), Option::Some(JsonV::Str(v))) => Result::Ok(
                Option::Some(ClickEventV { action: a, value: v }),
            ),
            _ => Result::Err(DecodeErrorV::FieldTypeMismatch(k_click_event())),
        },
        Option::Some(_) => Result::Err(DecodeErrorV::FieldTypeMismatch(k_click_event())),
    }
}

/// A hover payload: a string is the string variant, an object is a nested
/// node, and any other JSON kind is a union-shape error.
pub open spec fn dec_sorc(j: JsonV) -> Result<ChatOrStringV, DecodeErrorV>
    decreases j, 1int,
{
    match j {
        JsonV::Str(s) => Result::Ok(ChatOrStringV::String(s)),
        JsonV::Obj(_) => match dec_chat(j) {
            Result::Ok(c) => Result::Ok(ChatOrStringV::Chat(Box::new(c))),
            Result::Err(e) => Result::Err(e),
        },
        _ => Result::Err(DecodeErrorV::UnionShapeError),
    }
}

/// The hover event: absent means none; present must be an object whose
/// `action` is a string and whose `value` decodes as a hover payload.
pub open spec fn dec_hover(pairs: Seq<(Seq<char>, JsonV)>) -> Result<
    Option<HoverEventV>,
    DecodeErrorV,
>
    decreases pairs, 2int,
    via dec_hover_decreases
{
    match lookup(pairs, k_hover_event()) {
        Option::None => Result::Ok(Option::None),
        Option::Some(JsonV::Obj(m)) => match (lookup(m, k_action()), lookup(m, k_value())) {
            (Option::Some(JsonV::Str(a)), Option::Some(v)) => match dec_sorc(v) {
                Result::Ok(u) => Result::Ok(Option::Some(HoverEventV { action: a, value: u })),
                Result::Err(e) => Result::Err(e),
            },
            _ => Result::Err(DecodeErrorV::FieldTypeMismatch(k_hover_event())),
        },
        Option::Some(_) => Result::Err(DecodeErrorV::FieldTypeMismatch(k_hover_event())),
    }
}

#[via_fn]
proof fn dec_hover_decreases(pairs: Seq<(Seq<char>, JsonV)>) {
    lemma_lookup_smaller(pairs, k_hover_event());
    match lookup(pairs, k_hover_event()) {
        Option::Some(JsonV::Obj(m)) => {
            lemma_lookup_smaller(m, k_value());
        },
        _ => (),
    }
}

/// Decode a sequence of child nodes, failing on the first bad element.
pub open spec fn dec_chats(s: Seq<JsonV>) -> Result<Seq<ChatV>, DecodeErrorV>
    decreases s, 1int,
{
    if s.len() == 0 {
        Result::Ok(Seq::empty())
    } else {
        match dec_chat(s[0]) {
            Result::Ok(c) => match dec_chats(s.subrange(1, s.len() as int)) {
                Result::Ok(cs) => Result::Ok(seq![c] + cs),
                Result::Err(e) => Result::Err(e),
            },
            Result::Err(e) => Result::Err(e),
        }
    }
}

/// The children: absent means none; present must be an array of nodes.
pub open spec fn dec_extra(pairs: Seq<(Seq<char>, JsonV)>) -> Result<
    Seq<ChatV>,
    DecodeErrorV,
>
    decreases pairs, 2int,
    via dec_extra_decreases
{
    match lookup(pairs, k_extra()) {
        Option::None => Result::Ok(Seq::empty()),
        Option::Some(JsonV::Arr(a)) => dec_chats(a),
        Option::Some(_) => Result::Err(DecodeErrorV::FieldTypeMismatch(k_extra())),
    }
}

#[via_fn]
proof fn dec_extra_decreases(pairs: Seq<(Seq<char>, JsonV)>) {
    lemma_lookup_smaller(pairs, k_extra());
}

/// Decode one node from a JSON value.  Only an object can decode; the
/// checks run in the fixed field order, and the first failure is the
/// result.
pub open spec fn dec_chat(j: JsonV) -> Result<ChatV, DecodeErrorV>
    decreases j, 0int,
{
    match j {
        JsonV::Obj(pairs) => match dec_content(pairs) {
            Result::Err(e) => Result::Err(e),
            Result::Ok(value) => match dec_flag(pairs, k_bold()) {
                Result::Err(e) => Result::Err(e),
                Result::Ok(bold) => match dec_flag(pairs, k_italic()) {
                    Result::Err(e) => Result::Err(e),
                    Result::Ok(italic) => match dec_flag(pairs, k_underlined()) {
                        Result::Err(e) => Result::Err(e),
                        Result::Ok(underlined) => match dec_flag(pairs, k_strikethrough()) {
                            Result::Err(e) => Result::Err(e),
                            Result::Ok(strikethrough) => match dec_flag(pairs, k_obfuscated()) {
                                Result::Err(e) => Result::Err(e),
                                Result::Ok(obfuscated) => match dec_color(pairs) {
                                    Result::Err(e) => Result::Err(e),
                                    Result::Ok(color) => match dec_insertion(pairs) {
                                        Result::Err(e) => Result::Err(e),
                                        Result::Ok(insertion) => match dec_click(pairs) {
                                            Result::Err(e) => Result::Err(e),
                                            Result::Ok(click_event) => match dec_hover(pairs) {
                                                Result::Err(e) => Result::Err(e),
                                                Result::Ok(hover_event) => match dec_extra(
                                                    pairs,
                                                ) {
                                                    Result::Err(e) => Result::Err(e),
                                                    Result::Ok(extra) => Result::Ok(
                                                        ChatV {
                                                            value,
                                                            bold,
                                                            italic,
                                                            underlined,
                                                            strikethrough,
                                                            obfuscated,
                                                            color,
                                                            insertion,
                                                            click_event,
                                                            hover_event,
                                                            extra,
                                                        },
                                                    ),
                                                },
                                            },
                                        },
                                    },
                                },
                            },
                        },
                    },
                },
            },
        },
        _ => Result::Err(DecodeErrorV::ContentShapeError),
    }
}

/// Skipping entries whose keys all miss does not change a lookup.
proof fn lemma_lookup_skip(m: Seq<(Seq<char>, JsonV)>, k: Seq<char>, i: int)
    requires
        0 <= i <= m.len(),
        forall|x: int| 0 <= x < i ==> m[x].0 != k,
    ensures
        lookup(m, k) == lookup(m.subrange(i, m.len() as int), k),
    decreases i,
{
    if i > 0 {
        assert(m.subrange(i - 1, m.len() as int)[0] == m[i - 1]);
        assert(m.subrange(i - 1, m.len() as int).subrange(
            1,
            m.subrange(i - 1, m.len() as int).len() as int,
        ) =~= m.subrange(i, m.len() as int));
        lemma_lookup_skip(m, k, i - 1);
    } else {
        assert(m.subrange(0, m.len() as int) =~= m);
    }
}

/// The first member under the given key, if any.
fn obj_get<'a>(pairs: &'a Vec<(String, Json)>, key: &str) -> (r: Option<&'a Json>)
    ensures
        match r {
            Option::Some(v) => lookup(members_v(pairs@), key@) == Option::Some(v@) && (
            decreases_to!(*pairs => *v)),
            Option::None => lookup(members_v(pairs@), key@) is None,
        },
{
    proof {
        lemma_members_v(pairs@);
    }
    let ghost m = members_v(pairs@);
    let n = pairs.len();
    let mut i: usize = 0;
    while i < n
        invariant
            n == pairs.len(),
            i <= n,
            m == members_v(pairs@),
            m.len() == n,
            forall|x: int| 0 <= x < n ==> m[x] == (pairs@[x].0@, pairs@[x].1@),
            forall|x: int| 0 <= x < i ==> m[x].0 != key@,
        decreases n - i,
    {
        if str_eq(pairs[i].0.as_str(), key) {
            proof {
                lemma_lookup_skip(m, key@, i as int);
                assert(m.subrange(i as int, n as int)[0] == m[i as int]);
                assert(lookup(m, key@) == Option::Some(m[i as int].1));
                assert(decreases_to!(*pairs => pairs@[i as int]));
                assert(decreases_to!(pairs@[i as int] => pairs@[i as int].1));
            }
            return Option::Some(&pairs[i].1);
        }
        i = i + 1;
    }
    proof {
        lemma_lookup_skip(m, key@, n as int);
        assert(m.subrange(n as int, n as int) =~= Seq::<(Seq<char>, JsonV)>::empty());
    }
    Option::None
}

/// Read one boolean flag field.
fn get_flag(pairs: &Vec<(String, Json)>, key: &str) -> (r: Result<bool, DecodeError>)
    ensures
        match r {
            Result::Ok(b) => dec_flag(members_v(pairs@), key@) == Result::Ok::<
                bool,
                DecodeErrorV,
            >(b),
            Result::Err(e) => dec_flag(members_v(pairs@), key@) == Result::Err::<
                bool,
                DecodeErrorV,
            >(e@),
        },
{
    match obj_get(pairs, key) {
        Option::None => Result::Ok(false),
        Option::Some(Json::Bool(b)) => Result::Ok(*b),
        Option::Some(_) => Result::Err(
            DecodeError::FieldTypeMismatch(String::from_str(key)),
        ),
    }
}

impl Chat {
    /// Decode one node from a JSON value, exactly as `dec_chat` states.
    #[verifier::loop_isolation(false)]
    #[verifier::rlimit(100)]
    pub fn from_json(j: &Json) -> (r: Result<Chat, DecodeError>)
        ensures
            match r {
                Result::Ok(c) => dec_chat(j@) == Result::Ok::<ChatV, DecodeErrorV>(c@),
                Result::Err(e) => dec_chat(j@) == Result::Err::<ChatV, DecodeErrorV>(e@),
            },
        decreases *j, 0int,
    {
        let pairs = match j {
            Json::Obj(pairs) => pairs,
            _ => {
                return Result::Err(DecodeError::ContentShapeError);
            },
        };
        let ghost m = members_v(pairs@);
        let value: ChatType = match get_content(pairs) {
            Result::Ok(t) => t,
            Result::Err(e) => {
                return Result::Err(e);
            },
        };
        proof {
            reveal_strlit("bold");
        assert(("bold")@ =~= k_bold());
            reveal_strlit("italic");
        assert(("italic")@ =~= k_italic());
            reveal_strlit("underlined");
        assert(("underlined")@ =~= k_underlined());
            reveal_strlit("strikethrough");
        assert(("strikethrough")@ =~= k_strikethrough());
            reveal_strlit("obfuscated");
        assert(("obfuscated")@ =~= k_obfuscated());
        }
        let bold = match get_flag(pairs, "bold") {
            Result::Ok(b) => b,
            Result::Err(e) => {
                return Result::Err(e);
            },
        };
        let italic = match get_flag(pairs, "italic") {
            Result::Ok(b) => b,
            Result::Err(e) => {
                return Result::Err(e);
            },
        };
        let underlined = match get_flag(pairs, "underlined") {
            Result::Ok(b) => b,
            Result::Err(e) => {
                return Result::Err(e);
            },
        };
        let strikethrough = match get_flag(pairs, "strikethrough") {
            Result::Ok(b) => b,
            Result::Err(e) => {
                return Result::Err(e);
            },
        };
        let obfuscated = match get_flag(pairs, "obfuscated") {
            Result::Ok(b) => b,
            Result::Err(e) => {
                return Result::Err(e);
            },
        };
        let color: String = match get_color(pairs) {
            Result::Ok(s) => s,
            Result::Err(e) => {
                return Result::Err(e);
            },
        };
        let insertion: Option<String> = match get_insertion(pairs) {
            Result::Ok(s) => s,
            Result::Err(e) => {
                return Result::Err(e);
            },
        };
        let click_event: Option<ClickEvent> = match get_click(pairs) {
            Result::Ok(c) => c,
            Result::Err(e) => {
                return Result::Err(e);
            },
        };
        let hover_event: Option<HoverEvent> = match get_hover(pairs) {
            Result::Ok(h) => h,
            Result::Err(e) => {
                return Result::Err(e);
            },
        };
        let extra: Vec<Chat> = match get_extra(pairs) {
            Result::Ok(v) => v,
            Result::Err(e) => {
                return Result::Err(e);
            },
        };
        let c = Chat {
            value,
            bold,
            italic,
            underlined,
            strikethrough,
            obfuscated,
            color,
            insertion,
            click_event,
            hover_event,
            extra,
        };
        proof {
            assert(c@ =~~= (match dec_chat(j@) {
                Result::Ok(cv) => cv,
                Result::Err(_) => c@,
            }));
        }
        Result::Ok(c)
    }
}

/// Read the content variant.
fn get_content(pairs: &Vec<(String, Json)>) -> (r: Result<ChatType, DecodeError>)
    ensures
        match r {
            Result::Ok(t) => dec_content(members_v(pairs@)) == Result::Ok::<
                ChatTypeV,
                DecodeErrorV,
            >(t@),
            Result::Err(e) => dec_content(members_v(pairs@)) == Result::Err::<
                ChatTypeV,
                DecodeErrorV,
            >(e@),
        },
{
    proof {
        reveal_strlit("text");
        assert(("text")@ =~= k_text());
        reveal_strlit("score");
        assert(("score")@ =~= k_score());
        reveal_strlit("name");
        assert(("name")@ =~= k_name());
        reveal_strlit("objective");
        assert(("objective")@ =~= k_objective());
        reveal_strlit("value");
        assert(("value")@ =~= k_value());
    }
    match obj_get(pairs, "text") {
        Option::Some(Json::Str(t)) => Result::Ok(ChatType::String { text: t.clone() }),
        _ => {
            match obj_get(pairs, "score") {
                Option::Some(Json::Obj(m)) => {
                    let n = obj_get(m, "name");
                    let o = obj_get(m, "objective");
                    let v = obj_get(m, "value");
                    match (n, o, v) {
                        (
                            Option::Some(Json::Str(name)),
                            Option::Some(Json::Str(objective)),
                            Option::Some(Json::Str(value)),
                        ) => Result::Ok(
                            ChatType::Score {
                                score: Score {
                                    name: name.clone(),
                                    objective: objective.clone(),
                                    value: value.clone(),
                                },
                            },
                        ),
                        _ => Result::Err(DecodeError::ContentShapeError),
                    }
                },
                _ => Result::Err(DecodeError::ContentShapeError),
            }
        },
    }
}

/// Read the color string.
fn get_color(pairs: &Vec<(String, Json)>) -> (r: Result<String, DecodeError>)
    ensures
        match r {
            Result::Ok(s) => dec_color(members_v(pairs@)) == Result::Ok::<
                Seq<char>,
                DecodeErrorV,
            >(s@),
            Result::Err(e) => dec_color(members_v(pairs@)) == Result::Err::<
                Seq<char>,
                DecodeErrorV,
            >(e@),
        },
{
    proof {
        reveal_strlit("color");
        assert(("color")@ =~= k_color());
    }
    match obj_get(pairs, "color") {
        Option::None => Result::Ok(String::new()),
        Option::Some(Json::Str(s)) => Result::Ok(s.clone()),
        Option::Some(_) => Result::Err(
            DecodeError::FieldTypeMismatch(String::from_str("color")),
        ),
    }
}

/// Read the insertion string.
fn get_insertion(pairs: &Vec<(String, Json)>) -> (r: Result<Option<String>, DecodeError>)
    ensures
        match r {
            Result::Ok(s) => dec_insertion(members_v(pairs@)) == Result::Ok::<
                Option<Seq<char>>,
                DecodeErrorV,
            >(match s {
                Option::Some(x) => Option::Some(x@),
                Option::None => Option::None,
            }),
            Result::Err(e) => dec_insertion(members_v(pairs@)) == Result::Err::<
                Option<Seq<char>>,
                DecodeErrorV,
            >(e@),
        },
{
    proof {
        reveal_strlit("insertion");
        assert(("insertion")@ =~= k_insertion());
    }
    match obj_get(pairs, "insertion") {
        Option::None => Result::Ok(Option::None),
        Option::Some(Json::Str(s)) => Result::Ok(Option::Some(s.clone())),
        Option::Some(_) => Result::Err(
            DecodeError::FieldTypeMismatch(String::from_str("insertion")),
        ),
    }
}

/// Read the click event.
fn get_click(pairs: &Vec<(String, Json)>) -> (r: Result<Option<ClickEvent>, DecodeError>)
    ensures
        match r {
            Result::Ok(c) => dec_click(members_v(pairs@)) == Result::Ok::<
                Option<ClickEventV>,
                DecodeErrorV,
            >(match c {
                Option::Some(e) => Option::Some(e@),
                Option::None => Option::None,
            }),
            Result::Err(e) => dec_click(members_v(pairs@)) == Result::Err::<
                Option<ClickEventV>,
                DecodeErrorV,
            >(e@),
        },
{
    proof {
        reveal_strlit("click_event");
        assert(("click_event")@ =~= k_click_event());
        reveal_strlit("action");
        assert(("action")@ =~= k_action());
        reveal_strlit("value");
        assert(("value")@ =~= k_value());
    }
    match obj_get(pairs, "click_event") {
        Option::None => Result::Ok(Option::None),
        Option::Some(Json::Obj(m)) => {
            let a = obj_get(m, "action");
            let v = obj_get(m, "value");
            match (a, v) {
                (Option::Some(Json::Str(action)), Option::Some(Json::Str(value))) => Result::Ok(
                    Option::Some(ClickEvent { action: action.clone(), value: value.clone() }),
                ),
                _ => Result::Err(DecodeError::FieldTypeMismatch(String::from_str("click_event"))),
            }
        },
        Option::Some(_) => Result::Err(
            DecodeError::FieldTypeMismatch(String::from_str("click_event")),
        ),
    }
}

/// Read a hover payload from its JSON value.
fn get_sorc(j: &Json) -> (r: Result<ChatOrString, DecodeError>)
    ensures
        match r {
            Result::Ok(u) => dec_sorc(j@) == Result::Ok::<ChatOrStringV, DecodeErrorV>(u@),
            Result::Err(e) => dec_sorc(j@) == Result::Err::<ChatOrStringV, DecodeErrorV>(e@),
        },
    decreases *j, 1int,
{
    match j {
        Json::Str(s) => Result::Ok(ChatOrString::String(s.clone())),
        Json::Obj(_) => match Chat::from_json(j) {
            Result::Ok(c) => Result::Ok(ChatOrString::Chat(Box::new(c))),
            Result::Err(e) => Result::Err(e),
        },
        _ => Result::Err(DecodeError::UnionShapeError),
    }
}

/// Read the hover event.
fn get_hover(pairs: &Vec<(String, Json)>) -> (r: Result<Option<HoverEvent>, DecodeError>)
    ensures
        match r {
            Result::Ok(h) => dec_hover(members_v(pairs@)) == Result::Ok::<
                Option<HoverEventV>,
                DecodeErrorV,
            >(match h {
                Option::Some(e) => Option::Some(e@),
                Option::None => Option::None,
            }),
            Result::Err(e) => dec_hover(members_v(pairs@)) == Result::Err::<
                Option<HoverEventV>,
                DecodeErrorV,
            >(e@),
        },
    decreases *pairs, 2int,
{
    proof {
        reveal_strlit("hover_event");
        assert(("hover_event")@ =~= k_hover_event());
        reveal_strlit("action");
        assert(("action")@ =~= k_action());
        reveal_strlit("value");
        assert(("value")@ =~= k_value());
    }
    match obj_get(pairs, "hover_event") {
        Option::None => Result::Ok(Option::None),
        Option::Some(Json::Obj(m)) => {
            let a = obj_get(m, "action");
            let v = obj_get(m, "value");
            match (a, v) {
                (Option::Some(Json::Str(action)), Option::Some(value)) => {
                    match get_sorc(value) {
                        Result::Ok(u) => Result::Ok(
                            Option::Some(HoverEvent { action: action.clone(), value: u }),
                        ),
                        Result::Err(e) => Result::Err(e),
                    }
                },
                _ => Result::Err(DecodeError::FieldTypeMismatch(String::from_str("hover_event"))),
            }
        },
        Option::Some(_) => Result::Err(
            DecodeError::FieldTypeMismatch(String::from_str("hover_event")),
        ),
    }
}

/// Read the children array.
fn get_extra(pairs: &Vec<(String, Json)>) -> (r: Result<Vec<Chat>, DecodeError>)
    ensures
        match r {
            Result::Ok(v) => dec_extra(members_v(pairs@)) == Result::Ok::<
                Seq<ChatV>,
                DecodeErrorV,
            >(crate::model::chats_v(v@)),
            Result::Err(e) => dec_extra(members_v(pairs@)) == Result::Err::<
                Seq<ChatV>,
                DecodeErrorV,
            >(e@),
        },
    decreases *pairs, 2int,
{
    proof {
        reveal_strlit("extra");
        assert(("extra")@ =~= k_extra());
        assert(crate::model::chats_v(Seq::<Chat>::empty()) == Seq::<ChatV>::empty());
    }
    match obj_get(pairs, "extra") {
        Option::None => Result::Ok(Vec::new()),
        Option::Some(arrj) => {
            match arrj {
                Json::Arr(a) => {
                    match decode_children(a) {
                        Result::Ok(v) => Result::Ok(v),
                        Result::Err(e) => Result::Err(e),
                    }
                },
                _ => Result::Err(DecodeError::FieldTypeMismatch(String::from_str("extra"))),
            }
        },
    }
}

/// Decode every element of a children array, failing on the first bad one.
#[verifier::loop_isolation(false)]
fn decode_children(a: &Vec<Json>) -> (r: Result<Vec<Chat>, DecodeError>)
    ensures
        match r {
            Result::Ok(v) => dec_chats(crate::json::jsons_v(a@)) == Result::Ok::<
                Seq<ChatV>,
                DecodeErrorV,
            >(crate::model::chats_v(v@)),
            Result::Err(e) => dec_chats(crate::json::jsons_v(a@)) == Result::Err::<
                Seq<ChatV>,
                DecodeErrorV,
            >(e@),
        },
    decreases *a, 1int,
{
    proof {
        crate::json::lemma_jsons_v(a@);
    }
    let ghost av = crate::json::jsons_v(a@);
    let mut out: Vec<Chat> = Vec::new();
    let n = a.len();
    let mut i: usize = 0;
    proof {
        assert(crate::model::chats_v(Seq::<Chat>::empty()) == Seq::<ChatV>::empty());
        assert(av.subrange(0, n as int) =~= av);
        assert forall|rest: Seq<ChatV>| true implies Seq::<ChatV>::empty() + rest =~= rest by {}
    }
    while i < n
        invariant
            n == a.len(),
            i <= n,
            av == crate::json::jsons_v(a@),
            av.len() == n,
            forall|x: int| 0 <= x < n ==> av[x] == a@[x]@,
            dec_chats(av.subrange(i as int, n as int)) matches Result::Ok(rest) ==> dec_chats(
                av,
            ) == Result::Ok::<Seq<ChatV>, DecodeErrorV>(crate::model::chats_v(out@) + rest),
            dec_chats(av.subrange(i as int, n as int)) matches Result::Err(e) ==> dec_chats(av)
                == Result::Err::<Seq<ChatV>, DecodeErrorV>(e),
        decreases n - i,
    {
        match Chat::from_json(&a[i]) {
            Result::Ok(c) => {
                let ghost prev = out@;
                out.push(c);
                proof {
                    crate::model::lemma_chats_v_push(prev, out@.last());
                    assert(av.subrange(i as int, n as int)[0] == av[i as int]);
                    assert(av.subrange(i as int, n as int).subrange(
                        1,
                        av.subrange(i as int, n as int).len() as int,
                    ) =~= av.subrange(i + 1 as int, n as int));
                    assert(crate::model::chats_v(out@) =~= crate::model::chats_v(prev) + seq![
                        out@.last()@,
                    ]);
                    assert forall|rest: Seq<ChatV>|
                        dec_chats(av.subrange(i + 1 as int, n as int)) == Result::Ok::<
                            Seq<ChatV>,
                            DecodeErrorV,
                        >(rest) implies dec_chats(av) == Result::Ok::<Seq<ChatV>, DecodeErrorV>(
                        crate::model::chats_v(out@) + rest,
                    ) by {
                        assert(crate::model::chats_v(prev) + (seq![out@.last()@] + rest) =~= (
                        crate::model::chats_v(prev) + seq![out@.last()@]) + rest);
                    }
                }
            },
            Result::Err(e) => {
                proof {
                    assert(av.subrange(i as int, n as int)[0] == av[i as int]);
                }
                return Result::Err(e);
            },
        }
        i = i + 1;
    }
    proof {
        assert(av.subrange(n as int, n as int) =~= Seq::<JsonV>::empty());
        assert(dec_chats(Seq::<JsonV>::empty()) == Result::Ok::<Seq<ChatV>, DecodeErrorV>(
            Seq::<ChatV>::empty(),
        ));
        assert(crate::model::chats_v(out@) + Seq::<ChatV>::empty() =~= crate::model::chats_v(
            out@,
        ));
    }
    Result::Ok(out)
}

} // verus!
