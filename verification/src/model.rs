//! The data model: a `Chat` node carries one content variant, five boolean
//! style flags, a color string, and optional interactivity, plus nested
//! children.  Ghost mirror types (`ChatV` and friends) give every value a
//! mathematical view over `Seq<char>` that the codec contracts speak of.

use vstd::prelude::*;

verus! {

broadcast use vstd::std_specs::vec::group_vec_axioms, vstd::seq::group_seq_axioms;

/// Ghost view of a `Score`: three character sequences.
#[verifier::ext_equal]
pub ghost struct ScoreV {
    pub name: Seq<char>,
    pub objective: Seq<char>,
    pub value: Seq<char>,
}

/// Ghost view of a content variant.
#[verifier::ext_equal]
pub ghost enum ChatTypeV {
    String { text: Seq<char> },
    Score { score: ScoreV },
}

/// Ghost view of a `ClickEvent`.
#[verifier::ext_equal]
pub ghost struct ClickEventV {
    pub action: Seq<char>,
    pub value: Seq<char>,
}

/// Ghost view of a `HoverEvent`.
#[verifier::ext_equal]
pub ghost struct HoverEventV {
    pub action: Seq<char>,
    pub value: ChatOrStringV,
}

/// Ghost view of the string-or-component union.
#[verifier::ext_equal]
pub ghost enum ChatOrStringV {
    String(Seq<char>),
    Chat(Box<ChatV>),
}

/// Ghost view of a whole `Chat` node.
#[verifier::ext_equal]
pub ghost struct ChatV {
    pub value: ChatTypeV,
    pub bold: bool,
    pub italic: bool,
    pub underlined: bool,
    pub strikethrough: bool,
    pub obfuscated: bool,
    pub color: Seq<char>,
    pub insertion: Option<Seq<char>>,
    pub click_event: Option<ClickEventV>,
    pub hover_event: Option<HoverEventV>,
    pub extra: Seq<ChatV>,
}

/// The scoreboard-score payload; `value` is a string even when numeric.
#[derive(PartialEq, Eq, Debug)]
pub struct Score {
    pub name: String,
    pub objective: String,
    pub value: String,
}

/// The content carried by a node: plain text or a scoreboard score.
#[derive(PartialEq, Eq, Debug)]
pub enum ChatType {
    String { text: String },
    Score { score: Score },
}

/// A click action: the action name is kept as an open string so that
/// forward-compatible values round-trip.
#[derive(PartialEq, Eq, Debug)]
pub struct ClickEvent {
    pub action: String,
    pub value: String,
}

/// A hover action; its payload is either a bare string or a nested `Chat`.
#[derive(PartialEq, Eq, Debug)]
pub struct HoverEvent {
    pub action: String,
    pub value: ChatOrString,
}

/// The untagged union held by a hover event: no wire tag distinguishes the
/// two, so the decoder infers the variant from the JSON value kind.
#[derive(PartialEq, Eq, Debug)]
pub enum ChatOrString {
    String(String),
    Chat(Box<Chat>),
}

/// One styled, recursively nestable fragment of rich text.
#[derive(PartialEq, Eq, Debug)]
pub struct Chat {
    pub value: ChatType,
    pub bold: bool,
    pub italic: bool,
    pub underlined: bool,
    pub strikethrough: bool,
    pub obfuscated: bool,
    pub color: String,
    pub insertion: Option<String>,
    pub click_event: Option<ClickEvent>,
    pub hover_event: Option<HoverEvent>,
    pub extra: Vec<Chat>,
}

pub open spec fn score_v(s: Score) -> ScoreV {
    ScoreV { name: s.name@, objective: s.objective@, value: s.value@ }
}

pub open spec fn chat_type_v(t: ChatType) -> ChatTypeV {
    match t {
        ChatType::String { text } => ChatTypeV::String { text: text@ },
        ChatType::Score { score } => ChatTypeV::Score { score: score_v(score) },
    }
}

pub open spec fn click_event_v(e: ClickEvent) -> ClickEventV {
    ClickEventV { action: e.action@, value: e.value@ }
}

pub open spec fn chats_v(s: Seq<Chat>) -> Seq<ChatV>
    decreases s,
{
    if s.len() == 0 {
        Seq::empty()
    } else {
        seq![chat_v(s[0])] + chats_v(s.subrange(1, s.len() as int))
    }
}

pub proof fn lemma_chats_v(s: Seq<Chat>)
    ensures
        chats_v(s).len() == s.len(),
        forall|i: int| 0 <= i < s.len() ==> chats_v(s)[i] == chat_v(s[i]),
    decreases s,
{
    if s.len() > 0 {
        lemma_chats_v(s.subrange(1, s.len() as int));
    }
}

pub proof fn lemma_chats_v_push(s: Seq<Chat>, x: Chat)
    ensures
        chats_v(s.push(x)) == chats_v(s) + seq![chat_v(x)],
    decreases s,
{
    if s.len() == 0 {
        assert(s.push(x)[0] == x);
        assert(s.push(x).subrange(1, 1) =~= Seq::<Chat>::empty());
        assert(chats_v(Seq::<Chat>::empty()) == Seq::<ChatV>::empty());
        assert(chats_v(s.push(x)) =~= chats_v(s) + seq![chat_v(x)]);
    } else {
        assert(s.push(x).subrange(1, s.len() + 1 as int) =~= s.subrange(1, s.len() as int).push(
            x,
        ));
        assert(s.push(x)[0] == s[0]);
        lemma_chats_v_push(s.subrange(1, s.len() as int), x);
        assert(chats_v(s.push(x)) =~= chats_v(s) + seq![chat_v(x)]);
    }
}

pub open spec fn chat_v(c: Chat) -> ChatV
    decreases c,
{
    ChatV {
        value: chat_type_v(c.value),
        bold: c.bold,
        italic: c.italic,
        underlined: c.underlined,
        strikethrough: c.strikethrough,
        obfuscated: c.obfuscated,
        color: c.color@,
        insertion: match c.insertion {
            Option::Some(s) => Option::Some(s@),
            Option::None => Option::None,
        },
        click_event: match c.click_event {
            Option::Some(e) => Option::Some(click_event_v(e)),
            Option::None => Option::None,
        },
        hover_event: match c.hover_event {
            Option::Some(h) => Option::Some(
                HoverEventV { action: h.action@, value: chat_or_string_v(h.value) },
            ),
            Option::None => Option::None,
        },
        extra: chats_v(c.extra@),
    }
}

pub open spec fn chat_or_string_v(v: ChatOrString) -> ChatOrStringV
    decreases v,
{
    match v {
        ChatOrString::String(s) => ChatOrStringV::String(s@),
        ChatOrString::Chat(b) => ChatOrStringV::Chat(Box::new(chat_v(*b))),
    }
}

impl View for Score {
    type V = ScoreV;

    open spec fn view(&self) -> ScoreV {
        score_v(*self)
    }
}

impl View for ChatType {
    type V = ChatTypeV;

    open spec fn view(&self) -> ChatTypeV {
        chat_type_v(*self)
    }
}

impl View for ClickEvent {
    type V = ClickEventV;

    open spec fn view(&self) -> ClickEventV {
        click_event_v(*self)
    }
}

impl View for HoverEvent {
    type V = HoverEventV;

    open spec fn view(&self) -> HoverEventV {
        HoverEventV { action: self.action@, value: chat_or_string_v(self.value) }
    }
}

impl View for ChatOrString {
    type V = ChatOrStringV;

    open spec fn view(&self) -> ChatOrStringV {
        chat_or_string_v(*self)
    }
}

impl View for Chat {
    type V = ChatV;

    open spec fn view(&self) -> ChatV {
        chat_v(*self)
    }
}

impl Score {
    /// Build a score value from its three parts; no validation is performed.
    pub fn new(name: String, objective: String, value: String) -> (r: Score)
        ensures
            r@ == (ScoreV { name: name@, objective: objective@, value: value@ }),
    {
        Score { name, objective, value }
    }
}

/// The fixed set of click action names; the wire keeps them as open strings.
#[derive(PartialEq, Eq, Debug, Clone, Copy)]
pub enum ClickEventAction {
    OpenUrl,
    RunCommand,
    SuggestCommand,
    ChangePage,
}

/// The fixed set of hover action names; the wire keeps them as open strings.
#[derive(PartialEq, Eq, Debug, Clone, Copy)]
pub enum HoverEventAction {
    ShowText,
    ShowItem,
    ShowEntity,
}

/// The wire name of a click action.
pub open spec fn click_action_code_v(a: ClickEventAction) -> Seq<char> {
    match a {
        ClickEventAction::OpenUrl => seq!['o', 'p', 'e', 'n', '_', 'u', 'r', 'l'],
        ClickEventAction::RunCommand => seq![
            'r', 'u', 'n', '_', 'c', 'o', 'm', 'm', 'a', 'n', 'd',
        ],
        ClickEventAction::SuggestCommand => seq![
            's', 'u', 'g', 'g', 'e', 's', 't', '_', 'c', 'o', 'm', 'm', 'a', 'n', 'd',
        ],
        ClickEventAction::ChangePage => seq![
            'c', 'h', 'a', 'n', 'g', 'e', '_', 'p', 'a', 'g', 'e',
        ],
    }
}

/// The wire name of a hover action.
pub open spec fn hover_action_code_v(a: HoverEventAction) -> Seq<char> {
    match a {
        HoverEventAction::ShowText => seq!['s', 'h', 'o', 'w', '_', 't', 'e', 'x', 't'],
        HoverEventAction::ShowItem => seq!['s', 'h', 'o', 'w', '_', 'i', 't', 'e', 'm'],
        HoverEventAction::ShowEntity => seq![
            's', 'h', 'o', 'w', '_', 'e', 'n', 't', 'i', 't', 'y',
        ],
    }
}

impl ClickEventAction {
    /// The wire name of this action, exactly as `click_action_code_v` states.
    pub fn code(&self) -> (r: String)
        ensures
            r@ == click_action_code_v(*self),
    {
        match self {
            ClickEventAction::OpenUrl => {
                let s = String::from_str("open_url");
                proof {
                    reveal_strlit("open_url");
                    assert(s@ =~= click_action_code_v(*self));
                }
                s
            },
            ClickEventAction::RunCommand => {
                let s = String::from_str("run_command");
                proof {
                    reveal_strlit("run_command");
                    assert(s@ =~= click_action_code_v(*self));
                }
                s
            },
            ClickEventAction::SuggestCommand => {
                let s = String::from_str("suggest_command");
                proof {
                    reveal_strlit("suggest_command");
                    assert(s@ =~= click_action_code_v(*self));
                }
                s
            },
            ClickEventAction::ChangePage => {
                let s = String::from_str("change_page");
                proof {
                    reveal_strlit("change_page");
                    assert(s@ =~= click_action_code_v(*self));
                }
                s
            },
        }
    }
}

impl HoverEventAction {
    /// The wire name of this action, exactly as `hover_action_code_v` states.
    pub fn code(&self) -> (r: String)
        ensures
            r@ == hover_action_code_v(*self),
    {
        match self {
            HoverEventAction::ShowText => {
                let s = String::from_str("show_text");
                proof {
                    reveal_strlit("show_text");
                    assert(s@ =~= hover_action_code_v(*self));
                }
                s
            },
            HoverEventAction::ShowItem => {
                let s = String::from_str("show_item");
                proof {
                    reveal_strlit("show_item");
                    assert(s@ =~= hover_action_code_v(*self));
                }
                s
            },
            HoverEventAction::ShowEntity => {
                let s = String::from_str("show_entity");
                proof {
                    reveal_strlit("show_entity");
                    assert(s@ =~= hover_action_code_v(*self));
                }
                s
            },
        }
    }
}

/// The ghost view of the default (all fields at their documented defaults,
/// empty text) `Chat` value.
pub open spec fn default_chat_v() -> ChatV {
    ChatV {
        value: ChatTypeV::String { text: Seq::empty() },
        bold: false,
        italic: false,
        underlined: false,
        strikethrough: false,
        obfuscated: false,
        color: Seq::empty(),
        insertion: Option::None,
        click_event: Option::None,
        hover_event: Option::None,
        extra: Seq::empty(),
    }
}

impl Default for ChatType {
    /// The default content is empty plain text.
    fn default() -> (r: ChatType)
        ensures
            r@ == (ChatTypeV::String { text: Seq::<char>::empty() }),
    {
        ChatType::String { text: String::new() }
    }
}

impl Default for Chat {
    /// The default node: empty text, every flag `false`, no color, no
    /// interactivity, no children.
    fn default() -> (r: Chat)
        ensures
            r@ == default_chat_v(),
    {
        let c = Chat {
            value: ChatType::default(),
            bold: false,
            italic: false,
            underlined: false,
            strikethrough: false,
            obfuscated: false,
            color: String::new(),
            insertion: Option::None,
            click_event: Option::None,
            hover_event: Option::None,
            extra: Vec::new(),
        };
        proof {
            assert(c@.extra =~= Seq::<ChatV>::empty());
            assert(c@ =~= default_chat_v());
        }
        c
    }
}

} // verus!
