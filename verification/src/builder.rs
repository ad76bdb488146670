//! Builders: construct a `Chat`, a `ClickEvent` or a `HoverEvent` by
//! supplying any subset of the fields; what is left unset takes its
//! documented default.  Building fails only when a required field (the
//! content, or an event's action or payload) was never supplied.

use vstd::prelude::*;

use crate::color::color_code_v;
use crate::color::Color;
use crate::model::chat_type_v;
use crate::model::chat_or_string_v;
use crate::model::chats_v;
use crate::model::click_event_v;
use crate::model::Chat;
use crate::model::ChatOrString;
use crate::model::ChatType;
use crate::model::ClickEvent;
use crate::model::HoverEvent;

verus! {

/// The one way construction can fail: a required field was never supplied.
#[derive(PartialEq, Eq, Debug, Clone, Copy)]
pub enum BuildError {
    MissingRequiredField,
}

/// The value of an optional builder slot, or the default where it was
/// never set.
pub open spec fn or_else<T>(slot: Option<T>, d: T) -> T {
    match slot {
        Option::Some(x) => x,
        Option::None => d,
    }
}

/// Builds a `Chat`.  Every slot starts unset; `value` is the only slot that
/// `build` requires.
pub struct ChatBuilder {
    pub value: Option<ChatType>,
    pub bold: Option<bool>,
    pub italic: Option<bool>,
    pub underlined: Option<bool>,
    pub strikethrough: Option<bool>,
    pub obfuscated: Option<bool>,
    pub color: Option<String>,
    pub insertion: Option<Option<String>>,
    pub click_event: Option<Option<ClickEvent>>,
    pub hover_event: Option<Option<HoverEvent>>,
    pub extra: Option<Vec<Chat>>,
}

impl Default for ChatBuilder {
    /// A builder with every slot unset.
    fn default() -> (r: ChatBuilder)
        ensures
            r.value is None,
            r.bold is None,
            r.italic is None,
            r.underlined is None,
            r.strikethrough is None,
            r.obfuscated is None,
            r.color is None,
            r.insertion is None,
            r.click_event is None,
            r.hover_event is None,
            r.extra is None,
    {
        ChatBuilder {
            value: Option::None,
            bold: Option::None,
            italic: Option::None,
            underlined: Option::None,
            strikethrough: Option::None,
            obfuscated: Option::None,
            color: Option::None,
            insertion: Option::None,
            click_event: Option::None,
            hover_event: Option::None,
            extra: Option::None,
        }
    }
}

impl ChatBuilder {
    pub fn value(self, value: ChatType) -> (r: ChatBuilder)
        ensures
            r == (ChatBuilder { value: Option::Some(value), ..self }),
    {
        ChatBuilder { value: Option::Some(value), ..self }
    }

    pub fn bold(self, bold: bool) -> (r: ChatBuilder)
        ensures
            r == (ChatBuilder { bold: Option::Some(bold), ..self }),
    {
        ChatBuilder { bold: Option::Some(bold), ..self }
    }

    pub fn italic(self, italic: bool) -> (r: ChatBuilder)
        ensures
            r == (ChatBuilder { italic: Option::Some(italic), ..self }),
    {
        ChatBuilder { italic: Option::Some(italic), ..self }
    }

    pub fn underlined(self, underlined: bool) -> (r: ChatBuilder)
        ensures
            r == (ChatBuilder { underlined: Option::Some(underlined), ..self }),
    {
        ChatBuilder { underlined: Option::Some(underlined), ..self }
    }

    pub fn strikethrough(self, strikethrough: bool) -> (r: ChatBuilder)
        ensures
            r == (ChatBuilder { strikethrough: Option::Some(strikethrough), ..self }),
    {
        ChatBuilder { strikethrough: Option::Some(strikethrough), ..self }
    }

    pub fn obfuscated(self, obfuscated: bool) -> (r: ChatBuilder)
        ensures
            r == (ChatBuilder { obfuscated: Option::Some(obfuscated), ..self }),
    {
        ChatBuilder { obfuscated: Option::Some(obfuscated), ..self }
    }

    /// Set the color; the slot keeps the color's string form.
    pub fn color(self, color: Color) -> (r: ChatBuilder)
        ensures
            r.color matches Some(s) && s@ == color_code_v(color),
            r.value == self.value,
            r.bold == self.bold,
            r.italic == self.italic,
            r.underlined == self.underlined,
            r.strikethrough == self.strikethrough,
            r.obfuscated == self.obfuscated,
            r.insertion == self.insertion,
            r.click_event == self.click_event,
            r.hover_event == self.hover_event,
            r.extra == self.extra,
    {
        let code = color.code();
        ChatBuilder { color: Option::Some(code), ..self }
    }

    pub fn insertion(self, insertion: Option<String>) -> (r: ChatBuilder)
        ensures
            r == (ChatBuilder { insertion: Option::Some(insertion), ..self }),
    {
        ChatBuilder { insertion: Option::Some(insertion), ..self }
    }

    pub fn click_event(self, click_event: Option<ClickEvent>) -> (r: ChatBuilder)
        ensures
            r == (ChatBuilder { click_event: Option::Some(click_event), ..self }),
    {
        ChatBuilder { click_event: Option::Some(click_event), ..self }
    }

    pub fn hover_event(self, hover_event: Option<HoverEvent>) -> (r: ChatBuilder)
        ensures
            r == (ChatBuilder { hover_event: Option::Some(hover_event), ..self }),
    {
        ChatBuilder { hover_event: Option::Some(hover_event), ..self }
    }

    pub fn extra(self, extra: Vec<Chat>) -> (r: ChatBuilder)
        ensures
            r == (ChatBuilder { extra: Option::Some(extra), ..self }),
    {
        ChatBuilder { extra: Option::Some(extra), ..self }
    }

    /// Assemble the `Chat`.  Succeeds exactly when the content was supplied;
    /// every unset slot takes its documented default.
    pub fn build(self) -> (r: Result<Chat, BuildError>)
        ensures
            r is Ok <==> self.value is Some,
            r matches Ok(c) ==> {
                &&& self.value matches Some(v) && c@.value == chat_type_v(v)
                &&& c@.bold == or_else(self.bold, false)
                &&& c@.italic == or_else(self.italic, false)
                &&& c@.underlined == or_else(self.underlined, false)
                &&& c@.strikethrough == or_else(self.strikethrough, false)
                &&& c@.obfuscated == or_else(self.obfuscated, false)
                &&& c@.color == (match self.color {
                    Option::Some(s) => s@,
                    Option::None => Seq::<char>::empty(),
                })
                &&& c@.insertion == (match self.insertion {
                    Option::Some(Option::Some(s)) => Option::Some(s@),
                    _ => Option::<Seq<char>>::None,
                })
                &&& c@.click_event == (match self.click_event {
                    Option::Some(Option::Some(e)) => Option::Some(click_event_v(e)),
                    _ => Option::<crate::model::ClickEventV>::None,
                })
                &&& c@.hover_event == (match self.hover_event {
                    Option::Some(Option::Some(h)) => Option::Some(h@),
                    _ => Option::<crate::model::HoverEventV>::None,
                })
                &&& c@.extra == (match self.extra {
                    Option::Some(v) => chats_v(v@),
                    Option::None => Seq::<crate::model::ChatV>::empty(),
                })
            },
            r matches Err(e) ==> e == BuildError::MissingRequiredField,
    {
        match self.value {
            Option::None => Result::Err(BuildError::MissingRequiredField),
            Option::Some(value) => {
                let c = Chat {
                    value,
                    bold: match self.bold {
                        Option::Some(b) => b,
                        Option::None => false,
                    },
                    italic: match self.italic {
                        Option::Some(b) => b,
                        Option::None => false,
                    },
                    underlined: match self.underlined {
                        Option::Some(b) => b,
                        Option::None => false,
                    },
                    strikethrough: match self.strikethrough {
                        Option::Some(b) => b,
                        Option::None => false,
                    },
                    obfuscated: match self.obfuscated {
                        Option::Some(b) => b,
                        Option::None => false,
                    },
                    color: match self.color {
                        Option::Some(s) => s,
                        Option::None => String::new(),
                    },
                    insertion: match self.insertion {
                        Option::Some(i) => i,
                        Option::None => Option::None,
                    },
                    click_event: match self.click_event {
                        Option::Some(e) => e,
                        Option::None => Option::None,
                    },
                    hover_event: match self.hover_event {
                        Option::Some(h) => h,
                        Option::None => Option::None,
                    },
                    extra: match self.extra {
                        Option::Some(v) => v,
                        Option::None => Vec::new(),
                    },
                };
                Result::Ok(c)
            },
        }
    }
}

/// Builds a `ClickEvent`; both fields are required.
pub struct ClickEventBuilder {
    pub action: Option<String>,
    pub value: Option<String>,
}

impl Default for ClickEventBuilder {
    /// A builder with both slots unset.
    fn default() -> (r: ClickEventBuilder)
        ensures
            r.action is None,
            r.value is None,
    {
        ClickEventBuilder { action: Option::None, value: Option::None }
    }
}

impl ClickEventBuilder {
    /// Set the action from its fixed name set.
    pub fn action(self, action: crate::model::ClickEventAction) -> (r: ClickEventBuilder)
        ensures
            r.action matches Some(s) && s@ == crate::model::click_action_code_v(action),
            r.value == self.value,
    {
        ClickEventBuilder { action: Option::Some(action.code()), ..self }
    }

    /// Set the action from an arbitrary string; unknown names round-trip.
    pub fn action_string(self, action: String) -> (r: ClickEventBuilder)
        ensures
            r == (ClickEventBuilder { action: Option::Some(action), ..self }),
    {
        ClickEventBuilder { action: Option::Some(action), ..self }
    }

    pub fn value(self, value: String) -> (r: ClickEventBuilder)
        ensures
            r == (ClickEventBuilder { value: Option::Some(value), ..self }),
    {
        ClickEventBuilder { value: Option::Some(value), ..self }
    }

    /// Assemble the event; succeeds exactly when both fields were supplied.
    pub fn build(self) -> (r: Result<ClickEvent, BuildError>)
        ensures
            r is Ok <==> (self.action is Some && self.value is Some),
            r matches Ok(e) ==> {
                &&& self.action matches Some(a) && e@.action == a@
                &&& self.value matches Some(v) && e@.value == v@
            },
            r matches Err(e) ==> e == BuildError::MissingRequiredField,
    {
        match (self.action, self.value) {
            (Option::Some(action), Option::Some(value)) => Result::Ok(
                ClickEvent { action, value },
            ),
            _ => Result::Err(BuildError::MissingRequiredField),
        }
    }
}

/// Builds a `HoverEvent`; both fields are required.
pub struct HoverEventBuilder {
    pub action: Option<String>,
    pub value: Option<ChatOrString>,
}

impl Default for HoverEventBuilder {
    /// A builder with both slots unset.
    fn default() -> (r: HoverEventBuilder)
        ensures
            r.action is None,
            r.value is None,
    {
        HoverEventBuilder { action: Option::None, value: Option::None }
    }
}

impl HoverEventBuilder {
    /// Set the action from its fixed name set.
    pub fn action(self, action: crate::model::HoverEventAction) -> (r: HoverEventBuilder)
        ensures
            r.action matches Some(s) && s@ == crate::model::hover_action_code_v(action),
            r.value == self.value,
    {
        HoverEventBuilder { action: Option::Some(action.code()), ..self }
    }

    /// Set the action from an arbitrary string; unknown names round-trip.
    pub fn action_string(self, action: String) -> (r: HoverEventBuilder)
        ensures
            r == (HoverEventBuilder { action: Option::Some(action), ..self }),
    {
        HoverEventBuilder { action: Option::Some(action), ..self }
    }

    pub fn value(self, value: ChatOrString) -> (r: HoverEventBuilder)
        ensures
            r == (HoverEventBuilder { value: Option::Some(value), ..self }),
    {
        HoverEventBuilder { value: Option::Some(value), ..self }
    }

    /// Assemble the event; succeeds exactly when both fields were supplied.
    pub fn build(self) -> (r: Result<HoverEvent, BuildError>)
        ensures
            r is Ok <==> (self.action is Some && self.value is Some),
            r matches Ok(e) ==> {
                &&& self.action matches Some(a) && e@.action == a@
                &&& self.value matches Some(v) && e@.value == chat_or_string_v(v)
            },
            r matches Err(e) ==> e == BuildError::MissingRequiredField,
    {
        match (self.action, self.value) {
            (Option::Some(action), Option::Some(value)) => Result::Ok(
                HoverEvent { action, value },
            ),
            _ => Result::Err(BuildError::MissingRequiredField),
        }
    }
}

} // verus!
